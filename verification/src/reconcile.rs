//! The decisions of a library scan: which boards were found, how each image found on disk is
//! written to the library, and what happens to the images and boards that were not found.
use vstd::prelude::*;
use crate::keyed::{
    keyed_view, assoc, lists, keys_unique, find_key, dedup_last_wins, lemma_lists_remove,
    lemma_lists_same_map, lemma_unique_lists,
};
use crate::path_utils::{
    WorkspacePath, camino_file_name, is_file_name_of, is_normalization, opt_text,
};
use crate::text::{starts_with, has_prefix};

verus! {

/// What the library holds of an image: its id, modification time, size, thumbnail status and
/// thumbnail path.
#[derive(Debug)]
pub struct ImageDbMetadata {
    pub id: i32,
    pub mtime: i64,
    pub size: i64,
    pub thumb_status: String,
    pub thumb_path: Option<String>,
}

/// The value of an image's stored metadata.
pub struct ImageMetaView {
    pub id: i32,
    pub mtime: i64,
    pub size: i64,
    pub thumb_status: Seq<char>,
    pub thumb_path: Option<Seq<char>>,
}

impl View for ImageDbMetadata {
    type V = ImageMetaView;

    open spec fn view(&self) -> ImageMetaView {
        ImageMetaView {
            id: self.id,
            mtime: self.mtime,
            size: self.size,
            thumb_status: self.thumb_status@,
            thumb_path: opt_text(self.thumb_path),
        }
    }
}

/// An image file found on disk: its path, the key of the board folder it was found under, its
/// modification time, size and file name.
#[derive(Debug)]
pub struct FoundImage {
    pub path: String,
    pub board_abs_path: String,
    pub mtime: i64,
    pub size: i64,
    pub filename: String,
}

/// The value of a found image.
pub struct FoundImageView {
    pub path: Seq<char>,
    pub board_abs_path: Seq<char>,
    pub mtime: i64,
    pub size: i64,
    pub filename: Seq<char>,
}

impl View for FoundImage {
    type V = FoundImageView;

    open spec fn view(&self) -> FoundImageView {
        FoundImageView {
            path: self.path@,
            board_abs_path: self.board_abs_path@,
            mtime: self.mtime,
            size: self.size,
            filename: self.filename@,
        }
    }
}

/// The values of found images.
pub open spec fn found_view(v: Seq<FoundImage>) -> Seq<FoundImageView> {
    v.map_values(|f: FoundImage| f@)
}

/// A write to the library's images table.
#[derive(Debug)]
pub enum ImageWrite {
    /// The file changed: new time and size, new board, thumbnail pending again, present.
    UpdateModified { id: i32, mtime: i64, size: i64, board_id: i32 },
    /// The file is unchanged: mark it present.
    MarkPresent { id: i32 },
    /// A new file: insert it with a pending thumbnail.
    Insert { filename: String, path: String, board_id: i32, size: i64, mtime: i64 },
}

/// The value of a write.
pub enum ImageWriteView {
    UpdateModified { id: i32, mtime: i64, size: i64, board_id: i32 },
    MarkPresent { id: i32 },
    Insert { filename: Seq<char>, path: Seq<char>, board_id: i32, size: i64, mtime: i64 },
}

impl View for ImageWrite {
    type V = ImageWriteView;

    open spec fn view(&self) -> ImageWriteView {
        match self {
            ImageWrite::UpdateModified { id, mtime, size, board_id } => ImageWriteView::UpdateModified {
                id: *id,
                mtime: *mtime,
                size: *size,
                board_id: *board_id,
            },
            ImageWrite::MarkPresent { id } => ImageWriteView::MarkPresent { id: *id },
            ImageWrite::Insert { filename, path, board_id, size, mtime } => ImageWriteView::Insert {
                filename: filename@,
                path: path@,
                board_id: *board_id,
                size: *size,
                mtime: *mtime,
            },
        }
    }
}

/// The values of a list of writes.
pub open spec fn writes_view(v: Seq<ImageWrite>) -> Seq<ImageWriteView> {
    v.map_values(|w: ImageWrite| w@)
}

/// The board id recorded for a board key, or 0 when the key is unknown.
pub open spec fn board_id_for(board_ids: Map<Seq<char>, i32>, key: Seq<char>) -> i32 {
    if board_ids.contains_key(key) {
        board_ids[key]
    } else {
        0
    }
}

/// The state of a diff: the stored images not yet matched, the writes so far, and how many
/// images need a new thumbnail.
pub struct DiffState {
    pub existing: Map<Seq<char>, ImageMetaView>,
    pub writes: Seq<ImageWriteView>,
    pub pending: nat,
}

/// One found image, at normalized path `abs`, compared with the stored images: a stored image
/// at that path is matched (and taken out); it is refreshed when its time or size differ, else
/// marked present. Otherwise the image is inserted. Refreshed and inserted images need a
/// thumbnail.
pub open spec fn diff_step(
    st: DiffState,
    board_ids: Map<Seq<char>, i32>,
    img: FoundImageView,
    abs: Seq<char>,
) -> DiffState {
    let bid = board_id_for(board_ids, img.board_abs_path);
    if st.existing.contains_key(abs) {
        let m = st.existing[abs];
        if m.mtime != img.mtime || m.size != img.size {
            DiffState {
                existing: st.existing.remove(abs),
                writes: st.writes.push(
                    ImageWriteView::UpdateModified {
                        id: m.id,
                        mtime: img.mtime,
                        size: img.size,
                        board_id: bid,
                    },
                ),
                pending: st.pending + 1,
            }
        } else {
            DiffState {
                existing: st.existing.remove(abs),
                writes: st.writes.push(ImageWriteView::MarkPresent { id: m.id }),
                pending: st.pending,
            }
        }
    } else {
        DiffState {
            existing: st.existing,
            writes: st.writes.push(
                ImageWriteView::Insert {
                    filename: img.filename,
                    path: abs,
                    board_id: bid,
                    size: img.size,
                    mtime: img.mtime,
                },
            ),
            pending: st.pending + 1,
        }
    }
}

/// All found images compared in order, starting from `st`.
pub open spec fn diff_all(
    st: DiffState,
    board_ids: Map<Seq<char>, i32>,
    imgs: Seq<FoundImageView>,
    abs: Seq<Seq<char>>,
) -> DiffState
    decreases imgs.len(),
{
    if imgs.len() == 0 {
        st
    } else {
        diff_step(
            diff_all(st, board_ids, imgs.drop_last(), abs.drop_last()),
            board_ids,
            imgs.last(),
            abs.last(),
        )
    }
}

/// The outcome of comparing the found images with the stored ones.
pub struct ImageDiff {
    /// The writes to make, one per found image, in order.
    pub writes: Vec<ImageWrite>,
    /// How many images need a new thumbnail.
    pub new_pending: usize,
    /// The stored images that no found image matched, each path once.
    pub remaining: Vec<(String, ImageDbMetadata)>,
}

/// The texts of a list of strings.
pub open spec fn texts_of(v: Seq<String>) -> Seq<Seq<char>> {
    v.map_values(|s: String| s@)
}

/// The starting state of a diff against the stored images.
pub open spec fn diff_start(existing: Map<Seq<char>, ImageMetaView>) -> DiffState {
    DiffState { existing, writes: Seq::empty(), pending: 0 }
}

/// Compares found images, whose normalized paths are `abs_paths`, with the stored images.
///
/// `board_ids` maps board keys to board ids and `existing` maps normalized paths to stored
/// metadata (for both, a later entry for a key replaces an earlier one).
pub fn diff_normalized_images(
    board_ids: Vec<(String, i32)>,
    existing: Vec<(String, ImageDbMetadata)>,
    found: &Vec<FoundImage>,
    abs_paths: &Vec<String>,
) -> (d: ImageDiff)
    requires
        abs_paths.len() == found.len(),
    ensures
        ({
            let st = diff_all(
                diff_start(assoc(keyed_view(existing@))),
                assoc(keyed_view(board_ids@)),
                found_view(found@),
                texts_of(abs_paths@),
            );
            &&& writes_view(d.writes@) == st.writes
            &&& d.new_pending == st.pending
            &&& lists(keyed_view(d.remaining@), st.existing)
        }),
        d.writes.len() == found.len(),
        forall|k: int|
            0 <= k < found.len() ==> write_describes(
                #[trigger] d.writes@[k]@,
                found@[k]@,
                abs_paths@[k]@,
                assoc(keyed_view(existing@)).contains_key(abs_paths@[k]@) && !texts_of(
                    abs_paths@,
                ).take(k).contains(abs_paths@[k]@),
                assoc(keyed_view(existing@))[abs_paths@[k]@],
                board_id_for(assoc(keyed_view(board_ids@)), found@[k].board_abs_path@),
            ),
{
    let ghost existing_map = assoc(keyed_view(existing@));
    let ghost bmap = assoc(keyed_view(board_ids@));
    let ghost fv = found_view(found@);
    let ghost av = texts_of(abs_paths@);
    let boards = dedup_last_wins(board_ids);
    let mut remaining = dedup_last_wins(existing);
    let mut writes: Vec<ImageWrite> = Vec::new();
    let mut new_pending: usize = 0;
    let ghost st0 = diff_start(assoc(keyed_view(existing@)));
    let mut i: usize = 0;
    proof {
        assert(fv.take(0) =~= Seq::<FoundImageView>::empty());
        assert(av.take(0) =~= Seq::<Seq<char>>::empty());
        assert(writes_view(writes@) =~= Seq::<ImageWriteView>::empty());
    }
    while i < found.len()
        invariant
            i <= found.len(),
            abs_paths.len() == found.len(),
            fv == found_view(found@),
            av == texts_of(abs_paths@),
            lists(keyed_view(boards@), bmap),
            ({
                let st = diff_all(st0, bmap, fv.take(i as int), av.take(i as int));
                &&& writes_view(writes@) == st.writes
                &&& new_pending == st.pending
                &&& lists(keyed_view(remaining@), st.existing)
            }),
            new_pending <= i,
        decreases found.len() - i,
    {
        let img = &found[i];
        let abs = &abs_paths[i];
        let ghost st = diff_all(st0, bmap, fv.take(i as int), av.take(i as int));
        proof {
            assert(fv.take(i + 1).drop_last() == fv.take(i as int));
            assert(av.take(i + 1).drop_last() == av.take(i as int));
            assert(fv.take(i + 1).last() == img@);
            assert(av.take(i + 1).last() == abs@);
        }
        let bid = match find_key(&boards, img.board_abs_path.as_str()) {
            Some(k) => {
                proof {
                    assert(bmap.contains_key(keyed_view(boards@)[k as int].0));
                }
                boards[k].1
            },
            None => 0,
        };
        proof {
            assert(bid == board_id_for(bmap, img@.board_abs_path));
        }
        let ghost rem_before = keyed_view(remaining@);
        let ghost writes_before = writes_view(writes@);
        match find_key(&remaining, abs.as_str()) {
            Some(k) => {
                proof {
                    assert(st.existing.contains_key(rem_before[k as int].0));
                    lemma_lists_remove(rem_before, st.existing, k as int);
                }
                let (_, meta) = remaining.remove(k);
                proof {
                    assert(keyed_view(remaining@) =~= rem_before.remove(k as int));
                    assert(meta@ == st.existing[abs@]);
                }
                if meta.mtime != img.mtime || meta.size != img.size {
                    writes.push(
                        ImageWrite::UpdateModified {
                            id: meta.id,
                            mtime: img.mtime,
                            size: img.size,
                            board_id: bid,
                        },
                    );
                    new_pending = new_pending + 1;
                } else {
                    writes.push(ImageWrite::MarkPresent { id: meta.id });
                }
            },
            None => {
                proof {
                    assert(!st.existing.contains_key(abs@));
                }
                writes.push(
                    ImageWrite::Insert {
                        filename: img.filename.clone(),
                        path: abs.clone(),
                        board_id: bid,
                        size: img.size,
                        mtime: img.mtime,
                    },
                );
                new_pending = new_pending + 1;
            },
        }
        proof {
            assert(writes_view(writes@) =~= diff_step(st, bmap, img@, abs@).writes);
        }
        i = i + 1;
    }
    proof {
        assert(fv.take(found.len() as int) == fv);
        assert(av.take(found.len() as int) == av);
        lemma_diff_writes_describe_found(existing_map, bmap, fv, av);
        assert forall|k: int| 0 <= k < found.len() implies write_describes(
            #[trigger] writes@[k]@,
            found@[k]@,
            abs_paths@[k]@,
            existing_map.contains_key(abs_paths@[k]@) && !av.take(k).contains(abs_paths@[k]@),
            existing_map[abs_paths@[k]@],
            board_id_for(bmap, found@[k].board_abs_path@),
        ) by {
            assert(writes_view(writes@)[k] == writes@[k]@);
            assert(fv[k] == found@[k]@);
            assert(av[k] == abs_paths@[k]@);
        }
    }
    ImageDiff { writes, new_pending, remaining }
}

/// Compares found images with the stored images, keying each found image by its normalized
/// path.
pub fn diff_images(
    board_ids: Vec<(String, i32)>,
    existing: Vec<(String, ImageDbMetadata)>,
    found: &Vec<FoundImage>,
) -> (d: ImageDiff)
    ensures
        exists|abs: Seq<Seq<char>>|
            #![trigger abs.len()]
            abs.len() == found@.len() && (forall|i: int|
                0 <= i < abs.len() ==> is_normalization(found@[i].path@, #[trigger] abs[i])) && ({
                let st = diff_all(
                    diff_start(assoc(keyed_view(existing@))),
                    assoc(keyed_view(board_ids@)),
                    found_view(found@),
                    abs,
                );
                &&& writes_view(d.writes@) == st.writes
                &&& d.new_pending == st.pending
                &&& lists(keyed_view(d.remaining@), st.existing)
                &&& forall|k: int|
                    0 <= k < found@.len() ==> write_describes(
                        #[trigger] writes_view(d.writes@)[k],
                        found_view(found@)[k],
                        abs[k],
                        assoc(keyed_view(existing@)).contains_key(abs[k]) && !abs.take(k).contains(
                            abs[k],
                        ),
                        assoc(keyed_view(existing@))[abs[k]],
                        board_id_for(assoc(keyed_view(board_ids@)), found_view(found@)[k].board_abs_path),
                    )
            }),
{
    let ghost existing_map = assoc(keyed_view(existing@));
    let ghost bmap = assoc(keyed_view(board_ids@));
    let mut abs_paths: Vec<String> = Vec::new();
    let mut i: usize = 0;
    while i < found.len()
        invariant
            i <= found.len(),
            abs_paths.len() == i,
            forall|j: int|
                0 <= j < i ==> is_normalization(found@[j].path@, #[trigger] abs_paths@[j]@),
        decreases found.len() - i,
    {
        abs_paths.push(WorkspacePath::normalize(found[i].path.as_str()));
        i = i + 1;
    }
    let d = diff_normalized_images(board_ids, existing, found, &abs_paths);
    proof {
        let abs = texts_of(abs_paths@);
        assert(abs.len() == found@.len());
        assert forall|j: int| 0 <= j < abs.len() implies is_normalization(
            found@[j].path@,
            #[trigger] abs[j],
        ) by {
            assert(abs[j] == abs_paths@[j]@);
        }
        lemma_diff_writes_describe_found(existing_map, bmap, found_view(found@), abs);
    }
    d
}

/// What becomes of a stored image that the scan did not find.
#[derive(Debug, Clone, Copy, PartialEq, Eq, Structural)]
pub enum MissingImageAction {
    /// Its board is still there: the file is gone, delete the record.
    Delete(i32),
    /// Its board is gone too: keep the record, marked missing.
    MarkMissing(i32),
}

/// Whether `path` lies under one of the board keys (begins with it).
pub open spec fn under_some_board(path: Seq<char>, keys: Seq<Seq<char>>) -> bool {
    exists|k: int| 0 <= k < keys.len() && has_prefix(path, #[trigger] keys[k])
}

/// The action for one unmatched stored image.
pub open spec fn missing_action(e: (Seq<char>, ImageMetaView), keys: Seq<Seq<char>>) -> MissingImageAction {
    if under_some_board(e.0, keys) {
        MissingImageAction::Delete(e.1.id)
    } else {
        MissingImageAction::MarkMissing(e.1.id)
    }
}

/// The thumbnail files to delete: those of deleted records that have one, in order.
pub open spec fn deleted_thumbs(rem: Seq<(Seq<char>, ImageMetaView)>, keys: Seq<Seq<char>>) -> Seq<
    Seq<char>,
>
    decreases rem.len(),
{
    if rem.len() == 0 {
        Seq::empty()
    } else {
        let prev = deleted_thumbs(rem.drop_last(), keys);
        let e = rem.last();
        if under_some_board(e.0, keys) && e.1.thumb_path is Some {
            prev.push(e.1.thumb_path->0)
        } else {
            prev
        }
    }
}

/// Whether `path` begins with one of `keys`.
fn under_board(path: &str, keys: &Vec<String>) -> (r: bool)
    ensures
        r == under_some_board(path@, texts_of(keys@)),
{
    let mut i: usize = 0;
    while i < keys.len()
        invariant
            i <= keys.len(),
            forall|k: int| 0 <= k < i ==> !has_prefix(path@, #[trigger] texts_of(keys@)[k]),
        decreases keys.len() - i,
    {
        if starts_with(path, keys[i].as_str()) {
            assert(texts_of(keys@)[i as int] == keys@[i as int]@);
            return true;
        }
        i = i + 1;
    }
    false
}

/// For each stored image that the scan did not find: delete its record when a found board
/// holds its path, else mark it missing. Also lists the thumbnails of deleted records.
pub fn plan_missing_images(remaining: &Vec<(String, ImageDbMetadata)>, found_board_keys: &Vec<
    String,
>) -> (r: (Vec<MissingImageAction>, Vec<String>))
    ensures
        r.0@ == keyed_view(remaining@).map_values(
            |e: (Seq<char>, ImageMetaView)| missing_action(e, texts_of(found_board_keys@)),
        ),
        texts_of(r.1@) == deleted_thumbs(keyed_view(remaining@), texts_of(found_board_keys@)),
        r.0.len() == remaining.len(),
        forall|i: int|
            0 <= i < remaining.len() && (#[trigger] r.0@[i]) is Delete
                && remaining@[i].1.thumb_path is Some ==> texts_of(r.1@).contains(
                remaining@[i].1.thumb_path->0@,
            ),
{
    let ghost keys = texts_of(found_board_keys@);
    let ghost rv = keyed_view(remaining@);
    let mut actions: Vec<MissingImageAction> = Vec::new();
    let mut thumbs: Vec<String> = Vec::new();
    let mut i: usize = 0;
    proof {
        assert(rv.take(0) =~= Seq::<(Seq<char>, ImageMetaView)>::empty());
        assert(texts_of(thumbs@) =~= Seq::<Seq<char>>::empty());
    }
    while i < remaining.len()
        invariant
            i <= remaining.len(),
            keys == texts_of(found_board_keys@),
            rv == keyed_view(remaining@),
            actions@ == rv.take(i as int).map_values(
                |e: (Seq<char>, ImageMetaView)| missing_action(e, keys),
            ),
            texts_of(thumbs@) == deleted_thumbs(rv.take(i as int), keys),
        decreases remaining.len() - i,
    {
        let path = &remaining[i].0;
        let meta = &remaining[i].1;
        proof {
            assert(rv.take(i + 1).drop_last() == rv.take(i as int));
            assert(rv.take(i + 1).last() == (path@, meta@));
            assert(rv.take(i + 1) == rv.take(i as int).push((path@, meta@)));
        }
        let ghost thumbs_before = texts_of(thumbs@);
        if under_board(path.as_str(), found_board_keys) {
            actions.push(MissingImageAction::Delete(meta.id));
            match &meta.thumb_path {
                Some(tp) => {
                    thumbs.push(tp.clone());
                    proof {
                        assert(texts_of(thumbs@) =~= thumbs_before.push(tp@));
                    }
                },
                None => {},
            }
        } else {
            actions.push(MissingImageAction::MarkMissing(meta.id));
        }
        proof {
            assert(actions@ =~= rv.take(i + 1).map_values(
                |e: (Seq<char>, ImageMetaView)| missing_action(e, keys),
            ));
        }
        i = i + 1;
    }
    proof {
        assert(rv.take(remaining.len() as int) == rv);
        lemma_deleted_thumbs_of_deleted_records(rv, keys);
        assert forall|i: int|
            0 <= i < remaining.len() && (#[trigger] actions@[i]) is Delete
                && remaining@[i].1.thumb_path is Some implies texts_of(thumbs@).contains(
            remaining@[i].1.thumb_path->0@,
        ) by {
            assert(actions@[i] == missing_action(rv[i], keys));
            assert(rv[i].1 == remaining@[i].1@);
        }
    }
    let r = (actions, thumbs);
    r
}

/// Whether `key` is one of `keys`.
fn has_key(keys: &Vec<String>, key: &str) -> (r: bool)
    ensures
        r == texts_of(keys@).contains(key@),
{
    let mut i: usize = 0;
    while i < keys.len()
        invariant
            i <= keys.len(),
            forall|k: int| 0 <= k < i ==> texts_of(keys@)[k] != key@,
        decreases keys.len() - i,
    {
        if crate::path_utils::text_eq(keys[i].as_str(), key) {
            assert(texts_of(keys@)[i as int] == key@);
            return true;
        }
        i = i + 1;
    }
    false
}

/// The ids of the stored boards (under the scanned folders) whose path is not among the found
/// board keys: those boards are marked missing.
pub open spec fn missing_board_ids(db_boards: Seq<(i32, Seq<char>)>, found: Seq<Seq<char>>) -> Seq<i32>
    decreases db_boards.len(),
{
    if db_boards.len() == 0 {
        Seq::empty()
    } else {
        let prev = missing_board_ids(db_boards.drop_last(), found);
        let b = db_boards.last();
        if found.contains(b.1) {
            prev
        } else {
            prev.push(b.0)
        }
    }
}

/// The boards marked missing are exactly the stored boards whose path the scan did not find:
/// every id listed is that of such a board, and every such board's id is listed.
pub proof fn lemma_missing_boards(db_boards: Seq<(i32, Seq<char>)>, found: Seq<Seq<char>>)
    ensures
        forall|j: int|
            0 <= j < missing_board_ids(db_boards, found).len() ==> exists|i: int|
                0 <= i < db_boards.len() && (#[trigger] db_boards[i]).0
                    == #[trigger] missing_board_ids(db_boards, found)[j] && !found.contains(
                    db_boards[i].1,
                ),
        forall|i: int|
            0 <= i < db_boards.len() && !found.contains((#[trigger] db_boards[i]).1)
                ==> missing_board_ids(db_boards, found).contains(db_boards[i].0),
    decreases db_boards.len(),
{
    if db_boards.len() > 0 {
        let p = db_boards.drop_last();
        lemma_missing_boards(p, found);
        let m = missing_board_ids(db_boards, found);
        let mp = missing_board_ids(p, found);
        let b = db_boards.last();
        assert forall|j: int| 0 <= j < m.len() implies exists|i: int|
            0 <= i < db_boards.len() && (#[trigger] db_boards[i]).0 == #[trigger] m[j]
                && !found.contains(db_boards[i].1) by {
            if j < mp.len() {
                assert(m[j] == mp[j]);
                let i = choose|i: int|
                    0 <= i < p.len() && (#[trigger] p[i]).0 == #[trigger] mp[j] && !found.contains(
                        p[i].1,
                    );
                assert(db_boards[i] == p[i]);
            } else {
                assert(db_boards[db_boards.len() - 1] == b);
            }
        }
        assert forall|i: int|
            0 <= i < db_boards.len() && !found.contains((#[trigger] db_boards[i]).1) implies m.contains(
            db_boards[i].0,
        ) by {
            if i < p.len() {
                assert(db_boards[i] == p[i]);
                let j = choose|j: int| 0 <= j < mp.len() && mp[j] == p[i].0;
                assert(m[j] == mp[j]);
            } else {
                assert(db_boards[i] == b);
                assert(m[m.len() - 1] == b.0);
            }
        }
    }
}

/// The value of a list of stored boards.
pub open spec fn boards_view(v: Seq<(i32, String)>) -> Seq<(i32, Seq<char>)> {
    v.map_values(|b: (i32, String)| (b.0, b.1@))
}

/// The ids of stored boards whose path was not found by the scan.
pub fn boards_to_mark_missing(db_boards: &Vec<(i32, String)>, found_keys: &Vec<String>) -> (ids: Vec<
    i32,
>)
    ensures
        ids@ == missing_board_ids(boards_view(db_boards@), texts_of(found_keys@)),
{
    let ghost bv = boards_view(db_boards@);
    let mut ids: Vec<i32> = Vec::new();
    let mut i: usize = 0;
    proof {
        assert(bv.take(0) =~= Seq::<(i32, Seq<char>)>::empty());
    }
    while i < db_boards.len()
        invariant
            i <= db_boards.len(),
            bv == boards_view(db_boards@),
            ids@ == missing_board_ids(bv.take(i as int), texts_of(found_keys@)),
        decreases db_boards.len() - i,
    {
        proof {
            assert(bv.take(i + 1).drop_last() == bv.take(i as int));
            assert(bv.take(i + 1).last() == (db_boards@[i as int].0, db_boards@[i as int].1@));
        }
        if !has_key(found_keys, db_boards[i].1.as_str()) {
            ids.push(db_boards[i].0);
        }
        i = i + 1;
    }
    proof {
        assert(bv.take(db_boards.len() as int) == bv);
    }
    ids
}

/// The name of a board: its folder's name, or "Source Folder" when the folder has none.
pub fn board_name_from(file_name: Option<String>) -> (name: String)
    ensures
        file_name matches Some(n) ==> name@ == n@,
        file_name is None ==> name@ == "Source Folder"@,
{
    match file_name {
        Some(n) => n,
        None => "Source Folder".to_string(),
    }
}

/// The scan of a workspace's folders: finding the boards, comparing the images found with the
/// stored ones, and settling what was not found.
pub struct ReconcilerActor;

impl ReconcilerActor {
    /// The name of the board for a folder.
    pub fn board_name(root: &str) -> (name: String)
        ensures
            exists|n: Option<Seq<char>>|
                is_file_name_of(root@, n) && (n matches Some(s) ==> name@ == s) && (n is None
                    ==> name@ == "Source Folder"@),
    {
        let n = camino_file_name(root);
        board_name_from(n)
    }

    /// The boards a scan found: for each scanned folder that exists, its normalized path as key and
    /// its name (a later folder with the same key replaces an earlier one).
    #[verifier::rlimit(40)]
    pub fn discover_boards(folders: &Vec<String>, exists: &Vec<bool>) -> (boards: Vec<(String, String)>)
        requires
            exists.len() == folders.len(),
        ensures
            exists|entries: Seq<(Seq<char>, Seq<char>)>|
                lists(keyed_view(boards@), assoc(entries)) && found_boards_from(
                    entries,
                    texts_of(folders@),
                    exists@,
                ),
    {
        let mut entries: Vec<(String, String)> = Vec::new();
        let ghost mut idx: Seq<int> = Seq::empty();
        let mut i: usize = 0;
        while i < folders.len()
            invariant
                i <= folders.len(),
                exists.len() == folders.len(),
                idx.len() == entries@.len(),
                forall|t: int| 0 <= t < idx.len() ==> 0 <= #[trigger] idx[t] < i && exists@[idx[t]],
                forall|t: int, u: int| 0 <= t < u < idx.len() ==> idx[t] < idx[u],
                forall|j: int| 0 <= j < i && exists@[j] ==> exists|t: int|
                    0 <= t < idx.len() && idx[t] == j,
                forall|t: int|
                    0 <= t < idx.len() ==> is_normalization(
                        folders@[idx[t]]@,
                        (#[trigger] entries@[t]).0@,
                    ) && exists|n: Option<Seq<char>>|
                        is_file_name_of(folders@[idx[t]]@, n) && (n matches Some(s) ==> entries@[t].1@
                            == s) && (n is None ==> entries@[t].1@ == "Source Folder"@),
            decreases folders.len() - i,
        {
            if exists[i] {
                let key = WorkspacePath::normalize(folders[i].as_str());
                let name = Self::board_name(folders[i].as_str());
                let ghost old_entries = entries@;
                entries.push((key, name));
                proof {
                    let old_idx = idx;
                    idx = idx.push(i as int);
                    assert forall|t: int|
                        0 <= t < idx.len() implies is_normalization(
                        folders@[idx[t]]@,
                        (#[trigger] entries@[t]).0@,
                    ) && exists|n: Option<Seq<char>>|
                        is_file_name_of(folders@[idx[t]]@, n) && (n matches Some(s) ==> entries@[t].1@
                            == s) && (n is None ==> entries@[t].1@ == "Source Folder"@) by {
                        if t < old_idx.len() {
                            assert(entries@[t] == old_entries[t]);
                            assert(idx[t] == old_idx[t]);
                        } else {
                            assert(idx[t] == i);
                        }
                    }
                    assert forall|j: int| 0 <= j < i + 1 && exists@[j] implies exists|t: int|
                        0 <= t < idx.len() && idx[t] == j by {
                        if j == i {
                            assert(idx[old_idx.len() as int] == j);
                        } else {
                            let t = choose|t: int| 0 <= t < old_idx.len() && old_idx[t] == j;
                            assert(idx[t] == j);
                        }
                    }
                }
            }
            i = i + 1;
        }
        let ghost ev = keyed_view(entries@);
        let boards = dedup_last_wins(entries);
        proof {
            assert forall|t: int| 0 <= t < idx.len() implies 0 <= #[trigger] idx[t] < folders.len() && exists@[idx[t]] by {}
            assert(found_boards_from(ev, texts_of(folders@), exists@)) by {
                assert(ev.len() == idx.len());
                assert forall|t: int| 0 <= t < ev.len() implies ev[t] == keyed_view(entries@)[t] by {}
                assert(exists|ix: Seq<int>| found_boards_witness(ev, texts_of(folders@), exists@, ix)) by {
                    assert forall|t: int| 0 <= t < idx.len() implies is_normalization(
                        texts_of(folders@)[idx[t]],
                        #[trigger] ev[t].0,
                    ) && exists|n: Option<Seq<char>>|
                        is_file_name_of(texts_of(folders@)[idx[t]], n) && (n matches Some(s) ==> ev[t].1
                            == s) && (n is None ==> ev[t].1 == "Source Folder"@) by {
                        assert(ev[t] == (entries@[t].0@, entries@[t].1@));
                        assert(texts_of(folders@)[idx[t]] == folders@[idx[t]]@);
                    }
                    assert(found_boards_witness(ev, texts_of(folders@), exists@, idx));
                }
            }
        }
        boards
    }
}

/// `ix` picks, in order, exactly the existing folders, and entry `t` holds a normalization of
/// folder `ix[t]` as key and that folder's board name.
pub open spec fn found_boards_witness(
    entries: Seq<(Seq<char>, Seq<char>)>,
    folders: Seq<Seq<char>>,
    exists: Seq<bool>,
    ix: Seq<int>,
) -> bool {
    &&& ix.len() == entries.len()
    &&& forall|t: int| 0 <= t < ix.len() ==> 0 <= #[trigger] ix[t] < folders.len() && exists[ix[t]]
    &&& forall|t: int, u: int| 0 <= t < u < ix.len() ==> ix[t] < ix[u]
    &&& forall|j: int| 0 <= j < folders.len() && exists[j] ==> exists|t: int|
        0 <= t < ix.len() && ix[t] == j
    &&& forall|t: int|
        0 <= t < ix.len() ==> is_normalization(folders[ix[t]], #[trigger] entries[t].0) && exists|
            n: Option<Seq<char>>,
        |
            is_file_name_of(folders[ix[t]], n) && (n matches Some(s) ==> entries[t].1 == s) && (n
                is None ==> entries[t].1 == "Source Folder"@)
}

/// `entries` are the (key, name) pairs of the existing folders, in order.
pub open spec fn found_boards_from(
    entries: Seq<(Seq<char>, Seq<char>)>,
    folders: Seq<Seq<char>>,
    exists: Seq<bool>,
) -> bool {
    exists|ix: Seq<int>| found_boards_witness(entries, folders, exists, ix)
}

/// A thumbnail refresh is needed after a scan exactly when some image needs a new thumbnail.
pub fn needs_thumbnail_nudge(new_pending: usize) -> (r: bool)
    ensures
        r == (new_pending > 0),
{
    new_pending > 0
}

/// The name recorded for a found image: its file name, or "unknown" when the path has none.
pub fn found_image_filename(file_name: Option<String>) -> (name: String)
    ensures
        file_name matches Some(n) ==> name@ == n@,
        file_name is None ==> name@ == "unknown"@,
{
    match file_name {
        Some(n) => n,
        None => "unknown".to_string(),
    }
}

/// The file name recorded for an image found at `path`: the path's final component, as
/// `camino::Utf8Path::file_name` gives it, or "unknown".
pub fn image_file_name(path: &str) -> (name: String)
    ensures
        exists|n: Option<Seq<char>>|
            is_file_name_of(path@, n) && (n matches Some(s) ==> name@ == s) && (n is None
                ==> name@ == "unknown"@),
{
    let n = camino_file_name(path);
    found_image_filename(n)
}

/// Whether a write asks for a new thumbnail (every write but marking an image present).
pub open spec fn write_needs_thumbnail(w: ImageWriteView) -> bool {
    !(w is MarkPresent)
}

/// The number of writes that ask for a new thumbnail.
pub open spec fn count_thumbnail_writes(ws: Seq<ImageWriteView>) -> nat
    decreases ws.len(),
{
    if ws.len() == 0 {
        0
    } else {
        count_thumbnail_writes(ws.drop_last()) + if write_needs_thumbnail(ws.last()) {
            1nat
        } else {
            0nat
        }
    }
}

/// Comparing found images makes one write per image, counts as pending exactly the writes that
/// ask for a thumbnail, and leaves unmatched exactly the stored images whose path no found image
/// has.
pub proof fn lemma_diff_accounting(
    existing: Map<Seq<char>, ImageMetaView>,
    board_ids: Map<Seq<char>, i32>,
    imgs: Seq<FoundImageView>,
    abs: Seq<Seq<char>>,
)
    requires
        abs.len() == imgs.len(),
    ensures
        ({
            let st = diff_all(diff_start(existing), board_ids, imgs, abs);
            &&& st.writes.len() == imgs.len()
            &&& st.pending == count_thumbnail_writes(st.writes)
            &&& st.existing == existing.remove_keys(abs.to_set())
        }),
    decreases imgs.len(),
{
    if imgs.len() == 0 {
        assert(abs.to_set() =~= Set::<Seq<char>>::empty());
        assert(existing.remove_keys(abs.to_set()) =~= existing);
    } else {
        lemma_diff_accounting(existing, board_ids, imgs.drop_last(), abs.drop_last());
        let prev = diff_all(diff_start(existing), board_ids, imgs.drop_last(), abs.drop_last());
        let st = diff_all(diff_start(existing), board_ids, imgs, abs);
        assert(st.writes.drop_last() == prev.writes);
        assert(abs == abs.drop_last().push(abs.last()));
        abs.drop_last().lemma_push_to_set_commute(abs.last());
        assert(st.existing =~= existing.remove_keys(abs.to_set()));
    }
}

/// A scan that finds every image as it is stored (same path, time and size, each path once)
/// changes nothing: every write only marks an image present, and no thumbnail is asked for.
pub proof fn lemma_unchanged_rescan(
    existing: Map<Seq<char>, ImageMetaView>,
    board_ids: Map<Seq<char>, i32>,
    imgs: Seq<FoundImageView>,
    abs: Seq<Seq<char>>,
)
    requires
        abs.len() == imgs.len(),
        abs.no_duplicates(),
        forall|i: int|
            0 <= i < abs.len() ==> #[trigger] existing.contains_key(abs[i]) && existing[abs[i]].mtime
                == imgs[i].mtime && existing[abs[i]].size == imgs[i].size,
    ensures
        ({
            let st = diff_all(diff_start(existing), board_ids, imgs, abs);
            &&& st.pending == 0
            &&& forall|k: int| 0 <= k < st.writes.len() ==> (#[trigger] st.writes[k]) is MarkPresent
        }),
    decreases imgs.len(),
{
    if imgs.len() > 0 {
        let pa = abs.drop_last();
        let pi = imgs.drop_last();
        assert(pa.no_duplicates());
        assert forall|i: int| 0 <= i < pa.len() implies #[trigger] existing.contains_key(pa[i])
            && existing[pa[i]].mtime == pi[i].mtime && existing[pa[i]].size == pi[i].size by {
            assert(pa[i] == abs[i]);
            assert(existing.contains_key(abs[i]));
        }
        lemma_unchanged_rescan(existing, board_ids, pi, pa);
        lemma_diff_accounting(existing, board_ids, pi, pa);
        let prev = diff_all(diff_start(existing), board_ids, pi, pa);
        let last = abs.last();
        assert(existing.contains_key(abs[abs.len() - 1]));
        assert(!pa.to_set().contains(last)) by {
            if pa.to_set().contains(last) {
                let j = choose|j: int| 0 <= j < pa.len() && pa[j] == last;
                assert(abs[j] == abs[abs.len() - 1]);
            }
        }
        assert(prev.existing.contains_key(last));
        assert(prev.existing[last] == existing[last]);
        let st = diff_all(diff_start(existing), board_ids, imgs, abs);
        assert(st.writes == prev.writes.push(ImageWriteView::MarkPresent { id: existing[last].id }));
        assert forall|k: int| 0 <= k < st.writes.len() implies (#[trigger] st.writes[k]) is MarkPresent by {
            if k < prev.writes.len() {
                assert(st.writes[k] == prev.writes[k]);
            }
        }
    }
}

/// The write a diff makes for a found image describes that image: an image is inserted exactly
/// when it is not matched; the insertion carries the image's own file name, normalized path,
/// size, modification time and board id. A matched image is marked present exactly when its
/// stored time and size are the found ones, else refreshed with the found time, size and board
/// id; both name the stored image's id.
pub open spec fn write_describes(
    w: ImageWriteView,
    img: FoundImageView,
    abs: Seq<char>,
    matched: bool,
    stored: ImageMetaView,
    bid: i32,
) -> bool {
    &&& (w is Insert <==> !matched)
    &&& (w matches ImageWriteView::Insert { filename, path, board_id, size, mtime } ==> filename
        == img.filename && path == abs && board_id == bid && size == img.size && mtime == img.mtime)
    &&& (matched ==> (w is MarkPresent <==> (stored.mtime == img.mtime && stored.size == img.size)))
    &&& (w matches ImageWriteView::UpdateModified { id, size, mtime, board_id } ==> id == stored.id
        && size == img.size && mtime == img.mtime && board_id == bid)
    &&& (w matches ImageWriteView::MarkPresent { id } ==> id == stored.id)
}

/// Each write of a diff describes its found image (see `write_describes`): the `k`-th write
/// belongs to the `k`-th found image, and that image is matched exactly when a stored image has
/// its path and no earlier found image took it.
pub proof fn lemma_diff_writes_describe_found(
    existing: Map<Seq<char>, ImageMetaView>,
    board_ids: Map<Seq<char>, i32>,
    imgs: Seq<FoundImageView>,
    abs: Seq<Seq<char>>,
)
    requires
        abs.len() == imgs.len(),
    ensures
        ({
            let st = diff_all(diff_start(existing), board_ids, imgs, abs);
            &&& st.writes.len() == imgs.len()
            &&& forall|k: int|
                0 <= k < imgs.len() ==> write_describes(
                    #[trigger] st.writes[k],
                    imgs[k],
                    abs[k],
                    existing.contains_key(abs[k]) && !abs.take(k).contains(abs[k]),
                    existing[abs[k]],
                    board_id_for(board_ids, imgs[k].board_abs_path),
                )
        }),
    decreases imgs.len(),
{
    lemma_diff_accounting(existing, board_ids, imgs, abs);
    if imgs.len() > 0 {
        let pi = imgs.drop_last();
        let pa = abs.drop_last();
        lemma_diff_writes_describe_found(existing, board_ids, pi, pa);
        lemma_diff_accounting(existing, board_ids, pi, pa);
        let prev = diff_all(diff_start(existing), board_ids, pi, pa);
        let st = diff_all(diff_start(existing), board_ids, imgs, abs);
        let n = imgs.len() - 1;
        assert(pa =~= abs.take(n));
        assert forall|k: int| 0 <= k < imgs.len() implies write_describes(
            #[trigger] st.writes[k],
            imgs[k],
            abs[k],
            existing.contains_key(abs[k]) && !abs.take(k).contains(abs[k]),
            existing[abs[k]],
            board_id_for(board_ids, imgs[k].board_abs_path),
        ) by {
            if k < n {
                assert(st.writes[k] == prev.writes[k]);
                assert(pi[k] == imgs[k]);
                assert(pa[k] == abs[k]);
                assert(pa.take(k) =~= abs.take(k));
                assert(write_describes(
                    prev.writes[k],
                    pi[k],
                    pa[k],
                    existing.contains_key(pa[k]) && !pa.take(k).contains(pa[k]),
                    existing[pa[k]],
                    board_id_for(board_ids, pi[k].board_abs_path),
                ));
            } else {
                assert(k == n);
                assert(prev.existing.contains_key(abs[k]) <==> (existing.contains_key(abs[k])
                    && !pa.to_set().contains(abs[k])));
                assert(pa.to_set().contains(abs[k]) <==> abs.take(k).contains(abs[k]));
                if prev.existing.contains_key(abs[k]) {
                    assert(prev.existing[abs[k]] == existing[abs[k]]);
                }
            }
        }
    }
}

/// The thumbnails a plan lists for deletion are exactly those of the unmatched images whose
/// record is deleted: each listed thumbnail is the thumbnail of a deleted record, and every
/// deleted record's thumbnail is listed. A record that is only marked missing keeps its
/// thumbnail.
pub proof fn lemma_deleted_thumbs_of_deleted_records(
    rem: Seq<(Seq<char>, ImageMetaView)>,
    keys: Seq<Seq<char>>,
)
    ensures
        forall|j: int|
            0 <= j < deleted_thumbs(rem, keys).len() ==> exists|i: int|
                0 <= i < rem.len() && missing_action(#[trigger] rem[i], keys) is Delete
                    && rem[i].1.thumb_path == Some(#[trigger] deleted_thumbs(rem, keys)[j]),
        forall|i: int|
            0 <= i < rem.len() && missing_action(#[trigger] rem[i], keys) is Delete
                && rem[i].1.thumb_path is Some ==> deleted_thumbs(rem, keys).contains(
                rem[i].1.thumb_path->0,
            ),
        forall|i: int|
            0 <= i < rem.len() && missing_action(#[trigger] rem[i], keys) is MarkMissing
                ==> !under_some_board(rem[i].0, keys),
    decreases rem.len(),
{
    if rem.len() > 0 {
        let p = rem.drop_last();
        lemma_deleted_thumbs_of_deleted_records(p, keys);
        let d = deleted_thumbs(rem, keys);
        let dp = deleted_thumbs(p, keys);
        let e = rem.last();
        assert forall|j: int| 0 <= j < d.len() implies exists|i: int|
            0 <= i < rem.len() && missing_action(#[trigger] rem[i], keys) is Delete
                && rem[i].1.thumb_path == Some(#[trigger] d[j]) by {
            if j < dp.len() {
                assert(d[j] == dp[j]);
                let i = choose|i: int|
                    0 <= i < p.len() && missing_action(#[trigger] p[i], keys) is Delete
                        && p[i].1.thumb_path == Some(#[trigger] dp[j]);
                assert(rem[i] == p[i]);
            } else {
                assert(rem[rem.len() - 1] == e);
            }
        }
        assert forall|i: int|
            0 <= i < rem.len() && missing_action(#[trigger] rem[i], keys) is Delete
                && rem[i].1.thumb_path is Some implies d.contains(rem[i].1.thumb_path->0) by {
            if i < p.len() {
                assert(rem[i] == p[i]);
                let j = choose|j: int| 0 <= j < dp.len() && dp[j] == p[i].1.thumb_path->0;
                assert(d[j] == dp[j]);
            } else {
                assert(rem[i] == e);
                assert(d[d.len() - 1] == e.1.thumb_path->0);
            }
        }
    }
}

} // verus!
