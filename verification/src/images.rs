//! Images and boards as the user interface receives them, and the queries that list them.
use vstd::prelude::*;
use crate::path_utils::{opt_text, text_eq};
use crate::text::{contains_text, copy_string, has_prefix, replace_char, replace_char_spec, starts_with, contains};

verus! {

/// An image of the library.
#[derive(Clone, Debug)]
pub struct Image {
    pub id: i32,
    pub filename: String,
    pub path: String,
    pub board_id: i32,
    pub board_name: String,
    pub thumb_path: Option<String>,
    pub thumbnail_status: String,
    pub width: u32,
    pub height: u32,
    pub size_bytes: i64,
    pub mtime: i64,
    pub created_at: i64,
    pub is_missing: bool,
}

/// A thumbnail path that is relative: non-empty, not starting with `/` or `\`, without a drive
/// colon.
pub open spec fn is_relative_thumb(p: Seq<char>) -> bool {
    &&& p.len() > 0
    &&& !has_prefix(p, seq!['/'])
    &&& !contains_text(p, seq![':'])
    &&& !has_prefix(p, seq!['\\'])
}

/// The thumbnail path the user interface receives: none unless the thumbnail is ready; a
/// relative path is placed under the local data directory (with `\` turned into `/`).
pub open spec fn cleaned_thumb(
    status: Seq<char>,
    thumb: Option<Seq<char>>,
    base: Option<Seq<char>>,
) -> Option<Seq<char>> {
    if status != "ready"@ {
        None
    } else {
        match (thumb, base) {
            (Some(p), Some(b)) => if is_relative_thumb(p) {
                Some(replace_char_spec(b, '\\', '/') + seq!['/'] + p)
            } else {
                Some(p)
            },
            _ => thumb,
        }
    }
}

impl Image {
    /// The image as shown: its thumbnail path dropped when the thumbnail is not ready, and made
    /// absolute under `local_data_dir` when it is relative. Nothing else changes.
    pub fn clean(self, local_data_dir: &Option<String>) -> (r: Image)
        ensures
            opt_text(r.thumb_path) == cleaned_thumb(
                self.thumbnail_status@,
                opt_text(self.thumb_path),
                opt_text(*local_data_dir),
            ),
            r.id == self.id,
            r.filename == self.filename,
            r.path == self.path,
            r.board_id == self.board_id,
            r.board_name == self.board_name,
            r.thumbnail_status == self.thumbnail_status,
            r.width == self.width,
            r.height == self.height,
            r.size_bytes == self.size_bytes,
            r.mtime == self.mtime,
            r.created_at == self.created_at,
            r.is_missing == self.is_missing,
    {
        let mut img = self;
        proof {
            reveal_strlit("ready");
        }
        if !text_eq(img.thumbnail_status.as_str(), "ready") {
            img.thumb_path = None;
            return img;
        }
        let new_thumb = match (&img.thumb_path, local_data_dir) {
            (Some(path), Some(base)) => {
                if is_relative_thumb_exec(path.as_str()) {
                    let mut abs = replace_char(base.as_str(), '\\', '/');
                    abs.push('/');
                    abs.append(path.as_str());
                    Some(abs)
                } else {
                    Some(path.clone())
                }
            },
            (Some(path), None) => Some(path.clone()),
            (None, _) => None,
        };
        img.thumb_path = new_thumb;
        img
    }
}

/// Whether a thumbnail path is relative.
fn is_relative_thumb_exec(p: &str) -> (r: bool)
    ensures
        r == is_relative_thumb(p@),
{
    let slash = "/";
    let colon = ":";
    let backslash = "\\";
    proof {
        reveal_strlit("/");
        reveal_strlit(":");
        reveal_strlit("\\");
        assert(slash@ =~= seq!['/']);
        assert(colon@ =~= seq![':']);
        assert(backslash@ =~= seq!['\\']);
    }
    !p.is_empty() && !starts_with(p, slash) && !contains(p, colon) && !starts_with(p, backslash)
}

/// Showing an image a second time changes nothing more, when there is no local data directory,
/// or it is empty, or absolute (starting with `/` or `\`, or holding a drive colon).
pub proof fn lemma_clean_idempotent(status: Seq<char>, thumb: Option<Seq<char>>, base: Option<
    Seq<char>,
>)
    requires
        base matches Some(b) ==> b.len() == 0 || has_prefix(b, seq!['/']) || has_prefix(
            b,
            seq!['\\'],
        ) || contains_text(b, seq![':']),
    ensures
        cleaned_thumb(status, cleaned_thumb(status, thumb, base), base) == cleaned_thumb(
            status,
            thumb,
            base,
        ),
{
    if status == "ready"@ {
        if let (Some(p), Some(base)) = (thumb, base) {
            if is_relative_thumb(p) {
                let b2 = replace_char_spec(base, '\\', '/');
                let q = b2 + seq!['/'] + p;
                if base.len() == 0 {
                    assert(q[0] == '/');
                    assert(q.take(1) =~= seq!['/']);
                } else if has_prefix(base, seq!['/']) || has_prefix(base, seq!['\\']) {
                    assert(base.len() >= 1);
                    assert(base[0] == base.take(1)[0]);
                    assert(q[0] == b2[0]);
                    assert(b2[0] == '/');
                    assert(q.take(1) =~= seq!['/']);
                } else {
                    let i = choose|i: int|
                        0 <= i && i + 1 <= base.len() && #[trigger] base.subrange(i, i + 1) == seq![':'];
                    assert(base.subrange(i, i + 1)[0] == base[i]);
                    assert(b2[i] == ':');
                    assert(q[i] == ':');
                    assert(q.subrange(i, i + 1) =~= seq![':']);
                }
            }
        }
    }
}

/// A page of images and the total number of images that match.
#[derive(Clone, Debug)]
pub struct PaginatedImages {
    pub images: Vec<Image>,
    pub total: u32,
}

/// A board (a source folder) as shown to the user.
#[derive(Clone, Debug)]
pub struct Board {
    pub id: i32,
    pub name: String,
    pub path: String,
    pub cover_image: Option<String>,
    pub image_count: i32,
    pub created_at: i64,
    pub updated_at: i64,
    pub is_missing: bool,
}

/// `n` question marks separated by commas.
pub open spec fn placeholders_spec(n: nat) -> Seq<char>
    decreases n,
{
    if n == 0 {
        Seq::empty()
    } else if n == 1 {
        seq!['?']
    } else {
        placeholders_spec((n - 1) as nat) + seq![',', '?']
    }
}

/// `n` SQL placeholders separated by commas, as in `IN (?,?,?)`.
pub fn placeholders(n: usize) -> (s: String)
    ensures
        s@ == placeholders_spec(n as nat),
{
    let mut s = String::new();
    let mut i: usize = 0;
    while i < n
        invariant
            i <= n,
            s@ == placeholders_spec(i as nat),
        decreases n - i,
    {
        if i > 0 {
            s.push(',');
        }
        s.push('?');
        proof {
            if i > 0 {
                assert(s@ =~= placeholders_spec(i as nat) + seq![',', '?']);
            } else {
                assert(s@ =~= seq!['?']);
            }
        }
        i = i + 1;
    }
    s
}

/// The column the images are sorted by: "name" sorts by file name, "size" by size, anything
/// else by modification time.
pub open spec fn order_column_spec(sort_by: Option<Seq<char>>) -> Seq<char> {
    if sort_by == Some("name"@) {
        "i.filename"@
    } else if sort_by == Some("size"@) {
        "i.size_bytes"@
    } else {
        "i.mtime"@
    }
}

/// The sort direction: ascending for "asc", otherwise descending.
pub open spec fn order_direction_spec(sort_order: Option<Seq<char>>) -> Seq<char> {
    if sort_order == Some("asc"@) {
        "ASC"@
    } else {
        "DESC"@
    }
}

/// Sorting by "size" orders images by their size in bytes, "name" by their file name, and any
/// other choice (or none) by modification time; "asc" sorts ascending and anything else
/// descending. Each column belongs to exactly one kind of choice.
pub proof fn lemma_sort_choices(sort_by: Option<Seq<char>>, sort_order: Option<Seq<char>>)
    ensures
        (order_column_spec(sort_by) == "i.size_bytes"@) <==> sort_by == Some("size"@),
        (order_column_spec(sort_by) == "i.filename"@) <==> sort_by == Some("name"@),
        (order_column_spec(sort_by) == "i.mtime"@) <==> (sort_by != Some("size"@) && sort_by
            != Some("name"@)),
        (order_direction_spec(sort_order) == "ASC"@) <==> sort_order == Some("asc"@),
        (order_direction_spec(sort_order) == "DESC"@) <==> sort_order != Some("asc"@),
{
    reveal_strlit("i.size_bytes");
    reveal_strlit("i.filename");
    reveal_strlit("i.mtime");
    reveal_strlit("size");
    reveal_strlit("name");
    reveal_strlit("ASC");
    reveal_strlit("DESC");
    assert("i.size_bytes"@ != "i.filename"@ && "i.size_bytes"@ != "i.mtime"@ && "i.filename"@
        != "i.mtime"@) by {
        assert("i.size_bytes"@[2] != "i.filename"@[2]);
        assert("i.size_bytes"@[2] != "i.mtime"@[2]);
        assert("i.filename"@[2] != "i.mtime"@[2]);
    }
    assert("size"@ != "name"@) by {
        assert("size"@[0] != "name"@[0]);
    }
    assert("ASC"@ != "DESC"@) by {
        assert("ASC"@[0] != "DESC"@[0]);
    }
}

/// The column images are sorted by.
pub fn order_column(sort_by: &Option<String>) -> (c: &'static str)
    ensures
        c@ == order_column_spec(opt_text(*sort_by)),
{
    proof {
        reveal_strlit("name");
        reveal_strlit("size");
    }
    match sort_by {
        Some(s) => {
            if text_eq(s.as_str(), "name") {
                "i.filename"
            } else if text_eq(s.as_str(), "size") {
                "i.size_bytes"
            } else {
                "i.mtime"
            }
        },
        None => "i.mtime",
    }
}

/// The sort direction of images.
pub fn order_direction(sort_order: &Option<String>) -> (d: &'static str)
    ensures
        d@ == order_direction_spec(opt_text(*sort_order)),
{
    proof {
        reveal_strlit("asc");
    }
    match sort_order {
        Some(s) => {
            if text_eq(s.as_str(), "asc") {
                "ASC"
            } else {
                "DESC"
            }
        },
        None => "DESC",
    }
}

/// The queries that list a page of images.
#[derive(Clone, Debug)]
pub struct ImageQuery {
    /// The query of the page's images; its parameters are `params`, then `limit` and `offset`.
    pub select_sql: String,
    /// The query counting every matching image; its parameters are `params`.
    pub count_sql: String,
    pub params: Vec<i32>,
    pub limit: u32,
    pub offset: u32,
}

/// The filter of an image listing: one board, or a set of boards (none when the set is empty),
/// or every image.
pub open spec fn image_filter_spec(board_id: Option<i32>, allowed: Option<Seq<i32>>) -> (
    Seq<char>,
    Seq<i32>,
) {
    match board_id {
        Some(b) => ("WHERE i.board_id = ?"@, seq![b]),
        None => match allowed {
            Some(ids) => ("WHERE i.board_id IN ("@ + placeholders_spec(ids.len()) + ")"@, ids),
            None => (Seq::empty(), Seq::empty()),
        },
    }
}

/// The value of an optional list of ids.
pub open spec fn opt_ids(o: Option<Vec<i32>>) -> Option<Seq<i32>> {
    match o {
        Some(v) => Some(v@),
        None => None,
    }
}

/// The listing is restricted to an empty set of boards.
pub open spec fn restricted_to_nothing(board_id: Option<i32>, allowed: Option<Seq<i32>>) -> bool {
    board_id is None && match allowed {
        Some(ids) => ids.len() == 0,
        None => false,
    }
}

/// The query listing boards, or none for an empty set of ids.
pub open spec fn boards_sql_spec(allowed: Option<Seq<i32>>) -> Option<Seq<char>> {
    match allowed {
        None => Some(board_columns() + " ORDER BY name ASC"@),
        Some(ids) => if ids.len() == 0 {
            None
        } else {
            Some(
                board_columns() + " WHERE id IN ("@ + placeholders_spec(ids.len()) + ")"@
                    + " ORDER BY name ASC"@,
            )
        },
    }
}

/// The columns of an image row, in the order `Image` lists its fields.
pub open spec fn image_columns() -> Seq<char> {
    "SELECT i.id, i.filename, i.path, i.board_id, b.name as board_name, i.thumb_path, i.thumbnail_status, i.width, i.height, i.size_bytes, i.mtime, i.created_at, i.is_missing FROM images i JOIN boards b ON i.board_id = b.id "@
}

/// The page query and the count query of an image listing, or none when the listing is
/// restricted to an empty set of boards.
///
/// Pages are numbered from 1: the page's offset is `(page - 1) * page_size`.
pub fn image_query(
    board_id: Option<i32>,
    allowed_board_ids: &Option<Vec<i32>>,
    page: u32,
    page_size: u32,
    sort_by: &Option<String>,
    sort_order: &Option<String>,
) -> (q: Option<ImageQuery>)
    requires
        page >= 1,
        (page - 1) * page_size <= u32::MAX,
    ensures
        restricted_to_nothing(board_id, opt_ids(*allowed_board_ids)) ==> q is None,
        !restricted_to_nothing(board_id, opt_ids(*allowed_board_ids)) ==> (
        q matches Some(q) && {
            let f = image_filter_spec(
                board_id,
                match allowed_board_ids {
                    Some(ids) => Some(ids@),
                    None => None,
                },
            );
            &&& q.params@ == f.1
            &&& q.limit == page_size
            &&& q.offset == (page - 1) * page_size
            &&& q.select_sql@ == image_columns() + f.0 + " ORDER BY "@ + order_column_spec(
                opt_text(*sort_by),
            ) + " "@ + order_direction_spec(opt_text(*sort_order)) + " LIMIT ? OFFSET ?"@
            &&& q.count_sql@ == "SELECT COUNT(*) FROM images i "@ + f.0
        }),
{
    let offset = (page - 1) * page_size;
    let (where_sql, params): (String, Vec<i32>) = match board_id {
        Some(b) => {
            let mut p: Vec<i32> = Vec::new();
            p.push(b);
            proof {
                assert(p@ =~= seq![b]);
            }
            ("WHERE i.board_id = ?".to_string(), p)
        },
        None => match allowed_board_ids {
            Some(ids) => {
                if ids.len() == 0 {
                    return None;
                }
                let mut w = "WHERE i.board_id IN (".to_string();
                let ph = placeholders(ids.len());
                w.append(ph.as_str());
                w.append(")");
                (w, ids.clone())
            },
            None => (String::new(), Vec::new()),
        },
    };
    let mut select_sql = "SELECT i.id, i.filename, i.path, i.board_id, b.name as board_name, i.thumb_path, i.thumbnail_status, i.width, i.height, i.size_bytes, i.mtime, i.created_at, i.is_missing FROM images i JOIN boards b ON i.board_id = b.id ".to_string();
    select_sql.append(where_sql.as_str());
    select_sql.append(" ORDER BY ");
    select_sql.append(order_column(sort_by));
    select_sql.append(" ");
    select_sql.append(order_direction(sort_order));
    select_sql.append(" LIMIT ? OFFSET ?");
    let mut count_sql = "SELECT COUNT(*) FROM images i ".to_string();
    count_sql.append(where_sql.as_str());
    proof {
        assert(params@ == image_filter_spec(
            board_id,
            match allowed_board_ids {
                Some(ids) => Some(ids@),
                None => None,
            },
        ).1);
    }
    Some(ImageQuery { select_sql, count_sql, params, limit: page_size, offset })
}

/// The query summing the count and size of the present images, restricted to the given boards
/// unless there are none.
pub fn storage_stats_sql(board_ids: &Vec<i32>) -> (sql: String)
    ensures
        board_ids@.len() == 0 ==> sql@
            == "SELECT COUNT(*), COALESCE(SUM(size_bytes), 0) FROM images WHERE is_missing = 0"@,
        board_ids@.len() > 0 ==> sql@
            == "SELECT COUNT(*), COALESCE(SUM(size_bytes), 0) FROM images WHERE is_missing = 0"@
            + " AND board_id IN ("@ + placeholders_spec(board_ids@.len()) + ")"@,
{
    let mut sql = "SELECT COUNT(*), COALESCE(SUM(size_bytes), 0) FROM images WHERE is_missing = 0".to_string();
    if board_ids.len() > 0 {
        sql.append(" AND board_id IN (");
        let ph = placeholders(board_ids.len());
        sql.append(ph.as_str());
        sql.append(")");
    }
    sql
}

/// The query listing boards by name, restricted to the given ids when some are given; none when
/// the given set is empty.
pub fn boards_sql(allowed_board_ids: &Option<Vec<i32>>) -> (sql: Option<String>)
    ensures
        opt_text(sql) == boards_sql_spec(opt_ids(*allowed_board_ids)),
{
    let mut sql = "SELECT id, name, path, cover_image, image_count, created_at, updated_at, is_missing FROM boards".to_string();
    match allowed_board_ids {
        Some(ids) => {
            if ids.len() == 0 {
                return None;
            }
            sql.append(" WHERE id IN (");
            let ph = placeholders(ids.len());
            sql.append(ph.as_str());
            sql.append(")");
        },
        None => {},
    }
    sql.append(" ORDER BY name ASC");
    Some(sql)
}

/// Whether a path (normalized) lies in one of the workspace roots (normalized): it is a root, or
/// it starts with a root and `/`.
pub open spec fn within_roots(path: Seq<char>, roots: Seq<Seq<char>>) -> bool {
    exists|i: int|
        0 <= i < roots.len() && (path == #[trigger] roots[i] || has_prefix(path, roots[i] + seq!['/']))
}

/// Whether `path` lies in one of `roots`; both are given normalized.
pub fn is_within_roots(path: &str, roots: &Vec<String>) -> (r: bool)
    ensures
        r == within_roots(path@, roots@.map_values(|s: String| s@)),
{
    let ghost rv = roots@.map_values(|s: String| s@);
    let mut i: usize = 0;
    while i < roots.len()
        invariant
            i <= roots@.len(),
            rv == roots@.map_values(|s: String| s@),
            forall|k: int|
                0 <= k < i ==> !(path@ == #[trigger] rv[k] || has_prefix(path@, rv[k] + seq!['/'])),
        decreases roots@.len() - i,
    {
        let mut dir = copy_string(&roots[i]);
        dir.push('/');
        assert(rv[i as int] == roots@[i as int]@);
        assert(dir@ =~= rv[i as int] + seq!['/']);
        if text_eq(path, roots[i].as_str()) || starts_with(path, dir.as_str()) {
            assert(path@ == rv[i as int] || has_prefix(path@, rv[i as int] + seq!['/']));
            return true;
        }
        i = i + 1;
    }
    false
}

/// What opening a file in the system's file manager does: on Windows, the path to select (its
/// `/` turned into `\`) when it lies in a workspace root, else an access error; elsewhere an
/// error, as only Windows is served.
pub fn explorer_target(normalized_path: &str, normalized_roots: &Vec<String>, windows: bool) -> (r:
    Result<String, crate::error::AppError>)
    ensures
        !windows ==> (r matches Err(crate::error::AppError::WorkspaceError(m)) && m@
            == "Only supported on Windows"@),
        windows && !within_roots(normalized_path@, normalized_roots@.map_values(|s: String| s@))
            ==> (r matches Err(crate::error::AppError::WorkspaceError(m)) && m@
            == "Access denied: File is outside of workspace roots"@),
        windows && within_roots(normalized_path@, normalized_roots@.map_values(|s: String| s@))
            ==> (r matches Ok(p) && p@ == replace_char_spec(normalized_path@, '/', '\\')),
{
    if !windows {
        return Err(crate::error::AppError::WorkspaceError("Only supported on Windows".to_string()));
    }
    if !is_within_roots(normalized_path, normalized_roots) {
        return Err(
            crate::error::AppError::WorkspaceError(
                "Access denied: File is outside of workspace roots".to_string(),
            ),
        );
    }
    Ok(replace_char(normalized_path, '/', '\\'))
}

/// The images as shown, each cleaned as `Image::clean` does, in order.
pub fn clean_images(images: Vec<Image>, local_data_dir: &Option<String>) -> (r: Vec<Image>)
    ensures
        r@.len() == images@.len(),
        forall|i: int|
            0 <= i < r@.len() ==> opt_text(#[trigger] r@[i].thumb_path) == cleaned_thumb(
                images@[i].thumbnail_status@,
                opt_text(images@[i].thumb_path),
                opt_text(*local_data_dir),
            ) && r@[i].id == images@[i].id && r@[i].path == images@[i].path
                && r@[i].thumbnail_status == images@[i].thumbnail_status,
{
    let mut r: Vec<Image> = Vec::new();
    let mut src = images;
    let ghost orig = src@;
    let mut i: usize = 0;
    let n = src.len();
    while i < n
        invariant
            n == orig.len(),
            i <= n,
            src@ == orig,
            r@.len() == i,
            forall|k: int|
                0 <= k < i ==> opt_text(#[trigger] r@[k].thumb_path) == cleaned_thumb(
                    orig[k].thumbnail_status@,
                    opt_text(orig[k].thumb_path),
                    opt_text(*local_data_dir),
                ) && r@[k].id == orig[k].id && r@[k].path == orig[k].path
                    && r@[k].thumbnail_status == orig[k].thumbnail_status,
        decreases n - i,
    {
        let img = src[i].clone_image();
        r.push(img.clean(local_data_dir));
        i = i + 1;
    }
    r
}

impl Image {
    /// A copy of the image.
    pub fn clone_image(&self) -> (c: Image)
        ensures
            c.id == self.id,
            c.filename@ == self.filename@,
            c.path == self.path,
            c.board_id == self.board_id,
            c.board_name@ == self.board_name@,
            c.thumb_path == self.thumb_path,
            c.thumbnail_status == self.thumbnail_status,
            c.width == self.width,
            c.height == self.height,
            c.size_bytes == self.size_bytes,
            c.mtime == self.mtime,
            c.created_at == self.created_at,
            c.is_missing == self.is_missing,
    {
        Image {
            id: self.id,
            filename: self.filename.clone(),
            path: self.path.clone(),
            board_id: self.board_id,
            board_name: self.board_name.clone(),
            thumb_path: self.thumb_path.clone(),
            thumbnail_status: self.thumbnail_status.clone(),
            width: self.width,
            height: self.height,
            size_bytes: self.size_bytes,
            mtime: self.mtime,
            created_at: self.created_at,
            is_missing: self.is_missing,
        }
    }
}

/// The columns of a board row, in the order `Board` lists its fields.
pub open spec fn board_columns() -> Seq<char> {
    "SELECT id, name, path, cover_image, image_count, created_at, updated_at, is_missing FROM boards"@
}

} // verus!
