//! Thumbnail generation: where a thumbnail is written and recorded, and the progress of a
//! generation session.
use vstd::prelude::*;
use crate::path_utils::{
    camino_file_name, ends_in_component, is_file_name_of, is_plain_component, join_components,
    last_index_of, opt_text, path_components, simple_components, simple_path,
};
use crate::text::{contains_text, has_prefix, replace_char, replace_char_spec};

verus! {

/// What `Path::strip_prefix` gives for two paths written with `/` alone (see `simple_path`):
/// when the base's components begin the path's, the path's remaining components joined by `/`
/// (the whole path for a base without components); otherwise nothing.
pub open spec fn simple_strip_prefix(
    r1: bool,
    c1: Seq<Seq<char>>,
    r2: bool,
    c2: Seq<Seq<char>>,
) -> Option<Seq<char>> {
    let pc = path_components(r1, c1);
    let bc = path_components(r2, c2);
    if bc.is_prefix_of(pc) {
        if bc.len() == 0 {
            Some(simple_path(r1, c1))
        } else {
            Some(join_components(pc.skip(bc.len() as int)))
        }
    } else {
        None
    }
}

/// What holds of `Path::strip_prefix` on every platform: a result is a part of the path; a
/// path stripped of itself leaves nothing; and for paths written with `/` alone the result is
/// `simple_strip_prefix`.
pub open spec fn strip_prefix_facts(path: Seq<char>, base: Seq<char>, r: Option<Seq<char>>) -> bool {
    &&& (r matches Some(rel) ==> contains_text(path, rel))
    &&& path == base ==> r == Some(Seq::<char>::empty())
    &&& forall|r1: bool, c1: Seq<Seq<char>>, r2: bool, c2: Seq<Seq<char>>|
        #![trigger simple_path(r1, c1), simple_path(r2, c2)]
        simple_components(c1) && simple_components(c2) && path == simple_path(r1, c1) && base
            == simple_path(r2, c2) ==> r == simple_strip_prefix(r1, c1, r2, c2)
}

/// Calls `camino::Utf8Path::strip_prefix`: the path below `base`, compared by whole
/// components. How a path splits into components depends on the platform's separators and
/// prefixes; what is stated is what holds on every platform (`strip_prefix_facts`). Other
/// answers are not stated.
#[verifier::external_body]
fn camino_strip_prefix(path: &str, base: &str) -> (r: Option<String>)
    ensures
        strip_prefix_facts(path@, base@, opt_text(r)),
{
    camino::Utf8Path::new(path).strip_prefix(base).ok().map(|p| p.as_str().to_string())
}

/// `s` ends with `suffix`.
pub open spec fn has_suffix(s: Seq<char>, suffix: Seq<char>) -> bool {
    suffix.len() <= s.len() && s.skip(s.len() - suffix.len()) == suffix
}

/// The stem of a file name as `Path::file_stem` documents it: the whole name when it has no
/// `.` or its only `.` is the first character; otherwise what comes before the last `.`.
pub open spec fn file_stem_text(n: Seq<char>) -> Seq<char> {
    let k = last_index_of(n, '.');
    if k <= 0 {
        n
    } else {
        n.take(k)
    }
}

/// Calls `camino::Utf8Path::with_extension` with `webp`: the path with its final component's
/// stem followed by `.webp`. Where the final component begins depends on the platform's
/// separators; what is stated is that the path comes back unchanged (when it has no file name)
/// or ends in `.webp`, and exactly what comes back for a plain component, or for a path that
/// ends in one after a `/` (see `ends_in_component`).
#[verifier::external_body]
fn camino_with_webp_extension(path: &str) -> (r: String)
    ensures
        r@ == path@ || has_suffix(r@, ".webp"@),
        is_plain_component(path@) ==> r@ == file_stem_text(path@) + ".webp"@,
        forall|q: Seq<char>, n: Seq<char>| #[trigger] ends_in_component(path@, q, n) ==> r@ == q
            + seq!['/'] + file_stem_text(n) + ".webp"@,
{
    camino::Utf8Path::new(path).with_extension("webp").into_string()
}

/// What holds of `Path::starts_with` on every platform: a path starts with itself; a path
/// whose text is a plain component (see `is_plain_component`) followed by `/` starts with that
/// component; two different plain components do not start with each other; and for paths
/// written with `/` alone (see `simple_path`) the answer is whether the base's components begin
/// the path's.
pub open spec fn starts_with_facts(path: Seq<char>, base: Seq<char>, r: bool) -> bool {
    &&& path == base ==> r
    &&& is_plain_component(base) && has_prefix(path, base + seq!['/']) ==> r
    &&& is_plain_component(base) && is_plain_component(path) && path != base ==> !r
    &&& forall|r1: bool, c1: Seq<Seq<char>>, r2: bool, c2: Seq<Seq<char>>|
        #![trigger simple_path(r1, c1), simple_path(r2, c2)]
        simple_components(c1) && simple_components(c2) && path == simple_path(r1, c1) && base
            == simple_path(r2, c2) ==> (r <==> path_components(r2, c2).is_prefix_of(
            path_components(r1, c1),
        ))
}

/// Calls `camino::Utf8Path::starts_with`, which compares the whole components of the two paths
/// (`std::path::Path::starts_with`). How a path splits into components depends on the
/// platform's separators and prefixes; what is stated is what holds on every platform
/// (`starts_with_facts`), which fixes the answer for paths written with `/` alone. Other answers
/// are not stated.
#[verifier::external_body]
fn camino_starts_with(path: &str, base: &str) -> (r: bool)
    ensures
        starts_with_facts(path@, base@, r),
{
    camino::Utf8Path::new(path).starts_with(base)
}

/// Where a thumbnail goes: the source path relative to its board, that path with the `webp`
/// extension, and the thumbnail's path as recorded (relative to the local data directory).
#[derive(Clone, Debug)]
pub struct ThumbnailTarget {
    pub rel: String,
    pub rel_webp: String,
    pub thumb_path: String,
}

/// The recorded path of a thumbnail: `cache/thumbnails/<board id>/<relative path>`, with `\`
/// turned into `/`.
pub open spec fn thumb_path_text(board_folder_id: Seq<char>, rel_webp: Seq<char>) -> Seq<char> {
    "cache/thumbnails/"@ + board_folder_id + seq!['/'] + replace_char_spec(rel_webp, '\\', '/')
}

/// The recorded path of a thumbnail for a relative path that already has the `webp` extension.
pub fn thumb_path_for(board_folder_id: &str, rel_webp: &str) -> (p: String)
    ensures
        p@ == thumb_path_text(board_folder_id@, rel_webp@),
{
    let mut p = "cache/thumbnails/".to_string();
    p.append(board_folder_id);
    p.push('/');
    let r = replace_char(rel_webp, '\\', '/');
    p.append(r.as_str());
    p
}

/// The path of an image relative to its board: the path below the board when there is one, else
/// the image's file name, else nothing.
pub open spec fn thumbnail_rel_spec(stripped: Option<Seq<char>>, file_name: Option<Seq<char>>) -> Seq<
    char,
> {
    match stripped {
        Some(r) => r,
        None => match file_name {
            Some(n) => n,
            None => Seq::empty(),
        },
    }
}

/// Chooses the path of an image relative to its board, from the path below the board (if the
/// image is below it) and the image's file name.
pub fn thumbnail_rel(stripped: Option<String>, file_name: Option<String>) -> (rel: String)
    ensures
        rel@ == thumbnail_rel_spec(opt_text(stripped), opt_text(file_name)),
{
    match stripped {
        Some(r) => r,
        None => match file_name {
            Some(n) => n,
            None => String::new(),
        },
    }
}

/// Where the thumbnail of an image goes: the image's path below its board (its file name when it
/// is not below it, or nothing), with the `webp` extension, recorded under the board's folder id.
/// The relative path is the choice of `thumbnail_rel` between what `strip_prefix` and
/// `file_name` gave for the image.
pub fn plan_thumbnail(img_path: &str, board_path: &str, board_folder_id: &str) -> (t: ThumbnailTarget)
    ensures
        exists|stripped: Option<Seq<char>>, name: Option<Seq<char>>|
            strip_prefix_facts(img_path@, board_path@, stripped) && is_file_name_of(
                img_path@,
                name,
            ) && t.rel@ == thumbnail_rel_spec(stripped, name),
        t.rel_webp@ == t.rel@ || has_suffix(t.rel_webp@, ".webp"@),
        t.thumb_path@ == thumb_path_text(board_folder_id@, t.rel_webp@),
{
    let stripped = camino_strip_prefix(img_path, board_path);
    let name = camino_file_name(img_path);
    let rel = thumbnail_rel(stripped, name);
    let rel_webp = camino_with_webp_extension(rel.as_str());
    let thumb_path = thumb_path_for(board_folder_id, rel_webp.as_str());
    ThumbnailTarget { rel, rel_webp, thumb_path }
}

/// Whether a thumbnail's destination stays inside the board's thumbnail directory (compared by
/// whole components); a destination outside it is refused. For paths written with `/` alone the
/// answer is whether the root's components begin the destination's.
pub fn destination_allowed(dest_file: &str, dest_root: &str) -> (r: bool)
    ensures
        starts_with_facts(dest_file@, dest_root@, r),
{
    camino_starts_with(dest_file, dest_root)
}

/// The outcome of one thumbnail: its size when it was written, else a failure.
#[derive(Clone, Debug)]
pub enum ThumbnailResult {
    Ready { id: i32, thumb_path: String, width: u32, height: u32 },
    Failed { id: i32 },
}

/// How a generation session moves on after a batch was fetched.
#[derive(Clone, Copy, Debug, PartialEq, Eq, Structural)]
pub enum BatchStep {
    /// No pending image is left: the session ends, and the task is marked completed when this
    /// session processed images.
    Finish { completed: bool },
    /// Process the batch.
    Process,
}

/// The progress of a thumbnail session: the thumbnails ready before it started, the total to
/// reach, how many images this session took, and whether the counts were read.
#[derive(Clone, Copy, Debug)]
pub struct ThumbnailSession {
    pub done_in_db: i64,
    pub total_in_db: i64,
    pub processed: i64,
    pub started: bool,
}

impl ThumbnailSession {
    /// A session before its first round: nothing counted, nothing processed.
    pub fn new() -> (s: ThumbnailSession)
        ensures
            s.done_in_db == 0 && s.total_in_db == 0 && s.processed == 0 && !s.started,
    {
        ThumbnailSession { done_in_db: 0, total_in_db: 0, processed: 0, started: false }
    }

    /// Starts the session from the counts of ready and of remaining (pending or generating)
    /// thumbnails; returns the progress to report, when something remains to be done.
    pub fn start(&mut self, ready: i64, remaining: i64) -> (report: Option<(i64, i64)>)
        requires
            !old(self).started,
            i64::MIN <= ready + remaining <= i64::MAX,
        ensures
            final(self).started,
            final(self).done_in_db == ready,
            final(self).total_in_db == ready + remaining,
            final(self).processed == old(self).processed,
            (ready + remaining > ready) ==> report == Some((ready, (ready + remaining) as i64)),
            !(ready + remaining > ready) ==> report is None,
    {
        self.done_in_db = ready;
        self.total_in_db = ready + remaining;
        self.started = true;
        if self.total_in_db > self.done_in_db {
            Some((self.done_in_db, self.total_in_db))
        } else {
            None
        }
    }

    /// The progress to report on a later round: the thumbnails ready before the session and
    /// those taken since, of the total; none when there was nothing to do.
    pub fn progress(&self) -> (report: Option<(i64, i64)>)
        requires
            self.started,
            i64::MIN <= self.done_in_db + self.processed <= i64::MAX,
        ensures
            self.total_in_db > 0 ==> report == Some(
                ((self.done_in_db + self.processed) as i64, self.total_in_db),
            ),
            self.total_in_db <= 0 ==> report is None,
    {
        if self.total_in_db > 0 {
            Some((self.done_in_db + self.processed, self.total_in_db))
        } else {
            None
        }
    }

    /// Takes a fetched batch of `len` pending images: an empty batch ends the session
    /// (completed when this session processed images); otherwise the batch is counted and
    /// processed.
    pub fn on_batch(&mut self, len: usize) -> (step: BatchStep)
        requires
            old(self).processed + len <= i64::MAX,
            old(self).processed >= 0,
        ensures
            len == 0 ==> step == (BatchStep::Finish { completed: old(self).processed > 0 })
                && *final(self) == *old(self),
            len > 0 ==> step == BatchStep::Process && final(self).processed == old(self).processed
                + len && final(self).done_in_db == old(self).done_in_db && final(self).total_in_db
                == old(self).total_in_db && final(self).started == old(self).started,
    {
        if len == 0 {
            BatchStep::Finish { completed: self.processed > 0 }
        } else {
            self.processed = self.processed + len as i64;
            BatchStep::Process
        }
    }
}

} // verus!
