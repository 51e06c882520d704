//! Paths of workspace folders and images: normalized keys, stable folder ids, image detection.
use vstd::prelude::*;
use crate::text::{chars_of, contains_text, has_prefix, replace_char, replace_char_spec};

verus! {

/// What `str::to_lowercase` returns for a text (Unicode lowercase mapping).
pub uninterp spec fn spec_to_lowercase(s: Seq<char>) -> Seq<char>;

/// Whether every character of the text is ASCII.
pub open spec fn is_ascii_text(s: Seq<char>) -> bool {
    forall|i: int| 0 <= i < s.len() ==> (#[trigger] s[i] as u32) < 128
}

/// The ASCII lowercase form of a character: `A`..`Z` become `a`..`z`, others stay.
pub open spec fn ascii_lower_char(c: char) -> char {
    if 65 <= (c as u32) <= 90 {
        ((c as u32) + 32) as char
    } else {
        c
    }
}

/// The ASCII lowercase form of a text.
pub open spec fn ascii_lower(s: Seq<char>) -> Seq<char> {
    s.map_values(|c: char| ascii_lower_char(c))
}

/// The lowercase form of a text, as `str::to_lowercase` gives it: for ASCII text its ASCII
/// lowercase form, otherwise the Unicode mapping (named, not written out).
pub open spec fn lowercase_text(s: Seq<char>) -> Seq<char> {
    if is_ascii_text(s) {
        ascii_lower(s)
    } else {
        spec_to_lowercase(s)
    }
}

/// `str::to_lowercase` returns the Unicode lowercase form of the text (its Lowercase mapping),
/// a function of the text alone. For ASCII text that mapping turns `A`..`Z` into `a`..`z` and
/// keeps every other character; the rest of the mapping is not written out here.
pub assume_specification[ str::to_lowercase ](s: &str) -> (r: String)
    ensures
        r@ == spec_to_lowercase(s@),
        is_ascii_text(s@) ==> r@ == ascii_lower(s@),
;

/// What `char::is_alphanumeric` answers for a character (Unicode Alphabetic or Numeric).
pub uninterp spec fn spec_is_alphanumeric(c: char) -> bool;

/// Whether an ASCII character is a letter or a digit.
pub open spec fn is_ascii_alnum(c: char) -> bool {
    let u = c as u32;
    (48 <= u <= 57) || (65 <= u <= 90) || (97 <= u <= 122)
}

/// Whether a character is alphanumeric, as `char::is_alphanumeric` answers: for ASCII, the
/// letters and digits; otherwise Unicode's Alphabetic and Numeric properties (named, not written
/// out).
pub open spec fn alphanumeric(c: char) -> bool {
    if (c as u32) < 128 {
        is_ascii_alnum(c)
    } else {
        spec_is_alphanumeric(c)
    }
}

/// `char::is_alphanumeric` answers whether the character is Unicode Alphabetic or Numeric, a
/// function of the character alone. Among ASCII characters exactly the letters and the digits
/// have those properties; the Unicode tables are not written out here.
pub assume_specification[ char::is_alphanumeric ](c: char) -> (r: bool)
    ensures
        r == spec_is_alphanumeric(c),
        (c as u32) < 128 ==> (r <==> is_ascii_alnum(c)),
;

/// The 64-bit XXH3 hash of a byte string.
pub uninterp spec fn spec_xxh3_64(data: Seq<u8>) -> u64;

/// Calls `xxhash_rust::xxh3::xxh3_64`, the XXH3 hash with the default seed and secret; its result
/// is a function of the bytes alone, named here and not written out.
#[verifier::external_body]
fn xxh3_64(data: &[u8]) -> (h: u64)
    ensures
        h == spec_xxh3_64(data@),
{
    xxhash_rust::xxh3::xxh3_64(data)
}

/// The Windows verbatim prefix `\\?\`.
pub open spec fn verbatim_prefix() -> Seq<char> {
    seq!['\\', '\\', '?', '\\']
}

/// Calls `dunce::simplified`. On Windows it strips the verbatim prefix `\\?\` from a path
/// when that is safe; elsewhere, and when it is not safe, it returns the path unchanged. Which
/// of the two happens depends on the platform and on Windows' naming rules; only that the
/// result is one of them is stated.
#[verifier::external_body]
fn dunce_simplified(path: &str) -> (r: String)
    ensures
        r@ == path@ || (has_prefix(path@, verbatim_prefix()) && r@ == path@.skip(4)),
{
    dunce::simplified(std::path::Path::new(path)).to_string_lossy().into_owned()
}

/// A text that is a single path component on every platform: not empty, no separator, no
/// drive colon, not `.` or `..`.
pub open spec fn is_plain_component(p: Seq<char>) -> bool {
    &&& p.len() > 0
    &&& !p.contains('/')
    &&& !p.contains('\\')
    &&& !p.contains(':')
    &&& p != seq!['.']
    &&& p != seq!['.', '.']
}

/// `path` is `q`, a `/` and the plain component `n`, where `q` holds no `\` or `:` and the
/// path does not begin with `//`. No platform then reads a prefix in the path, `/` separates
/// components everywhere, and the final component is `n`.
pub open spec fn ends_in_component(path: Seq<char>, q: Seq<char>, n: Seq<char>) -> bool {
    &&& is_plain_component(n)
    &&& !q.contains('\\')
    &&& !q.contains(':')
    &&& path == q + seq!['/'] + n
    &&& !has_prefix(path, seq!['/', '/'])
}

/// What holds of the final component that `Path::file_name` gives on every platform.
pub open spec fn is_file_name_of(path: Seq<char>, name: Option<Seq<char>>) -> bool {
    &&& (name matches Some(n) ==> n.len() > 0 && n != seq!['.'] && n != seq!['.', '.']
        && contains_text(path, n))
    &&& (is_plain_component(path) ==> name == Some(path))
    &&& forall|q: Seq<char>, n: Seq<char>| #[trigger] ends_in_component(path, q, n) ==> name == Some(
        n,
    )
}

/// A component of a path written with `/` alone: not empty, without `/`, `\` or `:`, and not
/// `.` (`..` is one, the parent).
pub open spec fn is_simple_component(c: Seq<char>) -> bool {
    &&& c.len() > 0
    &&& !c.contains('/')
    &&& !c.contains('\\')
    &&& !c.contains(':')
    &&& c != seq!['.']
}

/// Every one of the components is simple.
pub open spec fn simple_components(cs: Seq<Seq<char>>) -> bool {
    forall|i: int| 0 <= i < cs.len() ==> is_simple_component(#[trigger] cs[i])
}

/// The components joined by single `/`.
pub open spec fn join_components(cs: Seq<Seq<char>>) -> Seq<char>
    decreases cs.len(),
{
    if cs.len() == 0 {
        Seq::empty()
    } else if cs.len() == 1 {
        cs[0]
    } else {
        join_components(cs.drop_last()) + seq!['/'] + cs.last()
    }
}

/// The path written with `/` alone: a leading `/` when it is rooted, then the components.
pub open spec fn simple_path(rooted: bool, cs: Seq<Seq<char>>) -> Seq<char> {
    if rooted {
        seq!['/'] + join_components(cs)
    } else {
        join_components(cs)
    }
}

/// The components such a path splits into on every platform: the root (written `/`) when it is
/// rooted, then its components.
pub open spec fn path_components(rooted: bool, cs: Seq<Seq<char>>) -> Seq<Seq<char>> {
    if rooted {
        seq![seq!['/']] + cs
    } else {
        cs
    }
}

/// Calls `std::path::Path::file_name` (and `OsStr::to_str`, always defined on a `&str` path).
/// The final component's exact form depends on the platform's separators and prefixes (in a
/// Windows verbatim path `/` is no separator); what is stated holds on every platform: a name
/// is non-empty, is not `.` or `..`, occurs in the path, and a path that is a single plain
/// component is its own name.
#[verifier::external_body]
fn std_file_name(path: &str) -> (r: Option<String>)
    ensures
        is_file_name_of(path@, opt_text(r)),
{
    std::path::Path::new(path).file_name().and_then(|s| s.to_str()).map(|s| s.to_string())
}

/// The final component of a path, as `std::path::Path::file_name` gives it.
pub fn path_file_name(path: &str) -> (r: Option<String>)
    ensures
        is_file_name_of(path@, opt_text(r)),
{
    std_file_name(path)
}

/// Calls `camino::Utf8Path::file_name` (which reads the final component as
/// `std::path::Path::file_name` does); the same platform-independent facts are stated.
#[verifier::external_body]
pub(crate) fn camino_file_name(path: &str) -> (r: Option<String>)
    ensures
        is_file_name_of(path@, opt_text(r)),
{
    camino::Utf8Path::new(path).file_name().map(|s| s.to_string())
}

/// The text of an optional string.
pub open spec fn opt_text(o: Option<String>) -> Option<Seq<char>> {
    match o {
        Some(s) => Some(s@),
        None => None,
    }
}

/// The normalized form of an already simplified path: lowercase, with `\` turned into `/`.
pub open spec fn normalized_text(p: Seq<char>) -> Seq<char> {
    replace_char_spec(lowercase_text(p), '\\', '/')
}

/// `res` is a normalization of `path`: of the path itself, or of the path without its verbatim
/// prefix.
pub open spec fn is_normalization(path: Seq<char>, res: Seq<char>) -> bool {
    res == normalized_text(path) || (has_prefix(path, verbatim_prefix()) && res == normalized_text(
        path.skip(4),
    ))
}

/// The characters of `s` that are alphanumeric.
pub open spec fn alnum_filter(s: Seq<char>) -> Seq<char> {
    s.filter(|c: char| alphanumeric(c))
}

/// The name part of a folder id: the alphanumeric characters of the folder's name, or of
/// "folder" when it has none.
pub open spec fn sanitized_text(name: Option<Seq<char>>) -> Seq<char> {
    alnum_filter(
        match name {
            Some(n) => n,
            None => "folder"@,
        },
    )
}

/// The lowercase hexadecimal digit of `d < 16`.
pub open spec fn hex_digit_spec(d: nat) -> char {
    if d == 0 {
        '0'
    } else if d == 1 {
        '1'
    } else if d == 2 {
        '2'
    } else if d == 3 {
        '3'
    } else if d == 4 {
        '4'
    } else if d == 5 {
        '5'
    } else if d == 6 {
        '6'
    } else if d == 7 {
        '7'
    } else if d == 8 {
        '8'
    } else if d == 9 {
        '9'
    } else if d == 10 {
        'a'
    } else if d == 11 {
        'b'
    } else if d == 12 {
        'c'
    } else if d == 13 {
        'd'
    } else if d == 14 {
        'e'
    } else {
        'f'
    }
}

/// `n` in lowercase hexadecimal, without leading zeros ("0" for zero).
pub open spec fn hex_text(n: nat) -> Seq<char>
    decreases n,
{
    if n < 16 {
        seq![hex_digit_spec(n)]
    } else {
        hex_text(n / 16).push(hex_digit_spec(n % 16))
    }
}

/// The folder id built from a sanitized name and a hash: the name ("folder" when it is empty),
/// an underscore, and the hash in lowercase hexadecimal.
pub open spec fn folder_id_text(name: Seq<char>, hash: u64) -> Seq<char> {
    (if name.len() == 0 {
        "folder"@
    } else {
        name
    }) + seq!['_'] + hex_text(hash as nat)
}

/// The index of the last `c` in `s`, or -1.
pub open spec fn last_index_of(s: Seq<char>, c: char) -> int
    decreases s.len(),
{
    if s.len() == 0 {
        -1
    } else if s.last() == c {
        s.len() - 1
    } else {
        last_index_of(s.drop_last(), c)
    }
}

/// The extension of a file name as `Path::extension` documents it: none when there is no
/// `.`, or when the only `.` is the first character; otherwise what follows the last `.`.
pub open spec fn extension_of(name: Seq<char>) -> Option<Seq<char>> {
    let k = last_index_of(name, '.');
    if k <= 0 {
        None
    } else {
        Some(name.skip(k + 1))
    }
}

/// The lowercase extensions of supported image formats.
pub open spec fn is_image_ext(e: Seq<char>) -> bool {
    ||| e == "jpg"@
    ||| e == "jpeg"@
    ||| e == "png"@
    ||| e == "webp"@
    ||| e == "gif"@
    ||| e == "bmp"@
    ||| e == "tiff"@
}

/// The last `c` of `a`, `c` and `t` is the one after `a` when `t` holds no `c`.
proof fn lemma_last_index_before_suffix(a: Seq<char>, c: char, t: Seq<char>)
    requires
        !t.contains(c),
    ensures
        last_index_of(a.push(c) + t, c) == a.len(),
    decreases t.len(),
{
    if t.len() == 0 {
        assert(a.push(c) + t =~= a.push(c));
    } else {
        let s = a.push(c) + t;
        assert(s.drop_last() =~= a.push(c) + t.drop_last());
        assert(t.last() == t[t.len() - 1]);
        assert(s.last() != c);
        assert(!t.drop_last().contains(c)) by {
            if t.drop_last().contains(c) {
                let k = choose|k: int| 0 <= k < t.drop_last().len() && t.drop_last()[k] == c;
                assert(t[k] == c);
            }
        }
        lemma_last_index_before_suffix(a, c, t.drop_last());
    }
}

/// A file whose name is a non-empty stem, a `.` and an ASCII extension without `.` is an image
/// exactly when the extension, in any case, is `jpg`, `jpeg`, `png`, `webp`, `gif`, `bmp` or
/// `tiff`.
pub proof fn lemma_image_extensions(stem: Seq<char>, ext: Seq<char>)
    requires
        stem.len() > 0,
        !ext.contains('.'),
        is_ascii_text(ext),
    ensures
        is_image_name_spec(Some(stem + seq!['.'] + ext)) <==> (ascii_lower(ext) == "jpg"@
            || ascii_lower(ext) == "jpeg"@ || ascii_lower(ext) == "png"@ || ascii_lower(ext)
            == "webp"@ || ascii_lower(ext) == "gif"@ || ascii_lower(ext) == "bmp"@ || ascii_lower(
            ext,
        ) == "tiff"@),
{
    let n = stem + seq!['.'] + ext;
    assert(n =~= stem.push('.') + ext);
    lemma_last_index_before_suffix(stem, '.', ext);
    assert(n.skip(stem.len() as int + 1) =~= ext);
    assert(extension_of(n) == Some(ext));
    assert(lowercase_text(ext) == ascii_lower(ext));
}

/// Whether a file with this name (if it has one) is an image: its extension, lowercased, is a
/// supported one.
pub open spec fn is_image_name_spec(name: Option<Seq<char>>) -> bool {
    let ext = match name {
        Some(n) => match extension_of(n) {
            Some(e) => e,
            None => Seq::<char>::empty(),
        },
        None => Seq::<char>::empty(),
    };
    is_image_ext(lowercase_text(ext))
}

pub(crate) fn hex_digit(d: u64) -> (c: char)
    requires
        d < 16,
    ensures
        c == hex_digit_spec(d as nat),
{
    if d == 0 {
        '0'
    } else if d == 1 {
        '1'
    } else if d == 2 {
        '2'
    } else if d == 3 {
        '3'
    } else if d == 4 {
        '4'
    } else if d == 5 {
        '5'
    } else if d == 6 {
        '6'
    } else if d == 7 {
        '7'
    } else if d == 8 {
        '8'
    } else if d == 9 {
        '9'
    } else if d == 10 {
        'a'
    } else if d == 11 {
        'b'
    } else if d == 12 {
        'c'
    } else if d == 13 {
        'd'
    } else if d == 14 {
        'e'
    } else {
        'f'
    }
}

/// Appends `n` in lowercase hexadecimal to `out`.
fn push_hex(n: u64, out: &mut String)
    ensures
        final(out)@ == old(out)@ + hex_text(n as nat),
    decreases n,
{
    if n >= 16 {
        push_hex(n / 16, out);
        let ghost mid = out@;
        out.push(hex_digit(n % 16));
        assert(out@ =~= old(out)@ + hex_text(n as nat));
    } else {
        out.push(hex_digit(n));
        assert(out@ =~= old(out)@ + hex_text(n as nat));
    }
}

/// `n` in lowercase hexadecimal, as `format!("{:x}", n)` writes it.
pub fn to_lower_hex(n: u64) -> (s: String)
    ensures
        s@ == hex_text(n as nat),
{
    let mut s = String::new();
    push_hex(n, &mut s);
    assert(s@ =~= hex_text(n as nat));
    s
}

/// The alphanumeric characters of `s`, in order.
pub fn filter_alphanumeric(s: &str) -> (r: String)
    ensures
        r@ == alnum_filter(s@),
{
    let v = chars_of(s);
    let mut out = String::new();
    let mut i: usize = 0;
    while i < v.len()
        invariant
            i <= v.len(),
            v@ == s@,
            out@ == alnum_filter(v@.take(i as int)),
        decreases v.len() - i,
    {
        let c = v[i];
        proof {
            assert(v@.take(i + 1) == v@.take(i as int).push(c));
            v@.take(i as int).lemma_filter_push(c, |c: char| alphanumeric(c));
        }
        if c.is_alphanumeric() {
            out.push(c);
        }
        i = i + 1;
    }
    assert(v@.take(v.len() as int) == v@);
    out
}

/// The index of the last `c` in `v`, if any.
fn last_index(v: &Vec<char>, c: char) -> (r: Option<usize>)
    ensures
        r is None ==> last_index_of(v@, c) == -1,
        r matches Some(k) ==> last_index_of(v@, c) == k as int && k < v.len(),
{
    let mut i: usize = v.len();
    assert(v@.take(v.len() as int) == v@);
    while i > 0
        invariant
            i <= v.len(),
            last_index_of(v@, c) == last_index_of(v@.take(i as int), c),
        decreases i,
    {
        let ghost t = v@.take(i as int);
        assert(t.drop_last() == v@.take(i - 1));
        if v[i - 1] == c {
            return Some(i - 1);
        }
        i = i - 1;
    }
    assert(v@.take(0) =~= Seq::<char>::empty());
    None
}

/// The extension of a file name, as `Path::extension` documents it.
pub fn file_extension(name: &str) -> (r: Option<String>)
    ensures
        opt_text(r) == extension_of(name@),
{
    let v = chars_of(name);
    match last_index(&v, '.') {
        None => None,
        Some(k) => {
            if k == 0 {
                None
            } else {
                let mut out = String::new();
                let mut i: usize = k + 1;
                while i < v.len()
                    invariant
                        k < v.len(),
                        k + 1 <= i <= v.len(),
                        out@ == v@.subrange(k + 1, i as int),
                    decreases v.len() - i,
                {
                    out.push(v[i]);
                    assert(out@ =~= v@.subrange(k + 1, i + 1));
                    i = i + 1;
                }
                assert(v@.subrange(k + 1, v.len() as int) =~= name@.skip(k + 1));
                Some(out)
            }
        },
    }
}

/// Whether the lowercase form of `ext` is a supported image extension.
fn is_image_extension(ext: &str) -> (r: bool)
    ensures
        r == is_image_ext(lowercase_text(ext@)),
{
    let lower = ext.to_lowercase();
    let candidates: [&str; 7] = ["jpg", "jpeg", "png", "webp", "gif", "bmp", "tiff"];
    let mut found = false;
    let mut i: usize = 0;
    while i < 7
        invariant
            i <= 7,
            found == exists|j: int| 0 <= j < i && lower@ == (#[trigger] candidates@[j])@,
        decreases 7 - i,
    {
        if text_eq(lower.as_str(), candidates[i]) {
            found = true;
        }
        i = i + 1;
    }
    proof {
        reveal_strlit("jpg");
        reveal_strlit("jpeg");
        reveal_strlit("png");
        reveal_strlit("webp");
        reveal_strlit("gif");
        reveal_strlit("bmp");
        reveal_strlit("tiff");
        if found {
            let j = choose|j: int| 0 <= j < 7 && lower@ == (#[trigger] candidates@[j])@;
            assert(0 <= j < 7);
        } else {
            assert(lower@ != candidates@[0]@);
            assert(lower@ != candidates@[1]@);
            assert(lower@ != candidates@[2]@);
            assert(lower@ != candidates@[3]@);
            assert(lower@ != candidates@[4]@);
            assert(lower@ != candidates@[5]@);
            assert(lower@ != candidates@[6]@);
        }
    }
    found
}

/// Whether two texts are equal.
pub fn text_eq(a: &str, b: &str) -> (r: bool)
    ensures
        r == (a@ == b@),
{
    let av = chars_of(a);
    let bv = chars_of(b);
    if av.len() != bv.len() {
        return false;
    }
    let mut i: usize = 0;
    while i < av.len()
        invariant
            i <= av.len(),
            av.len() == bv.len(),
            av@ == a@,
            bv@ == b@,
            forall|k: int| 0 <= k < i ==> av@[k] == bv@[k],
        decreases av.len() - i,
    {
        if av[i] != bv[i] {
            return false;
        }
        i = i + 1;
    }
    assert(av@ =~= bv@);
    true
}

/// The folder id made of a folder's file name (if any) and its normalized path: the sanitized
/// name and the XXH3 hash of the normalized path's UTF-8 bytes.
pub open spec fn folder_id_spec(name: Option<Seq<char>>, normalized: Seq<char>) -> Seq<char> {
    folder_id_text(sanitized_text(name), spec_xxh3_64(vstd::utf8::encode_utf8(normalized)))
}

/// `id` is the folder id of `path`: the one made of the path's final component and its
/// normalized form.
pub open spec fn is_folder_id_of(path: Seq<char>, id: Seq<char>) -> bool {
    exists|name: Option<Seq<char>>, normalized: Seq<char>|
        is_file_name_of(path, name) && is_normalization(path, normalized) && id == folder_id_spec(
            name,
            normalized,
        )
}

/// A folder id depends on nothing but the folder's file name and normalized path: two paths
/// that agree on both share the id those two make.
pub proof fn lemma_folder_id_determined(
    p: Seq<char>,
    q: Seq<char>,
    name: Option<Seq<char>>,
    normalized: Seq<char>,
)
    requires
        is_file_name_of(p, name),
        is_file_name_of(q, name),
        is_normalization(p, normalized),
        is_normalization(q, normalized),
    ensures
        is_folder_id_of(p, folder_id_spec(name, normalized)),
        is_folder_id_of(q, folder_id_spec(name, normalized)),
{
}

/// A path that is a plain component, or ends in one after a `/`, has no verbatim prefix.
proof fn lemma_no_verbatim_prefix(path: Seq<char>, q: Seq<char>, n: Seq<char>)
    requires
        ends_in_component(path, q, n) || (is_plain_component(path) && n == path),
    ensures
        !has_prefix(path, verbatim_prefix()),
{
    if has_prefix(path, verbatim_prefix()) {
        assert(path.take(4)[0] == '\\');
        assert(path[0] == '\\');
        if ends_in_component(path, q, n) {
            if q.len() > 0 {
                assert((q + seq!['/'] + n)[0] == q[0]);
                assert(q.contains('\\'));
            } else {
                assert((q + seq!['/'] + n)[0] == '/');
            }
        } else {
            assert(path.contains('\\'));
        }
    }
}

/// A folder id is stable: for a path that is a plain component, or that ends in one after a
/// `/` (see `ends_in_component`), every id the path can get is the one made of that component and
/// the path's normalized form, so any two calls on the path agree.
pub proof fn lemma_folder_id_stable(
    path: Seq<char>,
    q: Seq<char>,
    n: Seq<char>,
    id1: Seq<char>,
    id2: Seq<char>,
)
    requires
        ends_in_component(path, q, n) || (is_plain_component(path) && n == path),
        is_folder_id_of(path, id1),
        is_folder_id_of(path, id2),
    ensures
        id1 == folder_id_spec(Some(n), normalized_text(path)),
        id1 == id2,
{
    lemma_no_verbatim_prefix(path, q, n);
    lemma_folder_id_of_stable_path(path, q, n, id1);
    lemma_folder_id_of_stable_path(path, q, n, id2);
}

/// The one id of a path whose final component is fixed on every platform.
proof fn lemma_folder_id_of_stable_path(path: Seq<char>, q: Seq<char>, n: Seq<char>, id: Seq<char>)
    requires
        ends_in_component(path, q, n) || (is_plain_component(path) && n == path),
        !has_prefix(path, verbatim_prefix()),
        is_folder_id_of(path, id),
    ensures
        id == folder_id_spec(Some(n), normalized_text(path)),
{
    let (name, norm) = choose|name: Option<Seq<char>>, normalized: Seq<char>|
        is_file_name_of(path, name) && is_normalization(path, normalized) && id == folder_id_spec(
            name,
            normalized,
        );
    if ends_in_component(path, q, n) {
        assert(name == Some(n));
    }
}

/// Path helpers for workspace folders and their files.
pub struct WorkspacePath;

impl WorkspacePath {
    /// A stable, filesystem-safe id for a source folder: its sanitized name, an underscore, and
    /// the XXH3 hash of its normalized path in hexadecimal.
    pub fn folder_id(path: &str) -> (id: String)
        ensures
            is_folder_id_of(path@, id@),
    {
        let name = std_file_name(path);
        let normalized = Self::normalize(path);
        Self::folder_id_of_parts(&name, normalized.as_str())
    }

    /// The folder id made of a file name (if any) and a normalized path.
    pub fn folder_id_of_parts(name: &Option<String>, normalized: &str) -> (id: String)
        ensures
            id@ == folder_id_spec(opt_text(*name), normalized@),
    {
        let sanitized = Self::sanitize_file_name(name);
        let hash = xxh3_64(normalized.as_bytes());
        Self::folder_id_from(sanitized.as_str(), hash)
    }

    /// The folder id for a sanitized name and a hash.
    pub fn folder_id_from(name: &str, hash: u64) -> (id: String)
        ensures
            id@ == folder_id_text(name@, hash),
    {
        let mut id = if name.is_empty() {
            "folder".to_string()
        } else {
            name.to_string()
        };
        id.push('_');
        let hex = to_lower_hex(hash);
        id.append(hex.as_str());
        proof {
            reveal_strlit("folder");
            assert(id@ =~= folder_id_text(name@, hash));
        }
        id
    }

    /// The alphanumeric characters of the folder's name ("folder" when the path has no name).
    pub fn sanitize_name(path: &str) -> (r: String)
        ensures
            exists|name: Option<Seq<char>>|
                is_file_name_of(path@, name) && r@ == sanitized_text(name),
    {
        let name = std_file_name(path);
        Self::sanitize_file_name(&name)
    }

    /// The alphanumeric characters of a folder name, or of "folder" when there is none.
    pub fn sanitize_file_name(name: &Option<String>) -> (r: String)
        ensures
            r@ == sanitized_text(opt_text(*name)),
    {
        match name {
            Some(n) => filter_alphanumeric(n.as_str()),
            None => filter_alphanumeric("folder"),
        }
    }

    /// Normalizes a path for storage and comparison: strips a Windows verbatim prefix when
    /// that is safe, lowercases, and turns `\` into `/`.
    pub fn normalize(path: &str) -> (r: String)
        ensures
            is_normalization(path@, r@),
            !r@.contains('\\'),
    {
        let simplified = dunce_simplified(path);
        Self::normalize_simplified(simplified.as_str())
    }

    /// The normalized form of an already simplified path: lowercase, `\` turned into `/`.
    pub fn normalize_simplified(simplified: &str) -> (r: String)
        ensures
            r@ == normalized_text(simplified@),
            !r@.contains('\\'),
    {
        let lower = simplified.to_lowercase();
        let r = replace_char(lower.as_str(), '\\', '/');
        proof {
            if r@.contains('\\') {
                let k = choose|k: int| 0 <= k < r@.len() && r@[k] == '\\';
                assert(r@[k] == '/' || r@[k] != '\\');
            }
        }
        r
    }

    /// Whether the file is in a supported image format, judged by its extension.
    pub fn is_image(path: &str) -> (r: bool)
        ensures
            exists|name: Option<Seq<char>>|
                is_file_name_of(path@, name) && r == is_image_name_spec(name),
    {
        let name = std_file_name(path);
        Self::is_image_file_name(&name)
    }

    /// Whether a file with this name (if any) is an image.
    pub fn is_image_file_name(name: &Option<String>) -> (r: bool)
        ensures
            r == is_image_name_spec(opt_text(*name)),
    {
        let empty = "";
        proof {
            reveal_strlit("");
            assert(empty@ =~= Seq::<char>::empty());
        }
        match name {
            Some(n) => match file_extension(n.as_str()) {
                Some(e) => is_image_extension(e.as_str()),
                None => is_image_extension(empty),
            },
            None => is_image_extension(empty),
        }
    }
}

} // verus!
