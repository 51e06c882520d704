//! Searching the workspace with the AI engine: which boards are searched, and how the engine's
//! results are matched back to the images of the library.
use vstd::prelude::*;
use crate::embeddings::{decimal_text, numbered_placeholders, numbered_placeholders_spec, push_decimal};
use crate::images::image_columns;
use crate::workspaces::texts;

verus! {

/// The query for the searched boards: those present, the given one (or all when none is
/// given), and, with roots, those whose path starts with one of the roots.
pub open spec fn search_boards_sql_spec(n_roots: nat) -> Seq<char> {
    "SELECT id, path FROM boards WHERE is_missing = 0 AND (?1 IS NULL OR id = ?1)"@ + if n_roots
        == 0 {
        Seq::empty()
    } else {
        " AND ("@ + like_conditions(n_roots) + ")"@
    }
}

/// `n` conditions `path LIKE ?` joined by ` OR `.
pub open spec fn like_conditions(n: nat) -> Seq<char>
    decreases n,
{
    if n <= 1 {
        "path LIKE ?"@
    } else {
        like_conditions((n - 1) as nat) + " OR path LIKE ?"@
    }
}

/// The query for the boards searched under `n_roots` workspace roots.
pub fn search_boards_sql(n_roots: usize) -> (sql: String)
    ensures
        sql@ == search_boards_sql_spec(n_roots as nat),
{
    let mut sql = "SELECT id, path FROM boards WHERE is_missing = 0 AND (?1 IS NULL OR id = ?1)"
        .to_string();
    if n_roots > 0 {
        let mut conds = "path LIKE ?".to_string();
        let mut i: usize = 1;
        while i < n_roots
            invariant
                1 <= i <= n_roots,
                conds@ == like_conditions(i as nat),
            decreases n_roots - i,
        {
            conds.append(" OR path LIKE ?");
            i = i + 1;
        }
        sql.append(" AND (");
        sql.append(conds.as_str());
        sql.append(")");
    }
    sql
}

/// The pattern matching the paths under a root: the root and `%`.
pub fn like_prefix(root: &str) -> (p: String)
    ensures
        p@ == root@ + "%"@,
{
    let mut p = root.to_string();
    p.append("%");
    p
}

/// The query resolving `n` result paths to images, with the optional board id as parameter
/// `n + 1`.
pub open spec fn resolve_results_sql_spec(n: nat) -> Seq<char> {
    image_columns() + "WHERE i.path IN ("@ + numbered_placeholders_spec(n) + ") AND (?"@
        + decimal_text(n + 1) + " IS NULL OR i.board_id = ?"@ + decimal_text(n + 1) + ")"@
}

/// The query resolving `n` result paths to images.
pub fn resolve_results_sql(n: usize) -> (sql: String)
    requires
        n < usize::MAX,
    ensures
        sql@ == resolve_results_sql_spec(n as nat),
{
    let mut sql = "SELECT i.id, i.filename, i.path, i.board_id, b.name as board_name, i.thumb_path, i.thumbnail_status, i.width, i.height, i.size_bytes, i.mtime, i.created_at, i.is_missing FROM images i JOIN boards b ON i.board_id = b.id "
        .to_string();
    sql.append("WHERE i.path IN (");
    let p = numbered_placeholders(n);
    sql.append(p.as_str());
    sql.append(") AND (?");
    let mut num = String::new();
    push_decimal(n + 1, &mut num);
    sql.append(num.as_str());
    sql.append(" IS NULL OR i.board_id = ?");
    sql.append(num.as_str());
    sql.append(")");
    sql
}

/// The last position of `p` in `v`, or -1.
pub open spec fn last_pos(v: Seq<Seq<char>>, p: Seq<char>) -> int
    decreases v.len(),
{
    if v.len() == 0 {
        -1
    } else if v.last() == p {
        v.len() - 1
    } else {
        last_pos(v.drop_last(), p)
    }
}

/// The results that have an image, in result order, each with the position of its image (the
/// last image with that path).
pub open spec fn matched_results(results: Seq<Seq<char>>, images: Seq<Seq<char>>) -> Seq<(int, int)>
    decreases results.len(),
{
    if results.len() == 0 {
        Seq::empty()
    } else {
        let rest = matched_results(results.drop_last(), images);
        let j = last_pos(images, results.last());
        if j >= 0 {
            rest.push((results.len() - 1, j))
        } else {
            rest
        }
    }
}

/// A found position holds the text looked for, and no later position does.
proof fn lemma_last_pos(v: Seq<Seq<char>>, p: Seq<char>)
    ensures
        -1 <= last_pos(v, p) < v.len(),
        last_pos(v, p) >= 0 ==> v[last_pos(v, p)] == p,
        forall|k: int| last_pos(v, p) < k < v.len() ==> v[k] != p,
        last_pos(v, p) == -1 ==> !v.contains(p),
    decreases v.len(),
{
    if v.len() > 0 {
        lemma_last_pos(v.drop_last(), p);
        if v.last() != p {
            assert forall|k: int| last_pos(v, p) < k < v.len() implies v[k] != p by {
                if k < v.len() - 1 {
                    assert(v[k] == v.drop_last()[k]);
                }
            }
            if last_pos(v, p) == -1 {
                assert forall|k: int| 0 <= k < v.len() implies v[k] != p by {
                    if k < v.len() - 1 {
                        assert(v[k] == v.drop_last()[k]);
                    }
                }
            }
        }
    }
}

/// Every match pairs a result with an image of the same path, the last such image; matches
/// keep the results' order; and a result is left out only when no image has its path.
pub proof fn lemma_matched_results(results: Seq<Seq<char>>, images: Seq<Seq<char>>)
    ensures
        forall|k: int|
            0 <= k < matched_results(results, images).len() ==> {
                let (i, j) = #[trigger] matched_results(results, images)[k];
                &&& 0 <= i < results.len()
                &&& 0 <= j < images.len()
                &&& results[i] == images[j]
                &&& forall|q: int| j < q < images.len() ==> images[q] != results[i]
            },
        forall|k1: int, k2: int|
            0 <= k1 < k2 < matched_results(results, images).len() ==> matched_results(
                results,
                images,
            )[k1].0 < matched_results(results, images)[k2].0,
        forall|i: int|
            0 <= i < results.len() && images.contains(#[trigger] results[i]) ==> exists|k: int|
                0 <= k < matched_results(results, images).len() && matched_results(
                    results,
                    images,
                )[k].0 == i,
    decreases results.len(),
{
    if results.len() > 0 {
        let pre = results.drop_last();
        lemma_matched_results(pre, images);
        let last = results.last();
        lemma_last_pos(images, last);
        let m = matched_results(results, images);
        let mp = matched_results(pre, images);
        assert forall|k: int| 0 <= k < mp.len() implies mp[k].0 < results.len() - 1 by {}
        assert forall|i: int|
            0 <= i < results.len() && images.contains(#[trigger] results[i]) implies exists|k: int|
            0 <= k < m.len() && m[k].0 == i by {
            if i < results.len() - 1 {
                assert(results[i] == pre[i]);
                let k = choose|k: int| 0 <= k < mp.len() && mp[k].0 == i;
                assert(m[k] == mp[k]);
            } else {
                assert(m.len() == mp.len() + 1);
                assert(m[mp.len() as int].0 == i);
            }
        }
        assert forall|k: int| 0 <= k < m.len() implies {
            let (i, j) = #[trigger] m[k];
            &&& 0 <= i < results.len()
            &&& 0 <= j < images.len()
            &&& results[i] == images[j]
            &&& forall|q: int| j < q < images.len() ==> images[q] != results[i]
        } by {
            if k < mp.len() {
                assert(m[k] == mp[k]);
                assert(results[mp[k].0] == pre[mp[k].0]);
            }
        }
    }
}

/// The last position of `p` among `v`'s texts.
fn last_position(v: &Vec<String>, p: &str) -> (r: Option<usize>)
    ensures
        r matches Some(j) ==> j as int == last_pos(texts(v@), p@),
        r is None ==> last_pos(texts(v@), p@) == -1,
{
    let ghost tv = texts(v@);
    let mut k: usize = v.len();
    proof {
        assert(tv.take(k as int) =~= tv);
    }
    while k > 0
        invariant
            k <= v@.len(),
            tv == texts(v@),
            last_pos(tv, p@) == last_pos(tv.take(k as int), p@),
        decreases k,
    {
        proof {
            assert(tv.take(k as int).drop_last() =~= tv.take(k - 1));
        }
        if crate::path_utils::text_eq(v[k - 1].as_str(), p) {
            return Some(k - 1);
        }
        k = k - 1;
    }
    None
}

/// Matches the engine's results (their normalized paths, best first) to the images found for
/// them: for each result in order that has an image, the result's position and the position of
/// the image with its path (the last one, when several share it).
pub fn match_results(result_paths: &Vec<String>, image_paths: &Vec<String>) -> (r: Vec<(usize, usize)>)
    ensures
        r@.map_values(|m: (usize, usize)| (m.0 as int, m.1 as int)) == matched_results(
            texts(result_paths@),
            texts(image_paths@),
        ),
{
    let ghost rv = texts(result_paths@);
    let ghost iv = texts(image_paths@);
    let mut r: Vec<(usize, usize)> = Vec::new();
    let mut i: usize = 0;
    while i < result_paths.len()
        invariant
            i <= result_paths@.len(),
            rv == texts(result_paths@),
            iv == texts(image_paths@),
            r@.map_values(|m: (usize, usize)| (m.0 as int, m.1 as int)) == matched_results(
                rv.take(i as int),
                iv,
            ),
        decreases result_paths@.len() - i,
    {
        proof {
            assert(rv.take(i + 1).drop_last() =~= rv.take(i as int));
        }
        let ghost before = r@;
        match last_position(image_paths, result_paths[i].as_str()) {
            Some(j) => {
                r.push((i, j));
                proof {
                    assert(r@.map_values(|m: (usize, usize)| (m.0 as int, m.1 as int))
                        =~= before.map_values(|m: (usize, usize)| (m.0 as int, m.1 as int)).push(
                        (i as int, j as int),
                    ));
                }
            },
            None => {},
        }
        i = i + 1;
    }
    proof {
        assert(rv.take(result_paths@.len() as int) =~= rv);
    }
    r
}

} // verus!
