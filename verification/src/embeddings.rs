//! The per-board embedding stores: where each lives, when an inventory sync is needed, the
//! queries that find a board's images, and the grouping of images by board.
use vstd::prelude::*;
use crate::images::{placeholders, placeholders_spec};
use crate::path_utils::{WorkspacePath, hex_digit, hex_digit_spec, is_folder_id_of};
use crate::text::copy_string;
use crate::workspaces::{copy_strings, texts};

verus! {

/// The file name of a board's embedding store: its folder id and `.db`.
pub fn ai_db_file_name(board_path: &str) -> (name: String)
    ensures
        exists|id: Seq<char>| is_folder_id_of(board_path@, id) && name@ == id + ".db"@,
{
    let mut name = WorkspacePath::folder_id(board_path);
    let ghost id = name@;
    name.append(".db");
    name
}

/// An inventory sync has work to do unless nothing was added or removed and no full pass was
/// asked for.
pub fn needs_inventory_sync(added_count: usize, removed_count: usize, full: bool) -> (r: bool)
    ensures
        r == !(added_count == 0 && removed_count == 0 && !full),
{
    !(added_count == 0 && removed_count == 0 && !full)
}

/// `n` in decimal, without leading zeros ("0" for zero).
pub open spec fn decimal_text(n: nat) -> Seq<char>
    decreases n,
{
    if n < 10 {
        seq![hex_digit_spec(n)]
    } else {
        decimal_text(n / 10).push(hex_digit_spec(n % 10))
    }
}

/// Appends `n` in decimal to `out`, as `format!("{}", n)` writes it.
pub fn push_decimal(n: usize, out: &mut String)
    ensures
        final(out)@ == old(out)@ + decimal_text(n as nat),
    decreases n,
{
    if n >= 10 {
        push_decimal(n / 10, out);
        out.push(hex_digit((n % 10) as u64));
        assert(out@ =~= old(out)@ + decimal_text(n as nat));
    } else {
        out.push(hex_digit(n as u64));
        assert(out@ =~= old(out)@ + decimal_text(n as nat));
    }
}

/// The numbered SQL placeholders `?1,?2,...,?n`.
pub open spec fn numbered_placeholders_spec(n: nat) -> Seq<char>
    decreases n,
{
    if n == 0 {
        Seq::empty()
    } else if n == 1 {
        seq!['?'] + decimal_text(1)
    } else {
        numbered_placeholders_spec((n - 1) as nat) + seq![',', '?'] + decimal_text(n)
    }
}

/// The numbered SQL placeholders `?1,?2,...,?n`.
pub fn numbered_placeholders(n: usize) -> (s: String)
    ensures
        s@ == numbered_placeholders_spec(n as nat),
{
    let mut s = String::new();
    let mut i: usize = 0;
    while i < n
        invariant
            i <= n,
            s@ == numbered_placeholders_spec(i as nat),
        decreases n - i,
    {
        let ghost before = s@;
        if i > 0 {
            s.push(',');
        }
        s.push('?');
        push_decimal(i + 1, &mut s);
        proof {
            if i > 0 {
                assert(s@ =~= before + seq![',', '?'] + decimal_text((i + 1) as nat));
            } else {
                assert(s@ =~= seq!['?'] + decimal_text(1));
            }
        }
        i = i + 1;
    }
    s
}

/// The query for the boards of a set of images: each image's path with its board's path.
pub open spec fn image_boards_sql_spec(n: nat) -> Seq<char> {
    "SELECT i.path, b.path FROM images i JOIN boards b ON i.board_id = b.id WHERE i.path IN ("@
        + numbered_placeholders_spec(n) + ")"@
}

/// The query for the boards of `n` images, numbered placeholders for their paths.
pub fn image_boards_sql(n: usize) -> (sql: String)
    ensures
        sql@ == image_boards_sql_spec(n as nat),
{
    let mut sql =
        "SELECT i.path, b.path FROM images i JOIN boards b ON i.board_id = b.id WHERE i.path IN ("
            .to_string();
    let p = numbered_placeholders(n);
    sql.append(p.as_str());
    sql.append(")");
    sql
}

/// The query for the names and paths of `n` boards given by id.
pub open spec fn board_names_sql_spec(n: nat) -> Seq<char> {
    "SELECT name, path FROM boards WHERE id IN ("@ + placeholders_spec(n) + ")"@
}

/// The query for the names and paths of `n` boards given by id.
pub fn board_names_sql(n: usize) -> (sql: String)
    ensures
        sql@ == board_names_sql_spec(n as nat),
{
    let mut sql = "SELECT name, path FROM boards WHERE id IN (".to_string();
    let p = placeholders(n);
    sql.append(p.as_str());
    sql.append(")");
    sql
}

/// The query for the ids and paths of `n` boards given by id that are not missing.
pub open spec fn present_boards_sql_spec(n: nat) -> Seq<char> {
    "SELECT id, path FROM boards WHERE id IN ("@ + placeholders_spec(n) + ") AND is_missing = 0"@
}

/// The query for the ids and paths of `n` boards given by id that are not missing.
pub fn present_boards_sql(n: usize) -> (sql: String)
    ensures
        sql@ == present_boards_sql_spec(n as nat),
{
    let mut sql = "SELECT id, path FROM boards WHERE id IN (".to_string();
    let p = placeholders(n);
    sql.append(p.as_str());
    sql.append(") AND is_missing = 0");
    sql
}

/// A row of a value and its key, as texts.
pub open spec fn pair_view(r: (String, String)) -> (Seq<char>, Seq<char>) {
    (r.0@, r.1@)
}

/// The rows as texts.
pub open spec fn pairs_view(v: Seq<(String, String)>) -> Seq<(Seq<char>, Seq<char>)> {
    v.map_values(|r: (String, String)| pair_view(r))
}

/// A group of values under a key, as texts.
pub open spec fn group_view(g: (String, Vec<String>)) -> (Seq<char>, Seq<Seq<char>>) {
    (g.0@, texts(g.1@))
}

/// The groups as texts.
pub open spec fn groups_view(v: Seq<(String, Vec<String>)>) -> Seq<(Seq<char>, Seq<Seq<char>>)> {
    v.map_values(|g: (String, Vec<String>)| group_view(g))
}

/// The position of the group with key `k`, or -1.
pub open spec fn key_pos(g: Seq<(Seq<char>, Seq<Seq<char>>)>, k: Seq<char>) -> int {
    if exists|j: int| 0 <= j < g.len() && #[trigger] g[j].0 == k {
        choose|j: int| 0 <= j < g.len() && #[trigger] g[j].0 == k
    } else {
        -1
    }
}

/// The rows of values and keys grouped by key: one group per key in the order the keys first
/// appear, each holding its rows' values in row order.
pub open spec fn group_by_key(rows: Seq<(Seq<char>, Seq<char>)>) -> Seq<(Seq<char>, Seq<Seq<char>>)>
    decreases rows.len(),
{
    if rows.len() == 0 {
        Seq::empty()
    } else {
        let g = group_by_key(rows.drop_last());
        let v = rows.last().0;
        let k = rows.last().1;
        let p = key_pos(g, k);
        if p >= 0 {
            g.update(p, (k, g[p].1.push(v)))
        } else {
            g.push((k, seq![v]))
        }
    }
}

/// No key heads two groups.
pub open spec fn group_keys_unique(g: Seq<(Seq<char>, Seq<Seq<char>>)>) -> bool {
    forall|i: int, j: int| 0 <= i < j < g.len() ==> g[i].0 != g[j].0
}

/// Whether a row has key `k`.
pub open spec fn has_key(k: Seq<char>) -> spec_fn((Seq<char>, Seq<char>)) -> bool {
    |r: (Seq<char>, Seq<char>)| r.1 == k
}

/// The values of the rows with key `k`, in row order.
pub open spec fn values_for(rows: Seq<(Seq<char>, Seq<char>)>, k: Seq<char>) -> Seq<Seq<char>> {
    rows.filter(has_key(k)).map_values(|r: (Seq<char>, Seq<char>)| r.0)
}

/// With unique keys, the group found at `j` is the one `key_pos` names.
proof fn lemma_key_pos_unique(g: Seq<(Seq<char>, Seq<Seq<char>>)>, k: Seq<char>, j: int)
    requires
        group_keys_unique(g),
        0 <= j < g.len(),
        g[j].0 == k,
    ensures
        key_pos(g, k) == j,
{
}

/// Without a group for `k`, `key_pos` is -1.
proof fn lemma_key_pos_absent(g: Seq<(Seq<char>, Seq<Seq<char>>)>, k: Seq<char>)
    requires
        forall|j: int| 0 <= j < g.len() ==> g[j].0 != k,
    ensures
        key_pos(g, k) == -1,
{
}

/// Grouping rows by key: the keys are distinct, every row's key has a group, and each group
/// holds exactly the values of the rows with its key, in row order.
pub proof fn lemma_group_by_key(rows: Seq<(Seq<char>, Seq<char>)>)
    ensures
        group_keys_unique(group_by_key(rows)),
        forall|i: int| 0 <= i < rows.len() ==> key_pos(group_by_key(rows), #[trigger] rows[i].1) >= 0,
        forall|i: int|
            0 <= i < group_by_key(rows).len() ==> (#[trigger] group_by_key(rows)[i]).1 == values_for(
                rows,
                group_by_key(rows)[i].0,
            ),
    decreases rows.len(),
{
    if rows.len() > 0 {
        let pre = rows.drop_last();
        lemma_group_by_key(pre);
        let g = group_by_key(pre);
        let v = rows.last().0;
        let k = rows.last().1;
        let p = key_pos(g, k);
        let g2 = group_by_key(rows);
        assert(rows == pre.push(rows.last()));
        assert forall|kk: Seq<char>| values_for(rows, kk) == if kk == k {
            values_for(pre, kk).push(v)
        } else {
            values_for(pre, kk)
        } by {
            pre.lemma_filter_push(rows.last(), has_key(kk));
            assert(rows.filter(has_key(kk)) == if kk == k {
                pre.filter(has_key(kk)).push(rows.last())
            } else {
                pre.filter(has_key(kk))
            });
            if kk == k {
                assert(pre.filter(has_key(kk)).push(rows.last()).map_values(
                    |r: (Seq<char>, Seq<char>)| r.0,
                ) =~= values_for(pre, kk).push(v));
            }
        }
        if p >= 0 {
            assert(0 <= p < g.len() && g[p].0 == k);
            assert forall|i: int| 0 <= i < g2.len() implies (#[trigger] g2[i]).1 == values_for(
                rows,
                g2[i].0,
            ) by {
                if i != p {
                    assert(g2[i] == g[i]);
                    assert(g[i].0 != k);
                }
            }
            assert forall|i: int| 0 <= i < rows.len() implies key_pos(g2, #[trigger] rows[i].1) >= 0 by {
                if i < rows.len() - 1 {
                    assert(rows[i] == pre[i]);
                    let q = key_pos(g, pre[i].1);
                    assert(g2[q].0 == g[q].0);
                    lemma_key_pos_unique(g2, rows[i].1, q);
                } else {
                    lemma_key_pos_unique(g2, k, p);
                }
            }
        } else {
            assert forall|j: int| 0 <= j < g.len() implies g[j].0 != k by {
                if g[j].0 == k {
                    assert(exists|jj: int| 0 <= jj < g.len() && #[trigger] g[jj].0 == k);
                }
            }
            assert(values_for(pre, k) =~= Seq::<Seq<char>>::empty()) by {
                if pre.filter(has_key(k)).len() > 0 {
                    pre.filter_lemma(has_key(k));
                    let r = pre.filter(has_key(k))[0];
                    assert(pre.filter(has_key(k)).contains(r));
                    pre.lemma_filter_contains_rev(has_key(k), r);
                    assert(pre.contains(r));
                    let i = choose|i: int| 0 <= i < pre.len() && pre[i] == r;
                    assert(pre[i].1 == k);
                    assert(key_pos(g, pre[i].1) >= 0);
                    assert(exists|jj: int| 0 <= jj < g.len() && #[trigger] g[jj].0 == k);
                    assert(false);
                }
            }
            assert(values_for(rows, k) =~= seq![v]);
            assert forall|i: int| 0 <= i < g2.len() implies (#[trigger] g2[i]).1 == values_for(
                rows,
                g2[i].0,
            ) by {
                if i < g.len() {
                    assert(g2[i] == g[i]);
                }
            }
            assert forall|i: int| 0 <= i < rows.len() implies key_pos(g2, #[trigger] rows[i].1) >= 0 by {
                if i < rows.len() - 1 {
                    assert(rows[i] == pre[i]);
                    let q = key_pos(g, pre[i].1);
                    assert(g2[q].0 == g[q].0);
                    lemma_key_pos_unique(g2, rows[i].1, q);
                } else {
                    lemma_key_pos_unique(g2, k, g.len() as int);
                }
            }
        }
    }
}

/// The position of the group with key `k` in `groups`, if any.
fn find_group(groups: &Vec<(String, Vec<String>)>, k: &str) -> (r: Option<usize>)
    ensures
        r matches Some(j) ==> j < groups@.len() && groups_view(groups@)[j as int].0 == k@,
        r is None ==> forall|j: int|
            0 <= j < groups@.len() ==> groups_view(groups@)[j].0 != k@,
{
    let mut j: usize = 0;
    while j < groups.len()
        invariant
            j <= groups@.len(),
            forall|q: int| 0 <= q < j ==> groups_view(groups@)[q].0 != k@,
        decreases groups@.len() - j,
    {
        if crate::path_utils::text_eq(groups[j].0.as_str(), k) {
            return Some(j);
        }
        j = j + 1;
    }
    None
}

/// Groups rows of a value and its key by key: one group per key, in the order the keys first
/// appear, each holding its rows' values in row order (images by the board they belong to).
pub fn group_by_key_exec(rows: &Vec<(String, String)>) -> (groups: Vec<(String, Vec<String>)>)
    ensures
        groups_view(groups@) == group_by_key(pairs_view(rows@)),
{
    let ghost rv = pairs_view(rows@);
    let mut groups: Vec<(String, Vec<String>)> = Vec::new();
    let mut i: usize = 0;
    proof {
        assert(rv.take(0) =~= Seq::<(Seq<char>, Seq<char>)>::empty());
        assert(groups_view(groups@) =~= Seq::<(Seq<char>, Seq<Seq<char>>)>::empty());
    }
    while i < rows.len()
        invariant
            i <= rows@.len(),
            rv == pairs_view(rows@),
            groups_view(groups@) == group_by_key(rv.take(i as int)),
        decreases rows@.len() - i,
    {
        let ghost gv = groups_view(groups@);
        proof {
            lemma_group_by_key(rv.take(i as int));
            assert(rv.take(i + 1).drop_last() =~= rv.take(i as int));
            assert(rv.take(i + 1).last() == rv[i as int]);
        }
        let v = copy_string(&rows[i].0);
        let k = copy_string(&rows[i].1);
        match find_group(&groups, k.as_str()) {
            Some(j) => {
                proof {
                    lemma_key_pos_unique(gv, k@, j as int);
                }
                let mut vals = copy_strings(&groups[j].1);
                let ghost vals_before = vals@;
                vals.push(v);
                proof {
                    assert(texts(vals@) =~= texts(vals_before).push(rows@[i as int].0@));
                }
                groups.set(j, (k, vals));
                proof {
                    assert(groups_view(groups@) =~= gv.update(
                        j as int,
                        (rv[i as int].1, gv[j as int].1.push(rv[i as int].0)),
                    ));
                }
            },
            None => {
                proof {
                    lemma_key_pos_absent(gv, k@);
                }
                let mut vals: Vec<String> = Vec::new();
                vals.push(v);
                proof {
                    assert(texts(vals@) =~= seq![rv[i as int].0]);
                }
                groups.push((k, vals));
                proof {
                    assert(groups_view(groups@) =~= gv.push((rv[i as int].1, seq![rv[i as int].0])));
                }
            },
        }
        i = i + 1;
    }
    proof {
        assert(rv.take(rows@.len() as int) =~= rv);
    }
    groups
}

/// The paths whose flag says they no longer exist, in order.
pub open spec fn missing_paths(paths: Seq<Seq<char>>, exists: Seq<bool>) -> Seq<Seq<char>>
    decreases paths.len(),
{
    if paths.len() == 0 {
        Seq::empty()
    } else {
        let rest = missing_paths(paths.drop_last(), exists);
        if exists[paths.len() - 1] {
            rest
        } else {
            rest.push(paths.last())
        }
    }
}

/// The stored paths that no longer exist on disk (given one flag per path), in order: the
/// embeddings to delete.
pub fn select_missing(paths: &Vec<String>, exists: &Vec<bool>) -> (r: Vec<String>)
    requires
        exists@.len() == paths@.len(),
    ensures
        texts(r@) == missing_paths(texts(paths@), exists@),
{
    let ghost pv = texts(paths@);
    let mut r: Vec<String> = Vec::new();
    let mut i: usize = 0;
    while i < paths.len()
        invariant
            i <= paths@.len(),
            exists@.len() == paths@.len(),
            pv == texts(paths@),
            texts(r@) == missing_paths(pv.take(i as int), exists@),
        decreases paths@.len() - i,
    {
        proof {
            assert(pv.take(i + 1).drop_last() =~= pv.take(i as int));
        }
        if !exists[i] {
            let ghost before = r@;
            r.push(paths[i].clone());
            proof {
                assert(texts(r@) =~= texts(before).push(pv[i as int]));
            }
        }
        i = i + 1;
    }
    proof {
        assert(pv.take(paths@.len() as int) =~= pv);
    }
    r
}

} // verus!
