//! Reconciling a board's embedding store with the images the board holds.
//!
//! The store keeps one row per image path with the image's modification time. Given the rows the
//! store holds and the board's current inventory, the plan says which rows to delete, which to
//! insert (with no embedding yet) and which to refresh (their image changed since it was embedded).
use vstd::prelude::*;
use crate::path_utils::text_eq;

verus! {

/// The value of an inventory entry: an image path and its modification time.
pub open spec fn entry_view(e: (String, i64)) -> (Seq<char>, i64) {
    (e.0@, e.1)
}

/// The values of a list of entries.
pub open spec fn entries_view(v: Seq<(String, i64)>) -> Seq<(Seq<char>, i64)> {
    v.map_values(|e: (String, i64)| entry_view(e))
}

/// The map a list of entries describes; a later entry for a path replaces an earlier one.
pub open spec fn inventory_map(entries: Seq<(Seq<char>, i64)>) -> Map<Seq<char>, i64>
    decreases entries.len(),
{
    if entries.len() == 0 {
        Map::empty()
    } else {
        inventory_map(entries.drop_last()).insert(entries.last().0, entries.last().1)
    }
}

/// `v` lists the entries of `m`, each path once.
pub open spec fn represents(v: Seq<(Seq<char>, i64)>, m: Map<Seq<char>, i64>) -> bool {
    &&& forall|i: int, j: int| 0 <= i < j < v.len() ==> v[i].0 != v[j].0
    &&& forall|i: int| 0 <= i < v.len() ==> #[trigger] m.contains_key(v[i].0) && m[v[i].0]
        == v[i].1
    &&& forall|p: Seq<char>| #[trigger] m.contains_key(p) ==> exists|i: int|
        0 <= i < v.len() && v[i].0 == p
}

/// `v` lists the paths of `s`, each once.
pub open spec fn lists_set(v: Seq<Seq<char>>, s: Set<Seq<char>>) -> bool {
    &&& v.no_duplicates()
    &&& v.to_set() == s
}

/// The paths to delete: in a full pass, those the store holds that the inventory no longer
/// does; otherwise the paths reported as removed.
pub open spec fn planned_deletes(
    existing: Map<Seq<char>, i64>,
    current: Map<Seq<char>, i64>,
    removed: Seq<Seq<char>>,
    full: bool,
) -> Set<Seq<char>> {
    if full {
        existing.dom().difference(current.dom())
    } else {
        removed.to_set()
    }
}

/// The rows to insert: inventory entries the store does not hold.
pub open spec fn planned_inserts(existing: Map<Seq<char>, i64>, current: Map<Seq<char>, i64>) -> Map<
    Seq<char>,
    i64,
> {
    current.restrict(current.dom().difference(existing.dom()))
}

/// The rows to refresh: inventory entries whose modification time is later than the store's.
pub open spec fn planned_updates(existing: Map<Seq<char>, i64>, current: Map<Seq<char>, i64>) -> Map<
    Seq<char>,
    i64,
> {
    current.restrict(
        Set::new(
            |p: Seq<char>|
                current.contains_key(p) && existing.contains_key(p) && existing[p] < current[p],
        ),
    )
}

/// The store after the plan is carried out in order: deletions, then refreshes of rows still
/// present, then insertions.
pub open spec fn store_after(
    existing: Map<Seq<char>, i64>,
    deletes: Set<Seq<char>>,
    inserts: Map<Seq<char>, i64>,
    updates: Map<Seq<char>, i64>,
) -> Map<Seq<char>, i64> {
    let kept = existing.remove_keys(deletes);
    let refreshed = Map::new(
        |p: Seq<char>| kept.contains_key(p),
        |p: Seq<char>|
            if updates.contains_key(p) {
                updates[p]
            } else {
                kept[p]
            },
    );
    refreshed.union_prefer_right(inserts)
}

/// What to do to a board's embedding store.
pub struct InventoryPlan {
    /// Paths whose rows are deleted.
    pub deletes: Vec<String>,
    /// New rows, without embedding.
    pub inserts: Vec<(String, i64)>,
    /// Rows whose modification time is raised and whose embedding is cleared.
    pub updates: Vec<(String, i64)>,
}

/// The texts of a list of strings.
pub open spec fn paths_view(v: Seq<String>) -> Seq<Seq<char>> {
    v.map_values(|s: String| s@)
}

/// The index of the entry with this path, if there is one.
fn find_entry(v: &Vec<(String, i64)>, path: &str) -> (r: Option<usize>)
    ensures
        r matches Some(k) ==> k < v.len() && v@[k as int].0@ == path@,
        r is None ==> forall|i: int| 0 <= i < v.len() ==> (#[trigger] v@[i]).0@ != path@,
{
    let mut i: usize = 0;
    while i < v.len()
        invariant
            i <= v.len(),
            forall|j: int| 0 <= j < i ==> (#[trigger] v@[j]).0@ != path@,
        decreases v.len() - i,
    {
        if text_eq(v[i].0.as_str(), path) {
            return Some(i);
        }
        i = i + 1;
    }
    None
}

/// Whether `path` is in `v`.
fn has_path(v: &Vec<String>, path: &str) -> (r: bool)
    ensures
        r == paths_view(v@).contains(path@),
{
    let mut i: usize = 0;
    while i < v.len()
        invariant
            i <= v.len(),
            forall|j: int| 0 <= j < i ==> (#[trigger] v@[j])@ != path@,
        decreases v.len() - i,
    {
        if text_eq(v[i].as_str(), path) {
            assert(paths_view(v@)[i as int] == path@);
            return true;
        }
        i = i + 1;
    }
    proof {
        if paths_view(v@).contains(path@) {
            let k = choose|k: int| 0 <= k < paths_view(v@).len() && paths_view(v@)[k] == path@;
            assert(v@[k]@ == path@);
        }
    }
    false
}

/// Replacing the value of a listed path keeps the list representing the updated map.
proof fn lemma_represents_update(
    v: Seq<(Seq<char>, i64)>,
    m: Map<Seq<char>, i64>,
    k: int,
    val: i64,
)
    requires
        represents(v, m),
        0 <= k < v.len(),
    ensures
        represents(v.update(k, (v[k].0, val)), m.insert(v[k].0, val)),
{
    let key = v[k].0;
    let w = v.update(k, (key, val));
    let n = m.insert(key, val);
    assert forall|i: int| 0 <= i < w.len() implies #[trigger] n.contains_key(w[i].0) && n[w[i].0]
        == w[i].1 by {
        if i != k {
            assert(w[i] == v[i]);
            assert(m.contains_key(v[i].0));
        }
    }
    assert forall|p: Seq<char>| #[trigger] n.contains_key(p) implies exists|i: int|
        0 <= i < w.len() && w[i].0 == p by {
        if p == key {
            assert(w[k].0 == p);
        } else {
            let i = choose|i: int| 0 <= i < v.len() && v[i].0 == p;
            assert(w[i].0 == p);
        }
    }
}

/// Appending a path the map lacks keeps the list representing the extended map.
proof fn lemma_represents_push(v: Seq<(Seq<char>, i64)>, m: Map<Seq<char>, i64>, key: Seq<char>, val: i64)
    requires
        represents(v, m),
        !m.contains_key(key),
    ensures
        represents(v.push((key, val)), m.insert(key, val)),
{
    let w = v.push((key, val));
    let n = m.insert(key, val);
    assert forall|i: int| 0 <= i < v.len() implies #[trigger] v[i].0 != key by {
        assert(m.contains_key(v[i].0));
    }
    assert forall|i: int| 0 <= i < w.len() implies #[trigger] n.contains_key(w[i].0) && n[w[i].0]
        == w[i].1 by {
        if i < v.len() {
            assert(w[i] == v[i]);
            assert(m.contains_key(v[i].0));
        }
    }
    assert forall|p: Seq<char>| #[trigger] n.contains_key(p) implies exists|i: int|
        0 <= i < w.len() && w[i].0 == p by {
        if p == key {
            assert(w[v.len() as int].0 == p);
        } else {
            let i = choose|i: int| 0 <= i < v.len() && v[i].0 == p;
            assert(w[i].0 == p);
        }
    }
}

/// A path missing from a list is missing from the map the list represents.
proof fn lemma_represents_absent(v: Seq<(Seq<char>, i64)>, m: Map<Seq<char>, i64>, key: Seq<char>)
    requires
        represents(v, m),
        forall|i: int| 0 <= i < v.len() ==> v[i].0 != key,
    ensures
        !m.contains_key(key),
{
}

/// Two maps that the same list represents are equal.
proof fn lemma_represents_unique(v: Seq<(Seq<char>, i64)>, m1: Map<Seq<char>, i64>, m2: Map<Seq<char>, i64>)
    requires
        represents(v, m1),
        represents(v, m2),
    ensures
        m1 == m2,
{
    assert forall|p: Seq<char>| m1.contains_key(p) implies m2.contains_key(p) && m1[p] == m2[p] by {
        let i = choose|i: int| 0 <= i < v.len() && v[i].0 == p;
        assert(m2.contains_key(v[i].0));
    }
    assert forall|p: Seq<char>| m2.contains_key(p) implies m1.contains_key(p) by {
        let i = choose|i: int| 0 <= i < v.len() && v[i].0 == p;
        assert(m1.contains_key(v[i].0));
    }
    assert(m1 =~= m2);
}

/// The inventory as a list with each path once, the later entry for a path winning.
pub fn collect_inventory(added: &Vec<(String, i64)>) -> (cur: Vec<(String, i64)>)
    ensures
        represents(entries_view(cur@), inventory_map(entries_view(added@))),
{
    let ghost av = entries_view(added@);
    let mut cur: Vec<(String, i64)> = Vec::new();
    let mut i: usize = 0;
    proof {
        assert(av.take(0) =~= Seq::<(Seq<char>, i64)>::empty());
        assert(entries_view(cur@) =~= Seq::<(Seq<char>, i64)>::empty());
    }
    while i < added.len()
        invariant
            i <= added.len(),
            av == entries_view(added@),
            represents(entries_view(cur@), inventory_map(av.take(i as int))),
        decreases added.len() - i,
    {
        let path = &added[i].0;
        let m = added[i].1;
        let ghost before = entries_view(cur@);
        let ghost mb = inventory_map(av.take(i as int));
        proof {
            assert(av.take(i + 1).drop_last() == av.take(i as int));
            assert(av.take(i + 1).last() == (path@, m));
        }
        match find_entry(&cur, path.as_str()) {
            Some(k) => {
                cur[k] = (path.clone(), m);
                proof {
                    assert(before[k as int].0 == path@);
                    lemma_represents_update(before, mb, k as int, m);
                    assert(entries_view(cur@) =~= before.update(k as int, (path@, m)));
                }
            },
            None => {
                proof {
                    assert forall|j: int| 0 <= j < before.len() implies before[j].0 != path@ by {
                        assert(before[j] == entry_view(cur@[j]));
                    }
                    lemma_represents_absent(before, mb, path@);
                    lemma_represents_push(before, mb, path@, m);
                }
                cur.push((path.clone(), m));
                proof {
                    assert(entries_view(cur@) =~= before.push((path@, m)));
                }
            },
        }
        i = i + 1;
    }
    proof {
        assert(av.take(added.len() as int) == av);
    }
    cur
}

/// The paths of `v` without repetitions, in order of first appearance.
fn dedup_paths(v: &Vec<String>) -> (r: Vec<String>)
    ensures
        lists_set(paths_view(r@), paths_view(v@).to_set()),
{
    let ghost vv = paths_view(v@);
    let mut r: Vec<String> = Vec::new();
    let mut i: usize = 0;
    proof {
        assert(vv.take(0) =~= Seq::<Seq<char>>::empty());
        assert(paths_view(r@) =~= Seq::<Seq<char>>::empty());
        assert(vv.take(0).to_set() =~= Set::<Seq<char>>::empty());
        assert(paths_view(r@).to_set() =~= Set::<Seq<char>>::empty());
    }
    while i < v.len()
        invariant
            i <= v.len(),
            vv == paths_view(v@),
            lists_set(paths_view(r@), vv.take(i as int).to_set()),
        decreases v.len() - i,
    {
        let p = &v[i];
        let ghost before = paths_view(r@);
        proof {
            assert(vv.take(i + 1) == vv.take(i as int).push(p@));
            vv.take(i as int).lemma_push_to_set_commute(p@);
        }
        if !has_path(&r, p.as_str()) {
            r.push(p.clone());
            proof {
                assert(paths_view(r@) =~= before.push(p@));
                before.lemma_push_to_set_commute(p@);
                assert forall|a: int, b: int|
                    0 <= a < b < paths_view(r@).len() implies paths_view(r@)[a] != paths_view(
                    r@,
                )[b] by {
                    if b == before.len() {
                        assert(before.contains(before[a]));
                    }
                }
            }
        } else {
            proof {
                assert(vv.take(i as int).to_set().insert(p@) =~= vv.take(i as int).to_set());
            }
        }
        i = i + 1;
    }
    proof {
        assert(vv.take(v.len() as int) == vv);
    }
    r
}

/// Plans the reconciliation of a board's embedding store.
///
/// `existing` lists the store's rows (each path once, as its primary key guarantees), `added`
/// the board's current images with their modification times, `removed` the paths reported as
/// removed. In a full pass every stored path missing from the inventory is deleted and
/// `removed` is ignored; otherwise exactly the removed paths are deleted. Inventory entries the
/// store lacks are inserted; those whose modification time is later than the stored one are
/// refreshed.
pub fn plan_inventory_sync(
    existing: &Vec<(String, i64)>,
    added: &Vec<(String, i64)>,
    removed: &Vec<String>,
    full: bool,
) -> (plan: InventoryPlan)
    requires
        forall|i: int, j: int|
            0 <= i < j < existing@.len() ==> existing@[i].0@ != existing@[j].0@,
    ensures
        ({
            let ex = inventory_map(entries_view(existing@));
            let cur = inventory_map(entries_view(added@));
            &&& lists_set(
                paths_view(plan.deletes@),
                planned_deletes(ex, cur, paths_view(removed@), full),
            )
            &&& represents(entries_view(plan.inserts@), planned_inserts(ex, cur))
            &&& represents(entries_view(plan.updates@), planned_updates(ex, cur))
            &&& paths_view(plan.deletes@).len() == planned_deletes(
                ex,
                cur,
                paths_view(removed@),
                full,
            ).len()
            &&& plan.inserts@.len() == planned_inserts(ex, cur).dom().len()
        }),
{
    let ghost ex = inventory_map(entries_view(existing@));
    let ghost cur_map = inventory_map(entries_view(added@));
    proof {
        lemma_unique_entries_represent(entries_view(existing@));
    }
    let cur = collect_inventory(added);
    proof {
        assert forall|i: int, j: int| 0 <= i < j < cur@.len() implies cur@[i].0@ != cur@[j].0@ by {
            assert(entries_view(cur@)[i].0 == cur@[i].0@);
            assert(entries_view(cur@)[j].0 == cur@[j].0@);
        }
        assert forall|i: int, j: int| 0 <= i < j < entries_view(cur@).len() implies entries_view(
            cur@,
        )[i].0 != entries_view(cur@)[j].0 by {
            assert(entries_view(cur@)[i].0 == cur@[i].0@);
            assert(entries_view(cur@)[j].0 == cur@[j].0@);
        }
        lemma_unique_entries_represent(entries_view(cur@));
        lemma_represents_unique(entries_view(cur@), cur_map, inventory_map(entries_view(cur@)));
    }
    let deletes = if full {
        let mut d: Vec<String> = Vec::new();
        let mut i: usize = 0;
        while i < existing.len()
            invariant
                i <= existing.len(),
                represents(entries_view(existing@), ex),
                represents(entries_view(cur@), cur_map),
                paths_view(d@).no_duplicates(),
                forall|j: int| 0 <= j < d@.len() ==> exists|k: int|
                    0 <= k < i && (#[trigger] d@[j])@ == existing@[k].0@,
                paths_view(d@).to_set() == Set::new(
                    |p: Seq<char>|
                        exists|k: int|
                            0 <= k < i && existing@[k].0@ == p && !cur_map.contains_key(p),
                ),
            decreases existing.len() - i,
        {
            let p = &existing[i].0;
            let ghost before = paths_view(d@);
            proof {
                assert(entries_view(existing@)[i as int] == (p@, existing@[i as int].1));
            }
            let in_current = find_entry(&cur, p.as_str()).is_some();
            proof {
                if in_current {
                    let k = choose|k: int|
                        0 <= k < cur@.len() && (#[trigger] cur@[k]).0@ == p@;
                    assert(entries_view(cur@)[k].0 == p@);
                } else {
                    if cur_map.contains_key(p@) {
                        let k = choose|k: int|
                            0 <= k < entries_view(cur@).len() && entries_view(cur@)[k].0 == p@;
                        assert(cur@[k].0@ == p@);
                    }
                }
            }
            if !in_current {
                d.push(p.clone());
                proof {
                    assert(paths_view(d@) =~= before.push(p@));
                    assert forall|a: int, b: int|
                        0 <= a < b < paths_view(d@).len() implies paths_view(d@)[a]
                        != paths_view(d@)[b] by {
                        if b == before.len() {
                            let k = choose|k: int| 0 <= k < i && d@[a]@ == existing@[k].0@;
                            assert(entries_view(existing@)[k].0 == entries_view(existing@)[i as int].0
                                ==> k == i);
                        }
                    }
                }
            }
            proof {
                assert(paths_view(d@).to_set() =~= Set::new(
                    |q: Seq<char>|
                        exists|k: int|
                            0 <= k < i + 1 && existing@[k].0@ == q && !cur_map.contains_key(q),
                )) by {
                    assert forall|q: Seq<char>| #[trigger] paths_view(d@).to_set().contains(q) implies exists|k: int|
                        0 <= k < i + 1 && existing@[k].0@ == q && !cur_map.contains_key(q) by {
                        if !before.to_set().contains(q) {
                            assert(paths_view(d@)[before.len() as int] == q);
                        }
                    }
                    assert forall|q: Seq<char>|
                        (exists|k: int|
                            0 <= k < i + 1 && existing@[k].0@ == q && !cur_map.contains_key(
                                q,
                            )) implies #[trigger] paths_view(d@).to_set().contains(q) by {
                        let k = choose|k: int|
                            0 <= k < i + 1 && existing@[k].0@ == q && !cur_map.contains_key(q);
                        if k < i {
                            assert(before.to_set().contains(q));
                            let a = choose|a: int| 0 <= a < before.len() && before[a] == q;
                            assert(paths_view(d@)[a] == q);
                        } else {
                            assert(paths_view(d@)[before.len() as int] == q);
                        }
                    }
                }
                assert forall|j: int| 0 <= j < d@.len() implies exists|k: int|
                    0 <= k < i + 1 && (#[trigger] d@[j])@ == existing@[k].0@ by {
                    if j < before.len() {
                        let k = choose|k: int| 0 <= k < i && (#[trigger] d@[j])@ == existing@[k].0@;
                        assert(0 <= k < i + 1);
                    } else {
                        assert(d@[j]@ == existing@[i as int].0@);
                    }
                }
            }
            i = i + 1;
        }
        proof {
            assert(paths_view(d@).to_set() =~= ex.dom().difference(cur_map.dom())) by {
                assert forall|q: Seq<char>| #[trigger] ex.dom().contains(q) && !cur_map.dom().contains(q)
                    implies paths_view(d@).to_set().contains(q) by {
                    let k = choose|k: int|
                        0 <= k < entries_view(existing@).len() && entries_view(existing@)[k].0 == q;
                    assert(existing@[k].0@ == q);
                }
                assert forall|q: Seq<char>| #[trigger] paths_view(d@).to_set().contains(q)
                    implies ex.dom().contains(q) && !cur_map.dom().contains(q) by {
                    let k = choose|k: int|
                        0 <= k < existing.len() && existing@[k].0@ == q && !cur_map.contains_key(q);
                    assert(entries_view(existing@)[k].0 == q);
                }
            }
        }
        d
    } else {
        dedup_paths(removed)
    };
    let inserts = select_entries(existing, &cur, true);
    let updates = select_entries(existing, &cur, false);
    proof {
        lemma_represents_unique(entries_view(existing@), ex, inventory_map(entries_view(existing@)));
        assert(planned_inserts(ex, cur_map) =~= planned_map(ex, cur_map, true));
        assert(planned_updates(ex, cur_map) =~= planned_map(ex, cur_map, false));
        paths_view(deletes@).unique_seq_to_set();
        lemma_represents_len(entries_view(inserts@), planned_inserts(ex, cur_map));
    }
    InventoryPlan { deletes, inserts, updates }
}

/// Whether an inventory entry is planned: for insertion when the store lacks its path, for
/// refreshing when the store's time for it is earlier.
pub open spec fn selected(ex: Map<Seq<char>, i64>, p: Seq<char>, m: i64, inserting: bool) -> bool {
    if inserting {
        !ex.contains_key(p)
    } else {
        ex.contains_key(p) && ex[p] < m
    }
}

/// The inventory entries planned for insertion, or for refreshing.
pub open spec fn planned_map(ex: Map<Seq<char>, i64>, cur: Map<Seq<char>, i64>, inserting: bool) -> Map<
    Seq<char>,
    i64,
> {
    cur.restrict(Set::new(|p: Seq<char>| cur.contains_key(p) && selected(ex, p, cur[p], inserting)))
}

/// The entries of `cur` that are planned for insertion (`inserting`) or for refreshing.
fn select_entries(existing: &Vec<(String, i64)>, cur: &Vec<(String, i64)>, inserting: bool) -> (r:
    Vec<(String, i64)>)
    requires
        represents(entries_view(existing@), inventory_map(entries_view(existing@))),
        forall|i: int, j: int| 0 <= i < j < cur@.len() ==> cur@[i].0@ != cur@[j].0@,
    ensures
        represents(
            entries_view(r@),
            planned_map(
                inventory_map(entries_view(existing@)),
                inventory_map(entries_view(cur@)),
                inserting,
            ),
        ),
{
    let ghost ex = inventory_map(entries_view(existing@));
    let ghost cv = entries_view(cur@);
    proof {
        assert forall|i: int, j: int| 0 <= i < j < cv.len() implies cv[i].0 != cv[j].0 by {
            assert(cv[i].0 == cur@[i].0@ && cv[j].0 == cur@[j].0@);
        }
        lemma_unique_entries_represent(cv);
    }
    let mut r: Vec<(String, i64)> = Vec::new();
    let mut i: usize = 0;
    while i < cur.len()
        invariant
            i <= cur.len(),
            cv == entries_view(cur@),
            ex == inventory_map(entries_view(existing@)),
            represents(entries_view(existing@), ex),
            represents(cv, inventory_map(cv)),
            forall|a: int, b: int| 0 <= a < b < r@.len() ==> r@[a].0@ != r@[b].0@,
            forall|t: int|
                0 <= t < r@.len() ==> exists|j: int|
                    0 <= j < i && entry_view(#[trigger] r@[t]) == cv[j] && selected(
                        ex,
                        cv[j].0,
                        cv[j].1,
                        inserting,
                    ),
            forall|j: int|
                0 <= j < i && selected(ex, #[trigger] cv[j].0, cv[j].1, inserting) ==> exists|t: int|
                    0 <= t < r@.len() && entry_view(r@[t]) == cv[j],
        decreases cur.len() - i,
    {
        let p = &cur[i].0;
        let m = cur[i].1;
        proof {
            assert(cv[i as int] == (p@, m));
        }
        let found = find_entry(existing, p.as_str());
        let want = match found {
            None => inserting,
            Some(k) => !inserting && existing[k].1 < m,
        };
        proof {
            match found {
                Some(k) => {
                    assert(entries_view(existing@)[k as int] == (p@, existing@[k as int].1));
                    assert(ex.contains_key(entries_view(existing@)[k as int].0));
                },
                None => {
                    assert forall|j: int| 0 <= j < entries_view(existing@).len() implies entries_view(
                        existing@,
                    )[j].0 != p@ by {
                        assert(entries_view(existing@)[j].0 == existing@[j].0@);
                    }
                    lemma_represents_absent(entries_view(existing@), ex, p@);
                },
            }
            assert(want == selected(ex, p@, m, inserting));
        }
        let ghost before = r@;
        if want {
            r.push((p.clone(), m));
            proof {
                assert forall|a: int, b: int| 0 <= a < b < r@.len() implies r@[a].0@ != r@[b].0@ by {
                    if b == before.len() {
                        assert(r@[a] == before[a]);
                        let j = choose|j: int|
                            0 <= j < i && entry_view(#[trigger] before[a]) == cv[j] && selected(
                                ex,
                                cv[j].0,
                                cv[j].1,
                                inserting,
                            );
                        assert(cv[j].0 != cv[i as int].0);
                    }
                }
                assert forall|t: int| 0 <= t < r@.len() implies exists|j: int|
                    0 <= j < i + 1 && entry_view(#[trigger] r@[t]) == cv[j] && selected(
                        ex,
                        cv[j].0,
                        cv[j].1,
                        inserting,
                    ) by {
                    if t < before.len() {
                        assert(r@[t] == before[t]);
                        let j = choose|j: int|
                            0 <= j < i && entry_view(#[trigger] before[t]) == cv[j] && selected(
                                ex,
                                cv[j].0,
                                cv[j].1,
                                inserting,
                            );
                        assert(0 <= j < i + 1);
                    } else {
                        assert(entry_view(r@[t]) == cv[i as int]);
                    }
                }
            }
        }
        proof {
            assert forall|j: int|
                0 <= j < i + 1 && selected(ex, #[trigger] cv[j].0, cv[j].1, inserting) implies exists|
                t: int,
            | 0 <= t < r@.len() && entry_view(r@[t]) == cv[j] by {
                if j < i {
                    let t = choose|t: int| 0 <= t < before.len() && entry_view(before[t]) == cv[j];
                    assert(r@[t] == before[t]);
                } else {
                    assert(entry_view(r@[before.len() as int]) == cv[j]);
                }
            }
        }
        i = i + 1;
    }
    proof {
        let cm = inventory_map(cv);
        let pm = planned_map(ex, cm, inserting);
        let rv = entries_view(r@);
        assert forall|t: int| 0 <= t < rv.len() implies #[trigger] pm.contains_key(rv[t].0) && pm[rv[t].0]
            == rv[t].1 by {
            assert(rv[t] == entry_view(r@[t]));
            let j = choose|j: int|
                0 <= j < cur.len() && entry_view(#[trigger] r@[t]) == cv[j] && selected(
                    ex,
                    cv[j].0,
                    cv[j].1,
                    inserting,
                );
            assert(cm.contains_key(cv[j].0));
        }
        assert forall|q: Seq<char>| #[trigger] pm.contains_key(q) implies exists|t: int|
            0 <= t < rv.len() && rv[t].0 == q by {
            let j = choose|j: int| 0 <= j < cv.len() && cv[j].0 == q;
            assert(cm.contains_key(cv[j].0));
            let t = choose|t: int| 0 <= t < r@.len() && entry_view(r@[t]) == cv[j];
            assert(rv[t].0 == q);
        }
        assert forall|a: int, b: int| 0 <= a < b < rv.len() implies rv[a].0 != rv[b].0 by {
            assert(rv[a].0 == r@[a].0@ && rv[b].0 == r@[b].0@);
        }
    }
    r
}

/// A list that represents a map has one entry per key of the map.
proof fn lemma_represents_len(v: Seq<(Seq<char>, i64)>, m: Map<Seq<char>, i64>)
    requires
        represents(v, m),
    ensures
        v.len() == m.dom().len(),
{
    let keys = v.map_values(|e: (Seq<char>, i64)| e.0);
    assert forall|i: int, j: int| 0 <= i < keys.len() && 0 <= j < keys.len() && i != j implies keys[i]
        != keys[j] by {
        if i < j {
            assert(v[i].0 != v[j].0);
        } else {
            assert(v[j].0 != v[i].0);
        }
    }
    assert(keys.to_set() =~= m.dom()) by {
        assert forall|p: Seq<char>| #[trigger] m.contains_key(p) implies keys.to_set().contains(p) by {
            let i = choose|i: int| 0 <= i < v.len() && v[i].0 == p;
            assert(keys[i] == p);
        }
        assert forall|p: Seq<char>| #[trigger] keys.to_set().contains(p) implies m.contains_key(p) by {
            let i = choose|i: int| 0 <= i < keys.len() && keys[i] == p;
            assert(m.contains_key(v[i].0));
        }
    }
    keys.unique_seq_to_set();
}

/// A list of rows with distinct paths lists the map it describes.
proof fn lemma_unique_entries_represent(v: Seq<(Seq<char>, i64)>)
    requires
        forall|i: int, j: int| 0 <= i < j < v.len() ==> v[i].0 != v[j].0,
    ensures
        represents(v, inventory_map(v)),
    decreases v.len(),
{
    if v.len() > 0 {
        let p = v.drop_last();
        lemma_unique_entries_represent(p);
        let m = inventory_map(v);
        assert forall|i: int| 0 <= i < v.len() implies #[trigger] m.contains_key(v[i].0) && m[v[i].0]
            == v[i].1 by {
            if i < v.len() - 1 {
                assert(p[i] == v[i]);
            }
        }
        assert forall|q: Seq<char>| #[trigger] m.contains_key(q) implies exists|i: int|
            0 <= i < v.len() && v[i].0 == q by {
            if q != v.last().0 {
                let i = choose|i: int| 0 <= i < p.len() && p[i].0 == q;
                assert(v[i] == p[i]);
            }
        }
    }
}

/// After a full pass the store holds exactly the inventory's paths; each keeps the later of its
/// stored and current modification times, and its row is written afresh, without embedding,
/// exactly when the store lacked it or held an earlier time.
pub proof fn lemma_full_sync_result(ex: Map<Seq<char>, i64>, cur: Map<Seq<char>, i64>, removed: Seq<
    Seq<char>,
>)
    ensures
        ({
            let after = store_after(
                ex,
                planned_deletes(ex, cur, removed, true),
                planned_inserts(ex, cur),
                planned_updates(ex, cur),
            );
            &&& after.dom() == cur.dom()
            &&& forall|p: Seq<char>|
                #[trigger] after.contains_key(p) ==> after[p] == if ex.contains_key(p) && cur[p]
                    <= ex[p] {
                    ex[p]
                } else {
                    cur[p]
                }
            &&& forall|p: Seq<char>|
                #[trigger] after.contains_key(p) ==> ((planned_inserts(ex, cur).contains_key(p)
                    || planned_updates(ex, cur).contains_key(p)) <==> !(ex.contains_key(p)
                    && cur[p] <= ex[p]))
        }),
{
    let after = store_after(
        ex,
        planned_deletes(ex, cur, removed, true),
        planned_inserts(ex, cur),
        planned_updates(ex, cur),
    );
    assert(after.dom() =~= cur.dom());
}

/// After a partial pass the store holds its former paths other than the removed ones, and the
/// inventory's paths it did not hold before.
pub proof fn lemma_partial_sync_result(ex: Map<Seq<char>, i64>, cur: Map<Seq<char>, i64>, removed: Seq<
    Seq<char>,
>)
    ensures
        store_after(
            ex,
            planned_deletes(ex, cur, removed, false),
            planned_inserts(ex, cur),
            planned_updates(ex, cur),
        ).dom() == ex.dom().difference(removed.to_set()).union(cur.dom().difference(ex.dom())),
{
    let after = store_after(
        ex,
        planned_deletes(ex, cur, removed, false),
        planned_inserts(ex, cur),
        planned_updates(ex, cur),
    );
    assert(after.dom() =~= ex.dom().difference(removed.to_set()).union(
        cur.dom().difference(ex.dom()),
    ));
}

/// The counts a pass reports: it inserts one row per inventory path the store lacked, and
/// deletes one row per planned path the store held, which in a full pass is every stored path
/// the inventory lacks and otherwise every removed path the store held. The store then holds as
/// many rows as before, less those deleted, plus those inserted.
pub proof fn lemma_sync_counts(
    ex: Map<Seq<char>, i64>,
    cur: Map<Seq<char>, i64>,
    removed: Seq<Seq<char>>,
    full: bool,
)
    requires
        ex.dom().finite(),
        cur.dom().finite(),
    ensures
        planned_inserts(ex, cur).dom() == cur.dom().difference(ex.dom()),
        planned_deletes(ex, cur, removed, full).intersect(ex.dom()) == if full {
            ex.dom().difference(cur.dom())
        } else {
            removed.to_set().intersect(ex.dom())
        },
        store_after(
            ex,
            planned_deletes(ex, cur, removed, full),
            planned_inserts(ex, cur),
            planned_updates(ex, cur),
        ).dom().len() == ex.dom().len() - planned_deletes(ex, cur, removed, full).intersect(
            ex.dom(),
        ).len() + planned_inserts(ex, cur).dom().len(),
{
    let d = planned_deletes(ex, cur, removed, full);
    let ins = planned_inserts(ex, cur);
    let after = store_after(ex, d, ins, planned_updates(ex, cur));
    let kept = ex.dom().difference(d);
    let fresh = cur.dom().difference(ex.dom());
    assert(ins.dom() =~= fresh);
    if full {
        assert(d.intersect(ex.dom()) =~= ex.dom().difference(cur.dom()));
    } else {
        assert(d.intersect(ex.dom()) =~= removed.to_set().intersect(ex.dom()));
    }
    assert(after.dom() =~= kept + fresh);
    assert(kept.disjoint(fresh));
    vstd::set_lib::lemma_set_disjoint_lens(kept, fresh);
    assert(d.finite()) by {
        if !full {
            vstd::seq_lib::seq_to_set_is_finite(removed);
        }
    }
    vstd::set_lib::lemma_set_difference_len(ex.dom(), d);
    assert(ex.dom().intersect(d) =~= d.intersect(ex.dom()));
}

/// A second full pass with the same inventory plans nothing.
pub proof fn lemma_full_sync_idempotent(ex: Map<Seq<char>, i64>, cur: Map<Seq<char>, i64>, removed: Seq<
    Seq<char>,
>)
    ensures
        ({
            let after = store_after(
                ex,
                planned_deletes(ex, cur, removed, true),
                planned_inserts(ex, cur),
                planned_updates(ex, cur),
            );
            &&& planned_deletes(after, cur, removed, true).is_empty()
            &&& planned_inserts(after, cur).is_empty()
            &&& planned_updates(after, cur).is_empty()
        }),
{
    lemma_full_sync_result(ex, cur, removed);
    let after = store_after(
        ex,
        planned_deletes(ex, cur, removed, true),
        planned_inserts(ex, cur),
        planned_updates(ex, cur),
    );
    assert(planned_deletes(after, cur, removed, true) =~= Set::empty());
    assert(planned_inserts(after, cur) =~= Map::empty());
    assert(planned_updates(after, cur) =~= Map::empty());
}

} // verus!
