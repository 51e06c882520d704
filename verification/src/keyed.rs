//! Lists of entries keyed by text, used as maps: the map a list describes (a later entry for a
//! key replaces an earlier one), and lists that hold each key once.
use vstd::prelude::*;
use crate::path_utils::text_eq;

verus! {

/// The value of a list of keyed entries.
pub open spec fn keyed_view<V: View>(v: Seq<(String, V)>) -> Seq<(Seq<char>, V::V)> {
    v.map_values(|e: (String, V)| (e.0@, e.1@))
}

/// The map a list of entries describes; a later entry for a key replaces an earlier one.
pub open spec fn assoc<W>(entries: Seq<(Seq<char>, W)>) -> Map<Seq<char>, W>
    decreases entries.len(),
{
    if entries.len() == 0 {
        Map::empty()
    } else {
        assoc(entries.drop_last()).insert(entries.last().0, entries.last().1)
    }
}

/// No key occurs twice in the list.
pub open spec fn keys_unique<W>(v: Seq<(Seq<char>, W)>) -> bool {
    forall|i: int, j: int| 0 <= i < j < v.len() ==> v[i].0 != v[j].0
}

/// `v` lists the entries of `m`, each key once.
pub open spec fn lists<W>(v: Seq<(Seq<char>, W)>, m: Map<Seq<char>, W>) -> bool {
    &&& keys_unique(v)
    &&& forall|i: int| 0 <= i < v.len() ==> #[trigger] m.contains_key(v[i].0) && m[v[i].0] == v[i].1
    &&& forall|p: Seq<char>| #[trigger] m.contains_key(p) ==> exists|i: int|
        0 <= i < v.len() && v[i].0 == p
}

/// The map of two lists one after the other: the second's entries win.
pub proof fn lemma_assoc_concat<W>(a: Seq<(Seq<char>, W)>, b: Seq<(Seq<char>, W)>)
    ensures
        assoc(a + b) == assoc(a).union_prefer_right(assoc(b)),
    decreases b.len(),
{
    if b.len() == 0 {
        assert(a + b == a);
        assert(assoc(a).union_prefer_right(assoc(b)) =~= assoc(a));
    } else {
        assert((a + b).drop_last() == a + b.drop_last());
        lemma_assoc_concat(a, b.drop_last());
        assert(assoc(a + b) =~= assoc(a).union_prefer_right(assoc(b)));
    }
}

/// A list with distinct keys lists the map it describes.
pub proof fn lemma_unique_lists<W>(v: Seq<(Seq<char>, W)>)
    requires
        keys_unique(v),
    ensures
        lists(v, assoc(v)),
    decreases v.len(),
{
    if v.len() > 0 {
        let p = v.drop_last();
        lemma_unique_lists(p);
        let m = assoc(v);
        assert forall|i: int| 0 <= i < v.len() implies #[trigger] m.contains_key(v[i].0) && m[v[i].0]
            == v[i].1 by {
            if i < v.len() - 1 {
                assert(p[i] == v[i]);
            }
        }
        assert forall|q: Seq<char>| #[trigger] m.contains_key(q) implies exists|i: int|
            0 <= i < v.len() && v[i].0 == q by {
            if q != v.last().0 {
                let i = choose|i: int| 0 <= i < p.len() && p[i].0 == q;
                assert(v[i] == p[i]);
            }
        }
    }
}

/// A key missing from a list is missing from the map it lists.
pub proof fn lemma_lists_absent<W>(v: Seq<(Seq<char>, W)>, m: Map<Seq<char>, W>, key: Seq<char>)
    requires
        lists(v, m),
        forall|i: int| 0 <= i < v.len() ==> v[i].0 != key,
    ensures
        !m.contains_key(key),
{
}

/// Appending a key the map lacks keeps the list listing the extended map.
pub proof fn lemma_lists_push<W>(v: Seq<(Seq<char>, W)>, m: Map<Seq<char>, W>, key: Seq<char>, val: W)
    requires
        lists(v, m),
        !m.contains_key(key),
    ensures
        lists(v.push((key, val)), m.insert(key, val)),
{
    let w = v.push((key, val));
    let n = m.insert(key, val);
    assert forall|i: int| 0 <= i < v.len() implies #[trigger] v[i].0 != key by {
        assert(m.contains_key(v[i].0));
    }
    assert forall|i: int| 0 <= i < w.len() implies #[trigger] n.contains_key(w[i].0) && n[w[i].0]
        == w[i].1 by {
        if i < v.len() {
            assert(w[i] == v[i]);
            assert(m.contains_key(v[i].0));
        }
    }
    assert forall|p: Seq<char>| #[trigger] n.contains_key(p) implies exists|i: int|
        0 <= i < w.len() && w[i].0 == p by {
        if p == key {
            assert(w[v.len() as int].0 == p);
        } else {
            let i = choose|i: int| 0 <= i < v.len() && v[i].0 == p;
            assert(w[i].0 == p);
        }
    }
}

/// Removing the entry at `k` keeps the list listing the map without its key.
pub proof fn lemma_lists_remove<W>(v: Seq<(Seq<char>, W)>, m: Map<Seq<char>, W>, k: int)
    requires
        lists(v, m),
        0 <= k < v.len(),
    ensures
        lists(v.remove(k), m.remove(v[k].0)),
{
    let key = v[k].0;
    let w = v.remove(k);
    let n = m.remove(key);
    assert forall|i: int| 0 <= i < w.len() implies #[trigger] n.contains_key(w[i].0) && n[w[i].0]
        == w[i].1 by {
        if i < k {
            assert(w[i] == v[i]);
            assert(m.contains_key(v[i].0));
        } else {
            assert(w[i] == v[i + 1]);
            assert(m.contains_key(v[i + 1].0));
        }
    }
    assert forall|p: Seq<char>| #[trigger] n.contains_key(p) implies exists|i: int|
        0 <= i < w.len() && w[i].0 == p by {
        let i = choose|i: int| 0 <= i < v.len() && v[i].0 == p;
        if i < k {
            assert(w[i].0 == p);
        } else {
            assert(i != k);
            assert(w[i - 1].0 == p);
        }
    }
}

/// Two maps that the same list lists are equal.
pub proof fn lemma_lists_same_map<W>(v: Seq<(Seq<char>, W)>, m1: Map<Seq<char>, W>, m2: Map<Seq<char>, W>)
    requires
        lists(v, m1),
        lists(v, m2),
    ensures
        m1 == m2,
{
    assert forall|p: Seq<char>| m1.contains_key(p) implies m2.contains_key(p) && m1[p] == m2[p] by {
        let i = choose|i: int| 0 <= i < v.len() && v[i].0 == p;
        assert(m2.contains_key(v[i].0));
    }
    assert forall|p: Seq<char>| m2.contains_key(p) implies m1.contains_key(p) by {
        let i = choose|i: int| 0 <= i < v.len() && v[i].0 == p;
        assert(m1.contains_key(v[i].0));
    }
    assert(m1 =~= m2);
}

/// The index of the entry with this key, if there is one.
pub fn find_key<V: View>(v: &Vec<(String, V)>, key: &str) -> (r: Option<usize>)
    ensures
        r matches Some(k) ==> k < v.len() && v@[k as int].0@ == key@ && keyed_view(v@)[k as int].0
            == key@,
        r is None ==> forall|i: int| 0 <= i < keyed_view(v@).len() ==> keyed_view(v@)[i].0 != key@,
{
    let mut i: usize = 0;
    while i < v.len()
        invariant
            i <= v.len(),
            forall|j: int| 0 <= j < i ==> (#[trigger] v@[j]).0@ != key@,
        decreases v.len() - i,
    {
        if text_eq(v[i].0.as_str(), key) {
            assert(keyed_view(v@)[i as int].0 == v@[i as int].0@);
            return Some(i);
        }
        i = i + 1;
    }
    assert forall|j: int| 0 <= j < keyed_view(v@).len() implies keyed_view(v@)[j].0 != key@ by {
        assert(keyed_view(v@)[j].0 == v@[j].0@);
    }
    None
}

/// The entries of `entries` with each key once, holding the value of the key's last entry.
pub fn dedup_last_wins<V: View>(entries: Vec<(String, V)>) -> (out: Vec<(String, V)>)
    ensures
        lists(keyed_view(out@), assoc(keyed_view(entries@))),
{
    let ghost orig = keyed_view(entries@);
    let mut src = entries;
    let mut out: Vec<(String, V)> = Vec::new();
    proof {
        assert(keyed_view(src@) == orig);
        assert(orig.skip(orig.len() as int) =~= Seq::<(Seq<char>, V::V)>::empty());
        assert(keyed_view(out@) =~= Seq::<(Seq<char>, V::V)>::empty());
    }
    while src.len() > 0
        invariant
            src@.len() <= orig.len(),
            keyed_view(src@) == orig.take(src@.len() as int),
            lists(keyed_view(out@), assoc(orig.skip(src@.len() as int))),
        decreases src.len(),
    {
        let ghost n = src@.len() as int;
        let e = src.pop().unwrap();
        let ghost ev = (e.0@, e.1@);
        proof {
            assert(orig.take(n)[n - 1] == keyed_view(old_src_helper(src@, e))[n - 1]);
            assert(orig[n - 1] == ev);
            assert(keyed_view(src@) =~= orig.take(n - 1));
            assert(orig.skip(n - 1) =~= seq![ev] + orig.skip(n));
            lemma_assoc_concat(seq![ev], orig.skip(n));
            assert(seq![ev].drop_last() =~= Seq::<(Seq<char>, V::V)>::empty());
            assert(assoc(seq![ev].drop_last()) == Map::<Seq<char>, V::V>::empty());
            assert(assoc(seq![ev]) =~= Map::<Seq<char>, V::V>::empty().insert(ev.0, ev.1));
        }
        let ghost before = keyed_view(out@);
        let ghost mb = assoc(orig.skip(n));
        match find_key(&out, e.0.as_str()) {
            Some(k) => {
                proof {
                    assert(mb.contains_key(before[k as int].0));
                    assert(assoc(seq![ev]).union_prefer_right(mb) =~= mb);
                }
            },
            None => {
                proof {
                    lemma_lists_absent(before, mb, ev.0);
                    lemma_lists_push(before, mb, ev.0, ev.1);
                    assert(assoc(seq![ev]).union_prefer_right(mb) =~= mb.insert(ev.0, ev.1));
                }
                out.push(e);
                proof {
                    assert(keyed_view(out@) =~= before.push(ev));
                }
            },
        }
    }
    proof {
        assert(orig.skip(0) == orig);
    }
    out
}

/// The list before its last entry was popped.
spec fn old_src_helper<V>(rest: Seq<(String, V)>, last: (String, V)) -> Seq<(String, V)> {
    rest.push(last)
}

} // verus!
