//! Ordered maps and sets of positions, read out in ascending order.

use std::collections::{BTreeMap, BTreeSet};

use vstd::prelude::*;

verus! {

/// `v` lists the entries of `m`, by ascending key.
pub open spec fn lists_map(v: Seq<(usize, u32)>, m: Map<usize, u32>) -> bool {
    &&& forall|i: int, j: int| 0 <= i < j < v.len() ==> (#[trigger] v[i]).0 < (#[trigger] v[j]).0
    &&& forall|i: int|
        0 <= i < v.len() ==> m.contains_key((#[trigger] v[i]).0) && m[v[i].0] == v[i].1
    &&& forall|k: usize| #[trigger]
        m.contains_key(k) ==> exists|i: int| 0 <= i < v.len() && (#[trigger] v[i]).0 == k
}

/// `v` lists the members of `s`, in ascending order.
pub open spec fn lists_set(v: Seq<usize>, s: Set<usize>) -> bool {
    &&& forall|i: int, j: int| 0 <= i < j < v.len() ==> #[trigger] v[i] < #[trigger] v[j]
    &&& forall|k: usize| s.contains(k) <==> v.contains(k)
}

/// Positions have the order that the collections go by.
pub proof fn lemma_positions_are_ordered()
    ensures
        vstd::laws_cmp::obeys_cmp::<usize>(),
        vstd::std_specs::btree::key_obeys_cmp_spec::<usize>(),
{
}

proof fn lemma_increasing(s: Seq<usize>)
    requires
        vstd::std_specs::btree::increasing_seq(s),
    ensures
        forall|i: int, j: int| 0 <= i < j < s.len() ==> #[trigger] s[i] < #[trigger] s[j],
{
    lemma_positions_are_ordered();
    assert forall|i: int, j: int| 0 <= i < j < s.len() implies #[trigger] s[i] < #[trigger] s[j] by {
        assert(vstd::std_specs::cmp::OrdSpec::cmp_spec(&s[i], &s[j]) is Less);
    }
}

proof fn lemma_increasing_refs(s: Seq<&usize>)
    requires
        vstd::std_specs::btree::increasing_seq(s),
    ensures
        forall|i: int, j: int| 0 <= i < j < s.len() ==> *(#[trigger] s[i]) < *(#[trigger] s[j]),
{
    lemma_positions_are_ordered();
    assert(vstd::laws_cmp::obeys_cmp::<&usize>());
    assert forall|i: int, j: int| 0 <= i < j < s.len() implies *(#[trigger] s[i]) < *(#[trigger] s[j]) by {
        assert(vstd::std_specs::cmp::OrdSpec::cmp_spec(&s[i], &s[j]) is Less);
    }
}

/// The entries of a map, by ascending key.
pub fn map_entries(m: &BTreeMap<usize, u32>) -> (v: Vec<(usize, u32)>)
    ensures
        lists_map(v@, m@),
{
    let mut v: Vec<(usize, u32)> = Vec::new();
    proof {
        lemma_positions_are_ordered();
    }
    let it0 = m.iter();
    let ghost seq0 = vstd::std_specs::iter::IteratorSpec::remaining(&it0);
    for p in it: it0
        invariant
            it.seq() == seq0,
            v@ == seq0.take(it.index() as int).map_values(|q: (&usize, &u32)| (*q.0, *q.1)),
    {
        v.push((*p.0, *p.1));
        assert(v@ =~= seq0.take(it.index() + 1).map_values(|q: (&usize, &u32)| (*q.0, *q.1)));
    }
    proof {
        assert(seq0.take(seq0.len() as int) =~= seq0);
        let keys = seq0.map_values(|kv: (&usize, &u32)| *kv.0);
        lemma_increasing(keys);
        assert forall|i: int, j: int| 0 <= i < j < v@.len() implies (#[trigger] v@[i]).0 < (
        #[trigger] v@[j]).0 by {
            assert(keys[i] == v@[i].0 && keys[j] == v@[j].0);
        }
        assert forall|i: int| 0 <= i < v@.len() implies m@.contains_key((#[trigger] v@[i]).0)
            && m@[v@[i].0] == v@[i].1 by {
            assert(m@.contains_key(*seq0[i].0));
        }
        assert forall|k: usize| #[trigger] m@.contains_key(k) implies exists|i: int|
            0 <= i < v@.len() && (#[trigger] v@[i]).0 == k by {
            assert(seq0.contains((&k, &m@[k])));
            let i = choose|i: int| 0 <= i < seq0.len() && seq0[i] == (&k, &m@[k]);
            assert(v@[i].0 == k);
        }
    }
    v
}

/// The members of a set, in ascending order.
pub fn set_items(s: &BTreeSet<usize>) -> (v: Vec<usize>)
    ensures
        lists_set(v@, s@),
{
    let mut v: Vec<usize> = Vec::new();
    proof {
        lemma_positions_are_ordered();
    }
    let it0 = s.iter();
    let ghost seq0 = vstd::std_specs::iter::IteratorSpec::remaining(&it0);
    for p in it: it0
        invariant
            it.seq() == seq0,
            v@ == seq0.take(it.index() as int).unref(),
    {
        v.push(*p);
        assert(v@ =~= seq0.take(it.index() + 1).unref());
    }
    proof {
        assert(seq0.take(seq0.len() as int) =~= seq0);
        lemma_increasing_refs(seq0);
        assert forall|i: int, j: int| 0 <= i < j < v@.len() implies #[trigger] v@[i]
            < #[trigger] v@[j] by {
            assert(*seq0[i] == v@[i] && *seq0[j] == v@[j]);
        }
        assert(v@ == seq0.unref());
        assert forall|k: usize| s@.contains(k) <==> v@.contains(k) by {
            assert(seq0.unref().to_set().contains(k) <==> seq0.unref().contains(k));
        }
    }
    v
}

/// Put an entry into a map.
pub fn map_insert<V>(m: &mut BTreeMap<usize, V>, k: usize, v: V)
    ensures
        final(m)@ == old(m)@.insert(k, v),
{
    proof {
        lemma_positions_are_ordered();
    }
    m.insert(k, v);
}

/// What a map holds for a key.
pub fn map_get(m: &BTreeMap<usize, u32>, k: usize) -> (r: Option<u32>)
    ensures
        r == if m@.contains_key(k) {
            Some(m@[k])
        } else {
            None
        },
{
    proof {
        lemma_positions_are_ordered();
    }
    match m.get(&k) {
        Some(v) => Some(*v),
        None => None,
    }
}

/// A copy of the sizes that a map holds for a key; none where it has no entry.
pub fn sizes_or_none(m: &BTreeMap<usize, BTreeMap<usize, u32>>, k: usize) -> (r: BTreeMap<usize, u32>)
    ensures
        r@ == if m@.contains_key(k) {
            m@[k]@
        } else {
            Map::empty()
        },
{
    proof {
        lemma_positions_are_ordered();
    }
    match m.get(&k) {
        Some(v) => clone_map(v),
        None => BTreeMap::new(),
    }
}

/// A copy of the lines that a map holds for a key; none where it has no entry.
pub fn lines_or_none(m: &BTreeMap<usize, BTreeSet<usize>>, k: usize) -> (r: BTreeSet<usize>)
    ensures
        r@ == if m@.contains_key(k) {
            m@[k]@
        } else {
            Set::empty()
        },
{
    proof {
        lemma_positions_are_ordered();
    }
    match m.get(&k) {
        Some(v) => clone_set(v),
        None => BTreeSet::new(),
    }
}

/// Take an entry out of a map.
pub fn map_remove(m: &mut BTreeMap<usize, u32>, k: usize)
    ensures
        final(m)@ == old(m)@.remove(k),
{
    proof {
        lemma_positions_are_ordered();
    }
    m.remove(&k);
}

/// Whether a set has a member.
pub fn set_has(s: &BTreeSet<usize>, k: usize) -> (r: bool)
    ensures
        r == s@.contains(k),
{
    proof {
        lemma_positions_are_ordered();
    }
    s.contains(&k)
}

/// Put a member into a set.
pub fn set_insert(s: &mut BTreeSet<usize>, k: usize)
    ensures
        final(s)@ == old(s)@.insert(k),
{
    proof {
        lemma_positions_are_ordered();
    }
    s.insert(k);
}

/// A copy of a map.
pub fn clone_map(m: &BTreeMap<usize, u32>) -> (r: BTreeMap<usize, u32>)
    ensures
        r@ == m@,
{
    m.clone()
}

/// A copy of a set.
pub fn clone_set(s: &BTreeSet<usize>) -> (r: BTreeSet<usize>)
    ensures
        r@ == s@,
{
    s.clone()
}

} // verus!
