//! Reading a `BTreeSet` of integer pairs back in ascending order.
use std::collections::BTreeSet;
use vstd::prelude::*;
use vstd::std_specs::btree::{axiom_increasing_seq_meaning, increasing_seq, spec_btree_keys_iter};
use vstd::std_specs::cmp::OrdSpec;
use vstd::std_specs::iter::IteratorSpec;

verus! {

broadcast use vstd::std_specs::btree::group_btree_axioms, vstd::laws_cmp::group_laws_cmp;

/// `a` comes strictly before `b` in the lexicographic order of pairs.
pub open spec fn pair_lt(a: (i32, u8), b: (i32, u8)) -> bool {
    a.0 < b.0 || (a.0 == b.0 && a.1 < b.1)
}

/// The sequence is strictly ascending in the lexicographic order of pairs.
pub open spec fn pairs_ascending(q: Seq<(i32, u8)>) -> bool {
    forall|i: int, j: int| 0 <= i < j < q.len() ==> pair_lt(#[trigger] q[i], #[trigger] q[j])
}

proof fn lemma_increasing_pairs(q: Seq<&(i32, u8)>)
    requires
        increasing_seq(q),
    ensures
        forall|i: int, j: int|
            0 <= i < j < q.len() ==> pair_lt(*#[trigger] q[i], *#[trigger] q[j]),
{
    assert(vstd::laws_cmp::obeys_cmp::<(i32, u8)>());
    assert(vstd::laws_cmp::obeys_cmp::<&(i32, u8)>());
    axiom_increasing_seq_meaning(q);
    assert forall|i: int, j: int| 0 <= i < j < q.len() implies pair_lt(*q[i], *q[j]) by {
        assert(OrdSpec::cmp_spec(&q[i], &q[j]) is Less);
    }
}

/// The elements of the set, in ascending order.
pub fn ascending_entries(set: &BTreeSet<(i32, u8)>) -> (v: Vec<(i32, u8)>)
    ensures
        v@.to_set() == set@,
        pairs_ascending(v@),
{
    let mut v: Vec<(i32, u8)> = Vec::new();
    let ghost q0 = spec_btree_keys_iter(set).remaining();
    for x in it: set.iter()
        invariant
            it.seq() == q0,
            v@ == it.seq().take(it.index() as int).map_values(|p: &(i32, u8)| *p),
    {
        v.push(*x);
    }
    proof {
        let q = q0.map_values(|p: &(i32, u8)| *p);
        assert(q0.take(q0.len() as int) =~= q0);
        assert(v@ =~= q);
        assert(q =~= q0.unref());
        lemma_increasing_pairs(q0);
    }
    v
}

/// Inserts a pair into the set.
pub fn insert_entry(set: &mut BTreeSet<(i32, u8)>, entry: (i32, u8))
    ensures
        final(set)@ == old(set)@.insert(entry),
{
    set.insert(entry);
}

} // verus!
