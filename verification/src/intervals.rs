//! Sets of sign boundaries and the intervals of uniform sign between them.
use std::collections::BTreeSet;
use vstd::prelude::*;
use crate::boundary::SignBoundary;
use crate::btree_order::{ascending_entries, insert_entry, pair_lt, pairs_ascending};
use crate::interval::SignUniformInterval;
use crate::listing::{
    is_listing, lemma_listing_is_sorted_listing, pairs_of, sorted_listing, strictly_sorted,
};
use crate::sign::{sign_rank, Sign};

verus! {

/// The sign of a rank in the order `Top < Negative < Positive < Bottom`.
pub open spec fn sign_of_rank(r: u8) -> Sign {
    if r == 0 {
        Sign::Top
    } else if r == 1 {
        Sign::Negative
    } else if r == 2 {
        Sign::Positive
    } else {
        Sign::Bottom
    }
}

/// The boundary that a stored entry (position, sign rank) stands for.
pub open spec fn boundary_of_entry(t: (i32, u8)) -> SignBoundary {
    SignBoundary { min: t.0, sign: sign_of_rank(t.1) }
}

/// The stored entry of a boundary.
pub open spec fn entry_of_boundary(b: SignBoundary) -> (i32, u8) {
    (b.min, sign_rank(b.sign) as u8)
}

fn sign_from_rank(r: u8) -> (s: Sign)
    ensures
        s == sign_of_rank(r),
{
    if r == 0 {
        Sign::Top
    } else if r == 1 {
        Sign::Negative
    } else if r == 2 {
        Sign::Positive
    } else {
        Sign::Bottom
    }
}

/// The interval's open range meets the open range `(range.0, range.1)`.
pub open spec fn meets_range(i: SignUniformInterval, range: (i32, i32)) -> bool {
    i.left.min < range.1 && i.right.min > range.0
}

/// The intervals of `p` whose open range meets the open range `(range.0, range.1)`, in order.
pub open spec fn intervals_in_range(p: Seq<SignUniformInterval>, range: (i32, i32)) -> Seq<
    SignUniformInterval,
>
    decreases p.len(),
{
    if p.len() == 0 {
        Seq::empty()
    } else {
        intervals_in_range(p.drop_last(), range) + if meets_range(p.last(), range) {
            seq![p.last()]
        } else {
            Seq::empty()
        }
    }
}

/// A set of sign boundaries, held in ascending order.
#[derive(Debug)]
pub struct SignUniformIntervals {
    boundaries: BTreeSet<(i32, u8)>,
}

impl View for SignUniformIntervals {
    type V = Set<SignBoundary>;

    closed spec fn view(&self) -> Set<SignBoundary> {
        self.boundaries@.map(|t: (i32, u8)| boundary_of_entry(t))
    }
}

proof fn lemma_entry_round_trip(b: SignBoundary)
    ensures
        boundary_of_entry(entry_of_boundary(b)) == b,
        entry_of_boundary(b).1 <= 3,
{
}

proof fn lemma_map_insert(s: Set<(i32, u8)>, t: (i32, u8))
    ensures
        s.insert(t).map(|e: (i32, u8)| boundary_of_entry(e)) == s.map(
            |e: (i32, u8)| boundary_of_entry(e),
        ).insert(boundary_of_entry(t)),
{
    let f = |e: (i32, u8)| boundary_of_entry(e);
    assert forall|x: SignBoundary| #[trigger]
        s.insert(t).map(f).contains(x) <==> s.map(f).insert(boundary_of_entry(t)).contains(x) by {
        if s.insert(t).map(f).contains(x) {
            let y = choose|y: (i32, u8)| s.insert(t).contains(y) && x == f(y);
            if y != t {
                assert(s.contains(y));
                assert(s.map(f).contains(f(y)));
            }
        }
        if s.map(f).insert(boundary_of_entry(t)).contains(x) {
            if x != boundary_of_entry(t) {
                let y = choose|y: (i32, u8)| s.contains(y) && x == f(y);
                assert(s.insert(t).contains(y));
            } else {
                assert(s.insert(t).contains(t));
            }
        }
    }
    assert(s.insert(t).map(f) =~= s.map(f).insert(boundary_of_entry(t)));
}

impl SignUniformIntervals {
    #[verifier::type_invariant]
    spec fn entries_valid(self) -> bool {
        forall|t: (i32, u8)| #[trigger] self.boundaries@.contains(t) ==> t.1 <= 3
    }

    /// Inserts a boundary into the intervals.
    pub fn insert_boundary(&mut self, boundary: SignBoundary)
        ensures
            final(self)@ == old(self)@.insert(boundary),
    {
        proof {
            use_type_invariant(&*self);
            lemma_entry_round_trip(boundary);
            lemma_map_insert(self.boundaries@, entry_of_boundary(boundary));
        }
        let entry = (boundary.min, boundary.sign.rank());
        let mut set: BTreeSet<(i32, u8)> = BTreeSet::new();
        std::mem::swap(&mut set, &mut self.boundaries);
        insert_entry(&mut set, entry);
        self.boundaries = set;
    }

    /// Inserts an interval into the intervals: both of its boundaries.
    pub fn insert_interval(&mut self, interval: SignUniformInterval)
        ensures
            final(self)@ == old(self)@.insert(interval.left).insert(interval.right),
    {
        self.insert_boundary(interval.left);
        self.insert_boundary(interval.right);
    }

    /// The boundaries in ascending order.
    fn sorted_boundaries(&self) -> (r: Vec<SignBoundary>)
        ensures
            is_listing(r@, self@),
            r@ == sorted_listing(self@),
    {
        proof {
            use_type_invariant(self);
        }
        let entries = ascending_entries(&self.boundaries);
        let mut r: Vec<SignBoundary> = Vec::new();
        let mut i: usize = 0;
        while i < entries.len()
            invariant
                i <= entries@.len(),
                r@.len() == i,
                forall|k: int| 0 <= k < i ==> #[trigger] r@[k] == boundary_of_entry(entries@[k]),
            decreases entries@.len() - i,
        {
            let (min, rank) = entries[i];
            r.push(SignBoundary { min, sign: sign_from_rank(rank) });
            i = i + 1;
        }
        proof {
            let f = |e: (i32, u8)| boundary_of_entry(e);
            assert forall|k: int| 0 <= k < entries@.len() implies #[trigger] entries@[k].1 <= 3 by {
                assert(entries@.to_set().contains(entries@[k]));
            }
            assert forall|a: int, b: int| 0 <= a < b < r@.len() implies crate::boundary::boundary_lt(
                #[trigger] r@[a],
                #[trigger] r@[b],
            ) by {
                assert(pair_lt(entries@[a], entries@[b]));
                assert(entries@[a].1 <= 3 && entries@[b].1 <= 3);
            }
            assert(strictly_sorted(r@));
            assert forall|x: SignBoundary| #[trigger] r@.to_set().contains(x) <==> self@.contains(x) by {
                if r@.to_set().contains(x) {
                    let k = choose|k: int| 0 <= k < r@.len() && r@[k] == x;
                    assert(entries@.to_set().contains(entries@[k]));
                    assert(self.boundaries@.contains(entries@[k]));
                    assert(x == f(entries@[k]));
                }
                if self@.contains(x) {
                    let y = choose|y: (i32, u8)| self.boundaries@.contains(y) && x == f(y);
                    assert(entries@.to_set().contains(y));
                    let k = choose|k: int| 0 <= k < entries@.len() && entries@[k] == y;
                    assert(r@[k] == x);
                    assert(r@.contains(x));
                }
            }
            assert(r@.to_set() =~= self@);
            lemma_listing_is_sorted_listing(r@, self@);
        }
        r
    }

    /// Queries a given open range for all of the different sign intervals that exist within it:
    /// the intervals between consecutive boundaries (from `top` to `bottom`) whose open range
    /// meets `(range.0, range.1)`, in order.
    ///
    /// The current implementation is O(n) where n is the number of boundaries in the intervals.
    pub fn in_range(&self, range: (i32, i32)) -> (r: Vec<SignUniformInterval>)
        ensures
            is_listing(sorted_listing(self@), self@),
            r@ == intervals_in_range(pairs_of(sorted_listing(self@)), range),
    {
        let all = self.clone().into_iter().collect();
        let mut intervals: Vec<SignUniformInterval> = Vec::new();
        let mut i: usize = 0;
        while i < all.len()
            invariant
                i <= all@.len(),
                intervals@ == intervals_in_range(all@.take(i as int), range),
            decreases all@.len() - i,
        {
            let interval = all[i];
            if interval.left.min < range.1 && interval.right.min > range.0 {
                intervals.push(interval);
            }
            assert(all@.take(i + 1).drop_last() =~= all@.take(i as int));
            i = i + 1;
        }
        assert(all@.take(i as int) =~= all@);
        intervals
    }

    /// The intervals between consecutive boundaries, from `top` to `bottom`, as an iterator.
    pub fn into_iter(self) -> (r: SignUniformIntervalsIterator)
        ensures
            is_listing(sorted_listing(self@), self@),
            r.remaining() == pairs_of(sorted_listing(self@)),
    {
        let intervals = self.sorted_boundaries();
        let r = SignUniformIntervalsIterator { intervals, index: 0, emitted_top: false };
        assert(pairs_of(intervals@).skip(0) =~= pairs_of(intervals@));
        r
    }
}

impl Default for SignUniformIntervals {
    /// No boundaries.
    fn default() -> (r: Self)
        ensures
            r@ == Set::<SignBoundary>::empty(),
    {
        let r = SignUniformIntervals { boundaries: BTreeSet::new() };
        assert(r@ =~= Set::<SignBoundary>::empty());
        r
    }
}

impl Clone for SignUniformIntervals {
    /// The same boundaries.
    fn clone(&self) -> (r: Self)
        ensures
            r@ == self@,
    {
        proof {
            use_type_invariant(self);
        }
        SignUniformIntervals { boundaries: self.boundaries.clone() }
    }
}

/// Iterates left, right pairs beginning with the top constant, then through the members of the
/// set, then ending with the bottom constant.
pub struct SignUniformIntervalsIterator {
    intervals: Vec<SignBoundary>,
    index: usize,
    emitted_top: bool,
}

impl SignUniformIntervalsIterator {
    #[verifier::type_invariant]
    spec fn position_valid(self) -> bool {
        &&& self.index <= self.intervals.len()
        &&& !self.emitted_top ==> self.index == 0
    }

    /// How many intervals have been handed out.
    closed spec fn emitted(self) -> int {
        if self.emitted_top {
            self.index + 1
        } else {
            0
        }
    }

    /// The intervals that are still to come, in order.
    pub closed spec fn remaining(self) -> Seq<SignUniformInterval> {
        pairs_of(self.intervals@).skip(self.emitted())
    }

    /// The next interval, if any is left.
    pub fn next(&mut self) -> (r: Option<SignUniformInterval>)
        ensures
            old(self).remaining().len() == 0 ==> r is None && final(self).remaining() == old(
                self,
            ).remaining(),
            old(self).remaining().len() > 0 ==> r == Some(old(self).remaining()[0])
                && final(self).remaining() == old(self).remaining().drop_first(),
    {
        proof {
            use_type_invariant(&*self);
        }
        let ghost q = self.intervals@;
        let ghost before = old(self).remaining();
        if self.intervals.len() == 0 {
            if !self.emitted_top {
                self.emitted_top = true;
                assert(final(self).remaining() =~= before.drop_first());
                return Some(SignUniformInterval { left: SignBoundary::top(), right: SignBoundary::bottom() });
            }
            return None;
        }
        if !self.emitted_top {
            self.emitted_top = true;
            // first pair: (top, first element)
            assert(final(self).remaining() =~= before.drop_first());
            return Some(SignUniformInterval { left: SignBoundary::top(), right: self.intervals[0] });
        }
        if self.index < self.intervals.len() - 1 {
            // middle pairs: (element i, element i + 1)
            let left = self.intervals[self.index];
            let right = self.intervals[self.index + 1];
            self.index = self.index + 1;
            assert(final(self).remaining() =~= before.drop_first());
            return Some(SignUniformInterval { left, right });
        }
        if self.index < self.intervals.len() {
            // last pair: (last element, bottom)
            let left = self.intervals[self.index];
            self.index = self.index + 1;
            assert(final(self).remaining() =~= before.drop_first());
            return Some(SignUniformInterval { left, right: SignBoundary::bottom() });
        }
        None
    }

    /// All of the remaining intervals, in order.
    pub fn collect(self) -> (r: Vec<SignUniformInterval>)
        ensures
            r@ == self.remaining(),
    {
        let ghost all = self.remaining();
        let mut iter = self;
        let mut r: Vec<SignUniformInterval> = Vec::new();
        loop
            invariant
                r@ + iter.remaining() == all,
            ensures
                r@ == all,
            decreases iter.remaining().len(),
        {
            match iter.next() {
                Some(x) => {
                    r.push(x);
                    assert(r@ + iter.remaining() =~= all);
                },
                None => {
                    assert(r@ =~= all);
                    break ;
                },
            }
        }
        r
    }
}

} // verus!
