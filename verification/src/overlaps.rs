//! Which intervals of one set overlap those of another.
use vstd::prelude::*;
use crate::interval::{intervals_overlap, SignUniformInterval};
use crate::intervals::SignUniformIntervals;
use crate::listing::{is_listing, pairs_of, sorted_listing};

verus! {

/// The intervals of `p` that overlap `o`, in order.
pub open spec fn overlapping(p: Seq<SignUniformInterval>, o: SignUniformInterval) -> Seq<
    SignUniformInterval,
>
    decreases p.len(),
{
    if p.len() == 0 {
        Seq::empty()
    } else {
        overlapping(p.drop_last(), o) + if intervals_overlap(p.last(), o) {
            seq![p.last()]
        } else {
            Seq::empty()
        }
    }
}

/// The intervals of `q` that `x` overlaps, in order.
pub open spec fn overlapped_by(q: Seq<SignUniformInterval>, x: SignUniformInterval) -> Seq<
    SignUniformInterval,
>
    decreases q.len(),
{
    if q.len() == 0 {
        Seq::empty()
    } else {
        overlapped_by(q.drop_last(), x) + if intervals_overlap(x, q.last()) {
            seq![q.last()]
        } else {
            Seq::empty()
        }
    }
}

/// The intervals of `q` that no interval of `p` overlaps, in order.
pub open spec fn unmatched(p: Seq<SignUniformInterval>, q: Seq<SignUniformInterval>) -> Seq<
    SignUniformInterval,
>
    decreases q.len(),
{
    if q.len() == 0 {
        Seq::empty()
    } else {
        unmatched(p, q.drop_last()) + if overlapping(p, q.last()).len() == 0 {
            seq![q.last()]
        } else {
            Seq::empty()
        }
    }
}

/// For each interval `x` of `p`, in order, that overlaps some interval of `q`: the entry
/// mapping `x` to the intervals of `q` that it overlaps.
pub open spec fn matched_entries(p: Seq<SignUniformInterval>, q: Seq<SignUniformInterval>) -> Seq<
    (Option<SignUniformInterval>, Seq<SignUniformInterval>),
>
    decreases p.len(),
{
    if p.len() == 0 {
        Seq::empty()
    } else {
        matched_entries(p.drop_last(), q) + if overlapped_by(q, p.last()).len() > 0 {
            seq![(Some(p.last()), overlapped_by(q, p.last()))]
        } else {
            Seq::empty()
        }
    }
}

/// The overlap mapping of the left intervals `p` with the right intervals `q`: `None` maps
/// to the right intervals that overlap no left interval (an entry present only when there
/// is such an interval), followed by the entries of `matched_entries`.
pub open spec fn overlap_entries(p: Seq<SignUniformInterval>, q: Seq<SignUniformInterval>) -> Seq<
    (Option<SignUniformInterval>, Seq<SignUniformInterval>),
> {
    let none_entry: Seq<(Option<SignUniformInterval>, Seq<SignUniformInterval>)> = if unmatched(
        p,
        q,
    ).len() > 0 {
        seq![(None, unmatched(p, q))]
    } else {
        Seq::empty()
    };
    none_entry + matched_entries(p, q)
}

/// An entry of the mapping, with its list of intervals as a sequence.
pub open spec fn entry_view(e: (Option<SignUniformInterval>, Vec<SignUniformInterval>)) -> (
    Option<SignUniformInterval>,
    Seq<SignUniformInterval>,
) {
    (e.0, e.1@)
}

/// The entries of a mapping, with their lists as sequences.
pub open spec fn entries_view(r: Seq<(Option<SignUniformInterval>, Vec<SignUniformInterval>)>) -> Seq<
    (Option<SignUniformInterval>, Seq<SignUniformInterval>),
> {
    r.map_values(|e: (Option<SignUniformInterval>, Vec<SignUniformInterval>)| entry_view(e))
}

proof fn lemma_overlapping_nonempty(p: Seq<SignUniformInterval>, o: SignUniformInterval)
    ensures
        overlapping(p, o).len() > 0 <==> exists|i: int|
            0 <= i < p.len() && intervals_overlap(#[trigger] p[i], o),
    decreases p.len(),
{
    if p.len() > 0 {
        lemma_overlapping_nonempty(p.drop_last(), o);
        if overlapping(p.drop_last(), o).len() > 0 {
            let i = choose|i: int| 0 <= i < p.drop_last().len() && intervals_overlap(p.drop_last()[i], o);
            assert(p[i] == p.drop_last()[i]);
        }
        if exists|i: int| 0 <= i < p.len() && intervals_overlap(#[trigger] p[i], o) {
            let i = choose|i: int| 0 <= i < p.len() && intervals_overlap(#[trigger] p[i], o);
            if i < p.len() - 1 {
                assert(p.drop_last()[i] == p[i]);
            }
        }
    }
}

proof fn lemma_unmatched_contains(p: Seq<SignUniformInterval>, q: Seq<SignUniformInterval>, o: SignUniformInterval)
    ensures
        unmatched(p, q).contains(o) <==> q.contains(o) && overlapping(p, o).len() == 0,
    decreases q.len(),
{
    if q.len() > 0 {
        lemma_unmatched_contains(p, q.drop_last(), o);
        let tail: Seq<SignUniformInterval> = if overlapping(p, q.last()).len() == 0 {
            seq![q.last()]
        } else {
            Seq::empty()
        };
        assert(unmatched(p, q) == unmatched(p, q.drop_last()) + tail);
        if unmatched(p, q).contains(o) {
            let k = choose|k: int| 0 <= k < unmatched(p, q).len() && unmatched(p, q)[k] == o;
            if k < unmatched(p, q.drop_last()).len() {
                assert(unmatched(p, q.drop_last())[k] == o);
                assert(unmatched(p, q.drop_last()).contains(o));
                let m = choose|m: int| 0 <= m < q.drop_last().len() && q.drop_last()[m] == o;
                assert(q[m] == o);
            } else {
                assert(tail[k - unmatched(p, q.drop_last()).len()] == o);
                assert(q[q.len() - 1] == o);
            }
        }
        if q.contains(o) && overlapping(p, o).len() == 0 {
            let m = choose|m: int| 0 <= m < q.len() && q[m] == o;
            if m < q.len() - 1 {
                assert(q.drop_last()[m] == o);
                assert(q.drop_last().contains(o));
                let k = choose|k: int| 0 <= k < unmatched(p, q.drop_last()).len() && unmatched(p, q.drop_last())[k] == o;
                assert(unmatched(p, q)[k] == o);
            } else {
                assert(unmatched(p, q)[unmatched(p, q.drop_last()).len() as int] == o);
            }
        }
    }
}

proof fn lemma_overlapped_by_contains(q: Seq<SignUniformInterval>, x: SignUniformInterval, o: SignUniformInterval)
    ensures
        overlapped_by(q, x).contains(o) <==> q.contains(o) && intervals_overlap(x, o),
    decreases q.len(),
{
    if q.len() > 0 {
        lemma_overlapped_by_contains(q.drop_last(), x, o);
        let tail: Seq<SignUniformInterval> = if intervals_overlap(x, q.last()) {
            seq![q.last()]
        } else {
            Seq::empty()
        };
        let head = overlapped_by(q.drop_last(), x);
        assert(overlapped_by(q, x) == head + tail);
        if overlapped_by(q, x).contains(o) {
            let k = choose|k: int| 0 <= k < overlapped_by(q, x).len() && overlapped_by(q, x)[k] == o;
            if k < head.len() {
                assert(head[k] == o);
                assert(head.contains(o));
                let m = choose|m: int| 0 <= m < q.drop_last().len() && q.drop_last()[m] == o;
                assert(q[m] == o);
            } else {
                assert(tail[k - head.len()] == o);
                assert(q[q.len() - 1] == o);
            }
        }
        if q.contains(o) && intervals_overlap(x, o) {
            let m = choose|m: int| 0 <= m < q.len() && q[m] == o;
            if m < q.len() - 1 {
                assert(q.drop_last()[m] == o);
                assert(q.drop_last().contains(o));
                let k = choose|k: int| 0 <= k < head.len() && head[k] == o;
                assert(overlapped_by(q, x)[k] == o);
            } else {
                assert(overlapped_by(q, x)[head.len() as int] == o);
            }
        }
    }
}

proof fn lemma_matched_entry_present(p: Seq<SignUniformInterval>, q: Seq<SignUniformInterval>, i: int)
    requires
        0 <= i < p.len(),
        overlapped_by(q, p[i]).len() > 0,
    ensures
        matched_entries(p, q).contains((Some(p[i]), overlapped_by(q, p[i]))),
    decreases p.len(),
{
    let e = (Some(p[i]), overlapped_by(q, p[i]));
    let head = matched_entries(p.drop_last(), q);
    if i < p.len() - 1 {
        assert(p.drop_last()[i] == p[i]);
        lemma_matched_entry_present(p.drop_last(), q, i);
        let k = choose|k: int| 0 <= k < head.len() && head[k] == e;
        assert(matched_entries(p, q)[k] == e);
    } else {
        assert(matched_entries(p, q)[head.len() as int] == e);
    }
}

/// Every right interval is accounted for: either no left interval overlaps it and it is
/// listed under `None`, or it is listed under a left interval that overlaps it, whose entry
/// lists exactly the right intervals that left interval overlaps.
pub proof fn lemma_overlaps_cover(p: Seq<SignUniformInterval>, q: Seq<SignUniformInterval>, o: SignUniformInterval)
    requires
        q.contains(o),
    ensures
        (forall|i: int| 0 <= i < p.len() ==> !intervals_overlap(#[trigger] p[i], o)) ==> unmatched(p, q).contains(o),
        (exists|i: int| 0 <= i < p.len() && intervals_overlap(#[trigger] p[i], o)) ==> !unmatched(p, q).contains(o)
            && exists|i: int| 0 <= i < p.len() && intervals_overlap(#[trigger] p[i], o)
                && matched_entries(p, q).contains((Some(p[i]), overlapped_by(q, p[i])))
                && overlapped_by(q, p[i]).contains(o),
{
    lemma_overlapping_nonempty(p, o);
    lemma_unmatched_contains(p, q, o);
    if exists|i: int| 0 <= i < p.len() && intervals_overlap(#[trigger] p[i], o) {
        let i = choose|i: int| 0 <= i < p.len() && intervals_overlap(#[trigger] p[i], o);
        lemma_overlapped_by_contains(q, p[i], o);
        assert(overlapped_by(q, p[i]).len() > 0);
        lemma_matched_entry_present(p, q, i);
    }
}

proof fn lemma_matched_entries_shape(p: Seq<SignUniformInterval>, q: Seq<SignUniformInterval>, k: int)
    requires
        0 <= k < matched_entries(p, q).len(),
    ensures
        matched_entries(p, q)[k].0 is Some,
        p.contains(matched_entries(p, q)[k].0->0),
        matched_entries(p, q)[k].1 == overlapped_by(q, matched_entries(p, q)[k].0->0),
        matched_entries(p, q)[k].1.len() > 0,
    decreases p.len(),
{
    let head = matched_entries(p.drop_last(), q);
    if k < head.len() {
        assert(matched_entries(p, q)[k] == head[k]);
        lemma_matched_entries_shape(p.drop_last(), q, k);
        let x = head[k].0->0;
        let m = choose|m: int| 0 <= m < p.drop_last().len() && p.drop_last()[m] == x;
        assert(p[m] == x);
    } else {
        assert(p[p.len() - 1] == p.last());
    }
}

/// The entries of the overlap mapping mean what they say: every right interval listed under
/// `None` is a right interval that no left interval overlaps (and all such are listed); every
/// other entry is keyed by a left interval and lists exactly the right intervals it overlaps,
/// at least one.
pub proof fn law_overlap_entries_meaning(p: Seq<SignUniformInterval>, q: Seq<SignUniformInterval>)
    ensures
        forall|o: SignUniformInterval|
            #[trigger] unmatched(p, q).contains(o) <==> q.contains(o) && forall|i: int|
                0 <= i < p.len() ==> !intervals_overlap(#[trigger] p[i], o),
        forall|x: SignUniformInterval, o: SignUniformInterval|
            #[trigger] overlapped_by(q, x).contains(o) <==> q.contains(o) && intervals_overlap(x, o),
        forall|k: int|
            0 <= k < matched_entries(p, q).len() ==> {
                let e = #[trigger] matched_entries(p, q)[k];
                &&& e.0 is Some
                &&& p.contains(e.0->0)
                &&& e.1 == overlapped_by(q, e.0->0)
                &&& e.1.len() > 0
            },
{
    assert forall|o: SignUniformInterval| #[trigger] unmatched(p, q).contains(o) <==> q.contains(o)
        && forall|i: int| 0 <= i < p.len() ==> !intervals_overlap(#[trigger] p[i], o) by {
        lemma_unmatched_contains(p, q, o);
        lemma_overlapping_nonempty(p, o);
    }
    assert forall|x: SignUniformInterval, o: SignUniformInterval| #[trigger] overlapped_by(
        q,
        x,
    ).contains(o) <==> q.contains(o) && intervals_overlap(x, o) by {
        lemma_overlapped_by_contains(q, x, o);
    }
    assert forall|k: int| 0 <= k < matched_entries(p, q).len() implies {
        let e = #[trigger] matched_entries(p, q)[k];
        &&& e.0 is Some
        &&& p.contains(e.0->0)
        &&& e.1 == overlapped_by(q, e.0->0)
        &&& e.1.len() > 0
    } by {
        lemma_matched_entries_shape(p, q, k);
    }
}

/// Whether some interval of `p` overlaps `o`.
fn overlaps_any(p: &Vec<SignUniformInterval>, o: &SignUniformInterval) -> (r: bool)
    ensures
        r == (overlapping(p@, *o).len() > 0),
{
    let mut found = false;
    let mut i: usize = 0;
    while i < p.len()
        invariant
            i <= p@.len(),
            found == (overlapping(p@.take(i as int), *o).len() > 0),
        decreases p@.len() - i,
    {
        assert(p@.take(i + 1).drop_last() =~= p@.take(i as int));
        if p[i].overlaps_with(o) {
            found = true;
        }
        i = i + 1;
    }
    assert(p@.take(i as int) =~= p@);
    found
}

/// The intervals of `q` that `x` overlaps.
fn overlapped_intervals(q: &Vec<SignUniformInterval>, x: &SignUniformInterval) -> (r: Vec<
    SignUniformInterval,
>)
    ensures
        r@ == overlapped_by(q@, *x),
{
    let mut r: Vec<SignUniformInterval> = Vec::new();
    let mut j: usize = 0;
    while j < q.len()
        invariant
            j <= q@.len(),
            r@ == overlapped_by(q@.take(j as int), *x),
        decreases q@.len() - j,
    {
        assert(q@.take(j + 1).drop_last() =~= q@.take(j as int));
        if x.overlaps_with(&q[j]) {
            r.push(q[j]);
        }
        j = j + 1;
    }
    assert(q@.take(j as int) =~= q@);
    r
}

impl SignUniformIntervals {
    /// Computes the overlaps of the left interval set with the right interval set: each left
    /// interval that overlaps some right interval maps to the right intervals it overlaps, and
    /// `None` maps to the right intervals that overlap no left interval. Entries come as an
    /// ordered map would list them: `None` first, then the left intervals in order.
    pub fn overlaps_with(&self, other: &Self) -> (r: Vec<
        (Option<SignUniformInterval>, Vec<SignUniformInterval>),
    >)
        ensures
            is_listing(sorted_listing(self@), self@),
            is_listing(sorted_listing(other@), other@),
            entries_view(r@) == overlap_entries(
                pairs_of(sorted_listing(self@)),
                pairs_of(sorted_listing(other@)),
            ),
    {
        let left = self.clone().into_iter().collect();
        let right = other.clone().into_iter().collect();
        // right intervals that overlap no left interval map to `None`
        let mut none_values: Vec<SignUniformInterval> = Vec::new();
        let mut j: usize = 0;
        while j < right.len()
            invariant
                j <= right@.len(),
                none_values@ == unmatched(left@, right@.take(j as int)),
            decreases right@.len() - j,
        {
            assert(right@.take(j + 1).drop_last() =~= right@.take(j as int));
            if !overlaps_any(&left, &right[j]) {
                none_values.push(right[j]);
            }
            j = j + 1;
        }
        assert(right@.take(j as int) =~= right@);
        let mut result: Vec<(Option<SignUniformInterval>, Vec<SignUniformInterval>)> = Vec::new();
        if none_values.len() > 0 {
            result.push((None, none_values));
        }
        let ghost head = entries_view(result@);
        // each left interval maps to the right intervals it overlaps
        let mut i: usize = 0;
        while i < left.len()
            invariant
                i <= left@.len(),
                overlap_entries(left@, right@) == head + matched_entries(left@, right@),
                entries_view(result@) == head + matched_entries(left@.take(i as int), right@),
            decreases left@.len() - i,
        {
            assert(left@.take(i + 1).drop_last() =~= left@.take(i as int));
            let values = overlapped_intervals(&right, &left[i]);
            let ghost before = result@;
            if values.len() > 0 {
                result.push((Some(left[i]), values));
                assert(entries_view(result@) =~= entries_view(before).push(
                    (Some(left@[i as int]), values@),
                ));
            }
            i = i + 1;
            assert(entries_view(result@) =~= head + matched_entries(left@.take(i as int), right@));
        }
        assert(left@.take(i as int) =~= left@);
        result
    }
}

} // verus!
