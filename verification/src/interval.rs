//! Intervals of uniform sign and their pairwise combinators.
use vstd::prelude::*;
use crate::boundary::{key_max, key_min, SignBoundary};
use crate::sign::{sign_difference, sign_union, Sign};

verus! {

/// An open interval, from `left.min` to `right.min`, on which the sign is `left.sign`.
#[derive(Debug, Clone, Copy, PartialEq, Eq, Structural, PartialOrd, Ord)]
pub struct SignUniformInterval {
    pub left: SignBoundary,
    pub right: SignBoundary,
}

/// The open ranges of the two intervals overlap.
pub open spec fn intervals_overlap(a: SignUniformInterval, b: SignUniformInterval) -> bool {
    a.left.min < b.right.min && a.right.min > b.left.min
}

/// The boundary that holds before the overlap: the left of the interval that starts
/// first, none when both start together.
pub open spec fn before_overlap(a: SignUniformInterval, b: SignUniformInterval) -> Option<
    SignBoundary,
> {
    if a.left.min < b.left.min {
        Some(a.left)
    } else if b.left.min < a.left.min {
        Some(b.left)
    } else {
        None
    }
}

/// The boundary that holds after the overlap: the sign of the interval that ends last,
/// from where the other one ends; none when both end together.
pub open spec fn after_overlap(a: SignUniformInterval, b: SignUniformInterval) -> Option<
    SignBoundary,
> {
    if a.right.min > b.right.min {
        Some(SignBoundary { min: b.right.min, sign: a.left.sign })
    } else if b.right.min > a.right.min {
        Some(SignBoundary { min: a.right.min, sign: b.left.sign })
    } else {
        None
    }
}

/// The decomposition of two intervals: what holds before the overlap, where the overlap
/// starts, and what holds after it; all `None` when they do not overlap.
pub open spec fn decompose_spec(a: SignUniformInterval, b: SignUniformInterval) -> (
    Option<SignBoundary>,
    Option<i32>,
    Option<SignBoundary>,
) {
    if !intervals_overlap(a, b) {
        (None, None, None)
    } else {
        (before_overlap(a, b), Some(key_max(a.left.min, b.left.min)), after_overlap(a, b))
    }
}

/// The range where two intervals overlap: from the later left end to the earlier right end.
pub open spec fn range_intersection_spec(a: SignUniformInterval, b: SignUniformInterval) -> (
    i32,
    i32,
) {
    (key_max(a.left.min, b.left.min), key_min(a.right.min, b.right.min))
}

/// The range that two intervals cover together: from the earlier left end to the later
/// right end.
pub open spec fn range_union_spec(a: SignUniformInterval, b: SignUniformInterval) -> (i32, i32) {
    (key_min(a.left.min, b.left.min), key_max(a.right.min, b.right.min))
}

/// The boundary in an option, as a sequence of zero or one boundaries.
pub open spec fn option_seq(o: Option<SignBoundary>) -> Seq<SignBoundary> {
    match o {
        Some(x) => seq![x],
        None => Seq::empty(),
    }
}

/// The four boundaries of two intervals, in order: `a.left, a.right, b.left, b.right`.
pub open spec fn all_boundaries(a: SignUniformInterval, b: SignUniformInterval) -> Seq<
    SignBoundary,
> {
    seq![a.left, a.right, b.left, b.right]
}

/// The boundaries of the union of two intervals.
pub open spec fn interval_union_spec(a: SignUniformInterval, b: SignUniformInterval) -> Seq<
    SignBoundary,
> {
    if !intervals_overlap(a, b) {
        all_boundaries(a, b)
    } else {
        option_seq(before_overlap(a, b)) + option_seq(after_overlap(a, b)) + seq![
            SignBoundary {
                min: key_max(a.left.min, b.left.min),
                sign: sign_union(a.left.sign, b.left.sign),
            },
        ]
    }
}

/// The boundary that starts the overlap in a difference, unless it repeats the sign
/// that holds before the overlap.
pub open spec fn difference_overlap_part(a: SignUniformInterval, b: SignUniformInterval) -> Seq<
    SignBoundary,
> {
    let start = SignBoundary {
        min: key_max(a.left.min, b.left.min),
        sign: sign_difference(a.left.sign, b.left.sign),
    };
    match before_overlap(a, b) {
        Some(bo) => if start.sign != bo.sign {
            seq![start]
        } else {
            Seq::empty()
        },
        None => seq![start],
    }
}

/// What follows the overlap in a difference. When `a` ends later, the right boundary of `b`,
/// which starts what comes after `b`; when `b` ends later, the sign of `b` from where `a`
/// ends; none when both end together.
pub open spec fn difference_after_overlap(a: SignUniformInterval, b: SignUniformInterval) -> Option<
    SignBoundary,
> {
    if a.right.min > b.right.min {
        Some(b.right)
    } else if b.right.min > a.right.min {
        Some(SignBoundary { min: a.right.min, sign: b.left.sign })
    } else {
        None
    }
}

/// The boundaries of the difference of interval `a` minus interval `b`.
pub open spec fn interval_difference_spec(a: SignUniformInterval, b: SignUniformInterval) -> Seq<
    SignBoundary,
> {
    if !intervals_overlap(a, b) {
        all_boundaries(a, b)
    } else {
        option_seq(before_overlap(a, b)) + difference_overlap_part(a, b) + option_seq(
            difference_after_overlap(a, b),
        )
    }
}

fn push_option(result: &mut Vec<SignBoundary>, o: Option<SignBoundary>)
    ensures
        final(result)@ == old(result)@ + option_seq(o),
{
    match o {
        Some(x) => {
            result.push(x);
        },
        None => {},
    }
    assert(final(result)@ =~= old(result)@ + option_seq(o));
}

fn four(a: &SignUniformInterval, b: &SignUniformInterval) -> (r: Vec<SignBoundary>)
    ensures
        r@ == all_boundaries(*a, *b),
{
    let mut r = Vec::new();
    r.push(a.left);
    r.push(a.right);
    r.push(b.left);
    r.push(b.right);
    assert(r@ =~= all_boundaries(*a, *b));
    r
}

impl SignUniformInterval {
    /// Gets the open range of the sign uniform interval.
    ///
    /// All intervals are on an open range; the naming is to make it clear on each call.
    pub fn open_range(&self) -> (r: (i32, i32))
        ensures
            r == (self.left.min, self.right.min),
    {
        (self.left.min, self.right.min)
    }

    /// Whether the interval is well behaved.
    ///
    /// If the left of the interval is well behaved, then the interval is well behaved.
    pub fn is_well_behaved(&self) -> (r: bool)
        ensures
            r == (self.left.sign == Sign::Negative || self.left.sign == Sign::Positive),
    {
        self.left.sign.is_well_behaved()
    }

    /// Whether the interval overlaps with another interval.
    pub fn overlaps_with(&self, other: &Self) -> (r: bool)
        ensures
            r == intervals_overlap(*self, *other),
    {
        self.left.min < other.right.min && self.right.min > other.left.min
    }

    /// The interval of the intersection of the two intervals.
    pub fn range_intersection(&self, other: &Self) -> (r: (i32, i32))
        ensures
            r == range_intersection_spec(*self, *other),
    {
        let lo = if self.left.min >= other.left.min {
            self.left.min
        } else {
            other.left.min
        };
        let hi = if self.right.min <= other.right.min {
            self.right.min
        } else {
            other.right.min
        };
        (lo, hi)
    }

    /// The full interval of the union of the two intervals.
    pub fn range_union(&self, other: &Self) -> (r: (i32, i32))
        ensures
            r == range_union_spec(*self, *other),
    {
        let lo = if self.left.min <= other.left.min {
            self.left.min
        } else {
            other.left.min
        };
        let hi = if self.right.min >= other.right.min {
            self.right.min
        } else {
            other.right.min
        };
        (lo, hi)
    }

    /// The decomposition of the two intervals.
    ///
    /// This gives a tuple:
    ///     (1) who defines the sign boundary before the overlap
    ///     (2) defines where the overlap begins (it ends at the after or whatever was the natural boundary before)
    ///     (3) defines the sign boundary after the overlap
    ///
    /// How the overlap is dealt with is specific to a combinator.
    pub fn decompose(&self, other: &Self) -> (r: (
        Option<SignBoundary>,
        Option<i32>,
        Option<SignBoundary>,
    ))
        ensures
            r == decompose_spec(*self, *other),
    {
        if !self.overlaps_with(other) {
            return (None, None, None);
        }
        // The left boundary defines the value of an interval, the right one only where it
        // stops holding: before the overlap the interval that starts first holds.
        let mut before: Option<SignBoundary> = None;
        if self.left.min < other.left.min {
            before = Some(self.left);
        } else if other.left.min < self.left.min {
            before = Some(other.left);
        }
        // After the overlap the interval that ends last holds, from where the other ends.
        let mut after: Option<SignBoundary> = None;
        if self.right.min > other.right.min {
            let mut pre_after = self.left;
            pre_after.min = other.right.min;
            after = Some(pre_after);
        } else if other.right.min > self.right.min {
            let mut pre_after = other.left;
            pre_after.min = self.right.min;
            after = Some(pre_after);
        }
        let start = if self.left.min >= other.left.min {
            self.left.min
        } else {
            other.left.min
        };
        (before, Some(start), after)
    }

    /// The boundaries of the union of the two intervals.
    pub fn union(&self, other: &Self) -> (r: Vec<SignBoundary>)
        ensures
            r@ == interval_union_spec(*self, *other),
    {
        let (before, overlap, after) = self.decompose(other);
        match overlap {
            Some(start_undecided) => {
                let mut result: Vec<SignBoundary> = Vec::new();
                // whatever comes before the overlap
                push_option(&mut result, before);
                // whatever comes after the overlap
                push_option(&mut result, after);
                result.push(
                    SignBoundary { min: start_undecided, sign: self.left.sign.union(&other.left.sign) },
                );
                result
            },
            // without an overlap, all four boundaries as given
            None => four(self, other),
        }
    }

    /// The boundaries of the difference of this interval minus the other.
    pub fn difference(&self, other: &Self) -> (r: Vec<SignBoundary>)
        ensures
            r@ == interval_difference_spec(*self, *other),
    {
        let (before, overlap, _) = self.decompose(other);
        match overlap {
            Some(start_undecided) => {
                let mut result: Vec<SignBoundary> = Vec::new();
                // whatever comes before the overlap
                push_option(&mut result, before);
                let ghost mid = result@;
                // a sign that repeats the one before the overlap is left out (normalization)
                let sign_difference = self.left.sign.difference(&other.left.sign);
                match before {
                    Some(b) => {
                        if sign_difference != b.sign {
                            result.push(SignBoundary { min: start_undecided, sign: sign_difference });
                        }
                    },
                    None => {
                        result.push(SignBoundary { min: start_undecided, sign: sign_difference });
                    },
                }
                assert(result@ =~= mid + difference_overlap_part(*self, *other));
                // after the overlap: when self ends later, what follows the other interval
                // (its right boundary); when the other ends later, its sign from where self ends
                let after = if self.right.min > other.right.min {
                    Some(other.right)
                } else if other.right.min > self.right.min {
                    Some(SignBoundary { min: self.right.min, sign: other.left.sign })
                } else {
                    None
                };
                push_option(&mut result, after);
                result
            },
            // without an overlap, all four boundaries as given
            None => four(self, other),
        }
    }
}

/// Whether two intervals overlap does not depend on their order.
pub proof fn lemma_overlap_symmetric(a: SignUniformInterval, b: SignUniformInterval)
    ensures
        intervals_overlap(a, b) == intervals_overlap(b, a),
{
}

/// The decomposition of two intervals does not depend on their order.
pub proof fn lemma_decompose_symmetric(a: SignUniformInterval, b: SignUniformInterval)
    ensures
        decompose_spec(a, b) == decompose_spec(b, a),
{
}

/// The union of two overlapping intervals does not depend on their order; without an
/// overlap the two orders list the same four boundaries.
pub proof fn lemma_interval_union_commutative(a: SignUniformInterval, b: SignUniformInterval)
    ensures
        intervals_overlap(a, b) ==> interval_union_spec(a, b) == interval_union_spec(b, a),
        interval_union_spec(a, b).to_set() == interval_union_spec(b, a).to_set(),
{
    if !intervals_overlap(a, b) {
        assert(interval_union_spec(a, b).to_set() =~= interval_union_spec(b, a).to_set()) by {
            let x = interval_union_spec(a, b);
            let y = interval_union_spec(b, a);
            assert(x =~= seq![a.left, a.right, b.left, b.right]);
            assert(y =~= seq![b.left, b.right, a.left, a.right]);
            assert forall|e: SignBoundary| x.contains(e) <==> y.contains(e) by {
                if x.contains(e) {
                    let i = choose|i: int| 0 <= i < x.len() && x[i] == e;
                    assert(y[(i + 2) % 4] == e);
                }
                if y.contains(e) {
                    let i = choose|i: int| 0 <= i < y.len() && y[i] == e;
                    assert(x[(i + 2) % 4] == e);
                }
            }
        }
    } else {
        assert(interval_union_spec(a, b) =~= interval_union_spec(b, a));
    }
}

/// The range of the intersection and that of the union do not depend on the order of the
/// intervals, and the union's range holds the intersection's.
pub proof fn lemma_ranges_commutative(a: SignUniformInterval, b: SignUniformInterval)
    ensures
        range_intersection_spec(a, b) == range_intersection_spec(b, a),
        range_union_spec(a, b) == range_union_spec(b, a),
        range_union_spec(a, b).0 <= range_intersection_spec(a, b).0,
        range_intersection_spec(a, b).1 <= range_union_spec(a, b).1,
{
}

} // verus!
