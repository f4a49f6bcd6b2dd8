//! What the sign and boundary combinators mean, stated over their inputs and results.
//!
//! A negative sign is inside the shape, a positive sign outside; `Top` is unknown and
//! `Bottom` undefined. A union is inside where either operand is inside; a difference
//! `A - B` is inside only where `A` is, and never inside where `B` is.
use vstd::prelude::*;
use crate::boundary::{
    boundary_difference, boundary_intersection, boundary_union, differences_on_spec,
    differences_over_spec, key_max, key_min, unions_on_spec, unions_over_spec, SignBoundary,
};
use crate::interval::{
    decompose_spec, interval_difference_spec, interval_union_spec, intervals_overlap,
    option_seq, range_intersection_spec, range_union_spec, SignUniformInterval,
};
use crate::intervals::{intervals_in_range, meets_range};
use crate::sign::{sign_difference, sign_flip, sign_union, Sign};

verus! {

/// A union of signs is inside exactly when one of them is inside, outside exactly when both
/// are outside, and unknown otherwise.
pub proof fn law_sign_union_meaning(a: Sign, b: Sign)
    ensures
        (sign_union(a, b) == Sign::Negative) <==> (a == Sign::Negative || b == Sign::Negative),
        (sign_union(a, b) == Sign::Positive) <==> (a == Sign::Positive && b == Sign::Positive),
        sign_union(a, b) == Sign::Negative || sign_union(a, b) == Sign::Positive
            || sign_union(a, b) == Sign::Top,
{
}

/// A difference of signs is inside only where the first sign is inside; carving out an
/// inside region leaves the outside; carving out anything else keeps the first sign.
pub proof fn law_sign_difference_meaning(a: Sign, b: Sign)
    ensures
        sign_difference(a, b) == Sign::Negative ==> a == Sign::Negative,
        b == Sign::Negative ==> sign_difference(a, b) == Sign::Positive,
        b != Sign::Negative ==> sign_difference(a, b) == a,
        sign_difference(a, Sign::Positive) == a,
{
}

/// Flipping turns the inside into the outside and leaves every other sign alone.
pub proof fn law_sign_flip_meaning(a: Sign)
    ensures
        a == Sign::Negative ==> sign_flip(a) == Sign::Positive,
        a != Sign::Negative ==> sign_flip(a) == a,
{
}

/// The union of a boundary with a boundary of the other operand only uses the two positions;
/// an inside boundary of the other operand is never lost, nor is the first boundary when it
/// comes first; an outside boundary keeps a first boundary that is not outside; an unknown or
/// undefined boundary spreads from the earlier position.
pub proof fn law_boundary_union_meaning(a: SignBoundary, b: SignBoundary)
    ensures
        boundary_union(a, b).len() >= 1,
        forall|i: int|
            0 <= i < boundary_union(a, b).len() ==> #[trigger] boundary_union(a, b)[i].min == a.min
                || boundary_union(a, b)[i].min == b.min,
        b.sign == Sign::Negative ==> boundary_union(a, b).contains(b),
        b.sign == Sign::Negative && a.min <= b.min ==> boundary_union(a, b) == seq![a, b],
        b.sign == Sign::Negative && b.min < a.min ==> boundary_union(a, b) == seq![b],
        b.sign == Sign::Positive && a.sign != Sign::Positive ==> boundary_union(a, b) == seq![a],
        b.sign == Sign::Positive && a.sign == Sign::Positive ==> boundary_union(a, b) == seq![b],
        (b.sign == Sign::Top || b.sign == Sign::Bottom) ==> boundary_union(a, b) == seq![
            SignBoundary { min: key_min(a.min, b.min), sign: b.sign },
        ],
{
    if b.sign == Sign::Negative {
        if b.min < a.min {
            assert(boundary_union(a, b)[0] == b);
        } else {
            assert(boundary_union(a, b)[1] == b);
        }
    }
}

/// The difference of a boundary minus a boundary of the other operand only uses the two
/// positions; an outside boundary of the other operand leaves the first boundary exactly as
/// it is; an inside boundary of the other operand comes back outside, after the first
/// boundary when that comes first; an unknown or undefined boundary spreads from the earlier
/// position.
pub proof fn law_boundary_difference_meaning(a: SignBoundary, b: SignBoundary)
    ensures
        boundary_difference(a, b).len() >= 1,
        forall|i: int|
            0 <= i < boundary_difference(a, b).len() ==> #[trigger] boundary_difference(a, b)[i].min
                == a.min || boundary_difference(a, b)[i].min == b.min,
        b.sign == Sign::Positive ==> boundary_difference(a, b) == seq![a],
        b.sign == Sign::Negative ==> boundary_difference(a, b).contains(
            SignBoundary { min: b.min, sign: Sign::Positive },
        ),
        b.sign == Sign::Negative && a.min <= b.min ==> boundary_difference(a, b) == seq![
            a,
            SignBoundary { min: b.min, sign: Sign::Positive },
        ],
        b.sign == Sign::Negative && b.min < a.min ==> boundary_difference(a, b) == seq![
            SignBoundary { min: b.min, sign: Sign::Positive },
        ],
        (b.sign == Sign::Top || b.sign == Sign::Bottom) ==> boundary_difference(a, b) == seq![
            SignBoundary { min: key_min(a.min, b.min), sign: b.sign },
        ],
{
    if b.sign == Sign::Negative {
        let f = SignBoundary { min: b.min, sign: Sign::Positive };
        if b.min < a.min {
            assert(boundary_difference(a, b)[0] == f);
        } else {
            assert(boundary_difference(a, b)[1] == f);
        }
    }
}

/// The intersection of two boundaries is one boundary at one of their positions. Of two
/// well-behaved boundaries it is inside exactly when both are, from the later position, and
/// otherwise outside from the position of an outside one; an unknown boundary wins over
/// everything, and an undefined one gives way to the other.
pub proof fn law_boundary_intersection_meaning(a: SignBoundary, b: SignBoundary)
    ensures
        boundary_intersection(a, b).len() == 1,
        boundary_intersection(a, b)[0].min == a.min || boundary_intersection(a, b)[0].min == b.min,
        a.sign == Sign::Negative && b.sign == Sign::Negative ==> boundary_intersection(a, b)[0]
            == (SignBoundary { min: key_max(a.min, b.min), sign: Sign::Negative }),
        (a.sign == Sign::Positive || a.sign == Sign::Negative) && (b.sign == Sign::Positive
            || b.sign == Sign::Negative) && (a.sign == Sign::Positive || b.sign == Sign::Positive)
            ==> boundary_intersection(a, b)[0].sign == Sign::Positive,
        a.sign == Sign::Positive && b.sign == Sign::Negative ==> boundary_intersection(a, b)[0]
            == a,
        b.sign == Sign::Positive && a.sign == Sign::Negative ==> boundary_intersection(a, b)[0]
            == b,
        a.sign == Sign::Top && b.sign != Sign::Top ==> boundary_intersection(a, b)[0] == a,
        a.sign == Sign::Bottom && b.sign != Sign::Bottom && b.sign != Sign::Top
            ==> boundary_intersection(a, b)[0] == b,
{
}

/// Unions and differences over a list of one boundary are those with that boundary, and over
/// a mapping of one entry are those over its list.
pub proof fn law_single_element_lists(
    a: SignBoundary,
    b: SignBoundary,
    m: (SignBoundary, Vec<SignBoundary>),
)
    ensures
        unions_over_spec(a, seq![b]) == boundary_union(a, b),
        differences_over_spec(a, seq![b]) == boundary_difference(a, b),
        unions_over_spec(a, Seq::empty()) == Seq::<SignBoundary>::empty(),
        differences_over_spec(a, Seq::empty()) == Seq::<SignBoundary>::empty(),
        unions_on_spec(seq![m]) == unions_over_spec(m.0, m.1@),
        differences_on_spec(seq![m]) == differences_over_spec(m.0, m.1@),
{
    assert(seq![b].drop_last() =~= Seq::<SignBoundary>::empty());
    assert(seq![b].last() == b);
    assert(unions_over_spec(a, Seq::<SignBoundary>::empty()) =~= Seq::<SignBoundary>::empty());
    assert(differences_over_spec(a, Seq::<SignBoundary>::empty()) =~= Seq::<SignBoundary>::empty());
    assert(unions_on_spec(Seq::<(SignBoundary, Vec<SignBoundary>)>::empty()) =~= Seq::<SignBoundary>::empty());
    assert(differences_on_spec(Seq::<(SignBoundary, Vec<SignBoundary>)>::empty()) =~= Seq::<SignBoundary>::empty());
    assert(seq![m].last() == m);
    assert(seq![m].drop_last() =~= Seq::<(SignBoundary, Vec<SignBoundary>)>::empty());
    assert(Seq::<SignBoundary>::empty() + boundary_union(a, b) =~= boundary_union(a, b));
    assert(Seq::<SignBoundary>::empty() + boundary_difference(a, b) =~= boundary_difference(a, b));
    assert(Seq::<SignBoundary>::empty() + unions_over_spec(m.0, m.1@) =~= unions_over_spec(
        m.0,
        m.1@,
    ));
    assert(Seq::<SignBoundary>::empty() + differences_over_spec(m.0, m.1@) =~= differences_over_spec(
        m.0,
        m.1@,
    ));
}

/// Decomposing two overlapping intervals: the overlap starts at the later left end; what holds
/// before it is the left boundary of the interval that starts strictly first, lying strictly
/// before the overlap start, and there is none when both start together; what holds after it
/// lies at the earlier right end (strictly after the overlap start, for intervals that end
/// after they start), with the sign of the
/// interval that ends later, and there is none when both end together. Without an overlap
/// there is nothing.
pub proof fn law_decompose_meaning(a: SignUniformInterval, b: SignUniformInterval)
    ensures
        !intervals_overlap(a, b) ==> decompose_spec(a, b) == (
            None::<SignBoundary>,
            None::<i32>,
            None::<SignBoundary>,
        ),
        intervals_overlap(a, b) ==> decompose_spec(a, b).1 == Some(key_max(a.left.min, b.left.min)),
        decompose_spec(a, b).0 matches Some(x) ==> x.min < key_max(a.left.min, b.left.min) && (x
            == a.left || x == b.left) && x.min == key_min(a.left.min, b.left.min),
        intervals_overlap(a, b) && a.left.min != b.left.min ==> decompose_spec(a, b).0 is Some,
        a.left.min == b.left.min ==> decompose_spec(a, b).0 is None,
        decompose_spec(a, b).2 matches Some(y) ==> a.left.min < a.right.min && b.left.min
            < b.right.min ==> y.min > key_max(a.left.min, b.left.min) && y.min
            == key_min(a.right.min, b.right.min) && (if a.right.min > b.right.min {
            y.sign == a.left.sign
        } else {
            y.sign == b.left.sign
        }),
        intervals_overlap(a, b) && a.right.min != b.right.min ==> decompose_spec(a, b).2 is Some,
        a.right.min == b.right.min ==> decompose_spec(a, b).2 is None,
{
}

/// The union of two overlapping intervals ends with the boundary at the overlap start (the
/// later left end), which is inside when either interval is inside, outside when both are
/// outside, and unknown otherwise; for intervals that end after they start, every other
/// boundary of the union lies before or after the overlap. Without an overlap the union lists the four boundaries as given.
pub proof fn law_interval_union_meaning(a: SignUniformInterval, b: SignUniformInterval)
    ensures
        !intervals_overlap(a, b) ==> interval_union_spec(a, b) == seq![
            a.left,
            a.right,
            b.left,
            b.right,
        ],
        intervals_overlap(a, b) ==> {
            let r = interval_union_spec(a, b);
            let start = key_max(a.left.min, b.left.min);
            &&& r.len() >= 1
            &&& r.last().min == start
            &&& (r.last().sign == Sign::Negative <==> (a.left.sign == Sign::Negative
                || b.left.sign == Sign::Negative))
            &&& (r.last().sign == Sign::Positive <==> (a.left.sign == Sign::Positive
                && b.left.sign == Sign::Positive))
            &&& (a.left.sign != Sign::Negative && b.left.sign != Sign::Negative && !(a.left.sign
                == Sign::Positive && b.left.sign == Sign::Positive)) ==> r.last().sign == Sign::Top
            &&& a.left.min < a.right.min && b.left.min < b.right.min ==> forall|i: int|
                0 <= i < r.len() - 1 ==> #[trigger] r[i].min != start
        },
{
    if intervals_overlap(a, b) {
        law_decompose_meaning(a, b);
    }
}

/// The difference of two intervals is never inside where neither interval had an inside
/// boundary; on the overlap it is outside when the second interval is inside there and has
/// the first interval's sign otherwise. Without an overlap it lists the four boundaries as
/// given.
pub proof fn law_interval_difference_meaning(a: SignUniformInterval, b: SignUniformInterval)
    ensures
        !intervals_overlap(a, b) ==> interval_difference_spec(a, b) == seq![
            a.left,
            a.right,
            b.left,
            b.right,
        ],
        a.left.sign != Sign::Negative && a.right.sign != Sign::Negative && b.left.sign
            != Sign::Negative && b.right.sign != Sign::Negative ==> forall|i: int|
            0 <= i < interval_difference_spec(a, b).len() ==> #[trigger] interval_difference_spec(
                a,
                b,
            )[i].sign != Sign::Negative,
        intervals_overlap(a, b) && a.left.min == b.left.min ==> interval_difference_spec(a, b)[0]
            == (SignBoundary {
            min: a.left.min,
            sign: if b.left.sign == Sign::Negative {
                Sign::Positive
            } else {
                a.left.sign
            },
        }),
        intervals_overlap(a, b) && a.left.min < b.left.min ==> interval_difference_spec(a, b)[0]
            == a.left,
{
}

/// Two intervals that end after they start overlap exactly when the later start comes
/// before the earlier end.
pub proof fn law_overlap_meaning(a: SignUniformInterval, b: SignUniformInterval)
    requires
        a.left.min < a.right.min,
        b.left.min < b.right.min,
    ensures
        intervals_overlap(a, b) <==> key_max(a.left.min, b.left.min) < key_min(
            a.right.min,
            b.right.min,
        ),
{
}

/// The range of the intersection runs from the later start to the earlier end, and that of
/// the union from the earlier start to the later end: each end is one of the given ends and
/// lies on the correct side of both.
pub proof fn law_ranges_meaning(a: SignUniformInterval, b: SignUniformInterval)
    ensures
        range_intersection_spec(a, b).0 >= a.left.min && range_intersection_spec(a, b).0
            >= b.left.min,
        range_intersection_spec(a, b).0 == a.left.min || range_intersection_spec(a, b).0
            == b.left.min,
        range_intersection_spec(a, b).1 <= a.right.min && range_intersection_spec(a, b).1
            <= b.right.min,
        range_intersection_spec(a, b).1 == a.right.min || range_intersection_spec(a, b).1
            == b.right.min,
        range_union_spec(a, b).0 <= a.left.min && range_union_spec(a, b).0 <= b.left.min,
        range_union_spec(a, b).0 == a.left.min || range_union_spec(a, b).0 == b.left.min,
        range_union_spec(a, b).1 >= a.right.min && range_union_spec(a, b).1 >= b.right.min,
        range_union_spec(a, b).1 == a.right.min || range_union_spec(a, b).1 == b.right.min,
{
}

/// The union of two overlapping intervals is what holds before the overlap, then what holds
/// after it, then the boundary at the overlap start, as the decomposition gives them.
pub proof fn law_interval_union_from_decompose(a: SignUniformInterval, b: SignUniformInterval)
    requires
        intervals_overlap(a, b),
    ensures
        interval_union_spec(a, b) == option_seq(decompose_spec(a, b).0) + option_seq(
            decompose_spec(a, b).2,
        ) + seq![interval_union_spec(a, b).last()],
{
    assert(interval_union_spec(a, b) =~= option_seq(decompose_spec(a, b).0) + option_seq(
        decompose_spec(a, b).2,
    ) + seq![interval_union_spec(a, b).last()]);
}

/// The difference of two overlapping intervals (that end after they start) begins with what
/// holds before the overlap, as the decomposition gives it. It then holds the boundary at the
/// overlap start, with the outside sign where the second interval is inside and the first
/// interval's sign otherwise, unless that repeats the sign before the overlap. It ends with
/// what follows the overlap: the second interval's right boundary when the first ends later,
/// the second interval's sign from the first's end when the second ends later, and nothing
/// when both end together.
pub proof fn law_interval_difference_structure(a: SignUniformInterval, b: SignUniformInterval)
    requires
        intervals_overlap(a, b),
    ensures
        ({
            let r = interval_difference_spec(a, b);
            let start = key_max(a.left.min, b.left.min);
            let start_sign = if b.left.sign == Sign::Negative {
                Sign::Positive
            } else {
                a.left.sign
            };
            let before = option_seq(decompose_spec(a, b).0);
            let mid: Seq<SignBoundary> = if before.len() == 1 && before[0].sign == start_sign {
                Seq::empty()
            } else {
                seq![SignBoundary { min: start, sign: start_sign }]
            };
            let after: Seq<SignBoundary> = if a.right.min > b.right.min {
                seq![b.right]
            } else if b.right.min > a.right.min {
                seq![SignBoundary { min: a.right.min, sign: b.left.sign }]
            } else {
                Seq::empty()
            };
            r == before + mid + after
        }),
{
    let r = interval_difference_spec(a, b);
    let start = key_max(a.left.min, b.left.min);
    let start_sign = if b.left.sign == Sign::Negative {
        Sign::Positive
    } else {
        a.left.sign
    };
    let before = option_seq(decompose_spec(a, b).0);
    let mid: Seq<SignBoundary> = if before.len() == 1 && before[0].sign == start_sign {
        Seq::empty()
    } else {
        seq![SignBoundary { min: start, sign: start_sign }]
    };
    let after: Seq<SignBoundary> = if a.right.min > b.right.min {
        seq![b.right]
    } else if b.right.min > a.right.min {
        seq![SignBoundary { min: a.right.min, sign: b.left.sign }]
    } else {
        Seq::empty()
    };
    assert(r =~= before + mid + after);
}

/// An interval meets an open range exactly when it overlaps the interval that spans the range.
pub proof fn law_meets_range_is_overlap(i: SignUniformInterval, range: (i32, i32), s: Sign)
    ensures
        meets_range(i, range) == intervals_overlap(
            i,
            SignUniformInterval {
                left: SignBoundary { min: range.0, sign: s },
                right: SignBoundary { min: range.1, sign: s },
            },
        ),
{
}

/// The intervals found in a range are intervals of the listing that meet the open range, in
/// the listing's order, and every interval of the listing that meets it is found.
pub proof fn law_in_range_meaning(p: Seq<SignUniformInterval>, range: (i32, i32))
    ensures
        forall|i: int|
            0 <= i < intervals_in_range(p, range).len() ==> p.contains(
                #[trigger] intervals_in_range(p, range)[i],
            ) && meets_range(intervals_in_range(p, range)[i], range),
        forall|i: int|
            0 <= i < p.len() && meets_range(#[trigger] p[i], range) ==> intervals_in_range(
                p,
                range,
            ).contains(p[i]),
    decreases p.len(),
{
    if p.len() > 0 {
        let q = p.drop_last();
        law_in_range_meaning(q, range);
        let head = intervals_in_range(q, range);
        let tail: Seq<SignUniformInterval> = if meets_range(p.last(), range) {
            seq![p.last()]
        } else {
            Seq::empty()
        };
        assert(intervals_in_range(p, range) == head + tail);
        assert forall|i: int| 0 <= i < intervals_in_range(p, range).len() implies p.contains(
            #[trigger] intervals_in_range(p, range)[i],
        ) && meets_range(intervals_in_range(p, range)[i], range) by {
            if i < head.len() {
                assert(intervals_in_range(p, range)[i] == head[i]);
                assert(q.contains(head[i]));
                let k = choose|k: int| 0 <= k < q.len() && q[k] == head[i];
                assert(p[k] == head[i]);
            } else {
                assert(intervals_in_range(p, range)[i] == p.last());
                assert(p[p.len() - 1] == p.last());
            }
        }
        assert forall|i: int| 0 <= i < p.len() && meets_range(#[trigger] p[i], range) implies intervals_in_range(
            p,
            range,
        ).contains(p[i]) by {
            if i < p.len() - 1 {
                assert(q[i] == p[i]);
                assert(head.contains(p[i]));
                let k = choose|k: int| 0 <= k < head.len() && head[k] == p[i];
                assert(intervals_in_range(p, range)[k] == p[i]);
            } else {
                assert(intervals_in_range(p, range)[head.len() as int] == p[i]);
            }
        }
    }
}

} // verus!
