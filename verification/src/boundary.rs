//! Sign boundaries and the combinators that merge them pairwise.
use vstd::prelude::*;
use crate::order_key::{INFINITY_KEY, NEG_INFINITY_KEY};
use crate::sign::{sign_flip, sign_rank, Sign};

verus! {

/// The sign is uniform from `min` up to the next boundary of an interval set.
///
/// `min` is the order key of the position (see `order_key`).
#[derive(Debug, Clone, Copy, PartialEq, Eq, Structural, PartialOrd, Ord)]
pub struct SignBoundary {
    pub min: i32,
    pub sign: Sign,
}

/// Boundaries are ordered by position, then by sign (`Top < Negative < Positive < Bottom`).
pub open spec fn boundary_lt(a: SignBoundary, b: SignBoundary) -> bool {
    a.min < b.min || (a.min == b.min && sign_rank(a.sign) < sign_rank(b.sign))
}

/// The boundary from which the sign is unknown: negative infinity, `Top`.
pub open spec fn top_boundary() -> SignBoundary {
    SignBoundary { min: NEG_INFINITY_KEY, sign: Sign::Top }
}

/// The boundary from which the sign is undefined: positive infinity, `Bottom`.
pub open spec fn bottom_boundary() -> SignBoundary {
    SignBoundary { min: INFINITY_KEY, sign: Sign::Bottom }
}

pub open spec fn key_min(a: i32, b: i32) -> i32 {
    if a <= b {
        a
    } else {
        b
    }
}

pub open spec fn key_max(a: i32, b: i32) -> i32 {
    if a >= b {
        a
    } else {
        b
    }
}

/// The boundary with its sign flipped (see `sign_flip`), at the same position.
pub open spec fn boundary_flip(b: SignBoundary) -> SignBoundary {
    SignBoundary { min: b.min, sign: sign_flip(b.sign) }
}

/// What the union of boundary `a` with boundary `b` of the other operand contributes: a
/// negative `b` comes in (alone when it starts before `a`); a positive `b` takes the place of
/// a positive `a` and leaves any other `a`; an unknown or undefined `b` holds from the earlier
/// of the two positions.
pub open spec fn boundary_union(a: SignBoundary, b: SignBoundary) -> Seq<SignBoundary> {
    match b.sign {
        Sign::Negative => if b.min < a.min {
            seq![b]
        } else {
            seq![a, b]
        },
        Sign::Positive => if a.sign == Sign::Positive {
            seq![b]
        } else {
            seq![a]
        },
        Sign::Top => seq![SignBoundary { min: key_min(a.min, b.min), sign: Sign::Top }],
        Sign::Bottom => seq![SignBoundary { min: key_min(a.min, b.min), sign: Sign::Bottom }],
    }
}

/// What the difference of boundary `a` minus boundary `b` contributes: a negative `b` comes
/// in flipped to positive (alone when it starts before `a`); a positive `b` leaves `a`; an
/// unknown or undefined `b` holds from the earlier of the two positions.
pub open spec fn boundary_difference(a: SignBoundary, b: SignBoundary) -> Seq<SignBoundary> {
    match b.sign {
        Sign::Negative => if b.min < a.min {
            seq![boundary_flip(b)]
        } else {
            seq![a, boundary_flip(b)]
        },
        Sign::Positive => seq![a],
        Sign::Top => seq![SignBoundary { min: key_min(a.min, b.min), sign: Sign::Top }],
        Sign::Bottom => seq![SignBoundary { min: key_min(a.min, b.min), sign: Sign::Bottom }],
    }
}

/// What the intersection of boundaries `a` and `b` contributes.
pub open spec fn boundary_intersection(a: SignBoundary, b: SignBoundary) -> Seq<SignBoundary> {
    match (a.sign, b.sign) {
        (Sign::Top, Sign::Top) => seq![SignBoundary { min: key_min(a.min, b.min), sign: Sign::Top }],
        (Sign::Top, _) => seq![a],
        (_, Sign::Top) => seq![b],
        (Sign::Bottom, Sign::Bottom) => seq![
            SignBoundary { min: key_min(a.min, b.min), sign: Sign::Bottom },
        ],
        (Sign::Bottom, _) => seq![b],
        (_, Sign::Bottom) => seq![a],
        (Sign::Negative, Sign::Negative) => seq![
            SignBoundary { min: key_max(a.min, b.min), sign: Sign::Negative },
        ],
        (Sign::Positive, Sign::Positive) => seq![
            SignBoundary { min: key_min(a.min, b.min), sign: Sign::Positive },
        ],
        (Sign::Negative, Sign::Positive) => seq![SignBoundary { min: b.min, sign: Sign::Positive }],
        (Sign::Positive, Sign::Negative) => seq![SignBoundary { min: a.min, sign: Sign::Positive }],
    }
}

/// The unions of `a` with each of `others`, concatenated in order.
pub open spec fn unions_over_spec(a: SignBoundary, others: Seq<SignBoundary>) -> Seq<SignBoundary>
    decreases others.len(),
{
    if others.len() == 0 {
        Seq::empty()
    } else {
        unions_over_spec(a, others.drop_last()) + boundary_union(a, others.last())
    }
}

/// The differences of `a` with each of `others`, concatenated in order.
pub open spec fn differences_over_spec(a: SignBoundary, others: Seq<SignBoundary>) -> Seq<
    SignBoundary,
>
    decreases others.len(),
{
    if others.len() == 0 {
        Seq::empty()
    } else {
        differences_over_spec(a, others.drop_last()) + boundary_difference(a, others.last())
    }
}

/// For each pair of a mapping, the unions of its boundary with its list, concatenated in order.
pub open spec fn unions_on_spec(mapping: Seq<(SignBoundary, Vec<SignBoundary>)>) -> Seq<
    SignBoundary,
>
    decreases mapping.len(),
{
    if mapping.len() == 0 {
        Seq::empty()
    } else {
        unions_on_spec(mapping.drop_last()) + unions_over_spec(
            mapping.last().0,
            mapping.last().1@,
        )
    }
}

/// For each pair of a mapping, the differences of its boundary with its list, concatenated in order.
pub open spec fn differences_on_spec(mapping: Seq<(SignBoundary, Vec<SignBoundary>)>) -> Seq<
    SignBoundary,
>
    decreases mapping.len(),
{
    if mapping.len() == 0 {
        Seq::empty()
    } else {
        differences_on_spec(mapping.drop_last()) + differences_over_spec(
            mapping.last().0,
            mapping.last().1@,
        )
    }
}

fn key_min_exec(a: i32, b: i32) -> (r: i32)
    ensures
        r == key_min(a, b),
{
    if a <= b {
        a
    } else {
        b
    }
}

fn key_max_exec(a: i32, b: i32) -> (r: i32)
    ensures
        r == key_max(a, b),
{
    if a >= b {
        a
    } else {
        b
    }
}

/// Appends all of `part` to `result`.
fn append_all(result: &mut Vec<SignBoundary>, part: Vec<SignBoundary>)
    ensures
        final(result)@ == old(result)@ + part@,
{
    let mut part = part;
    result.append(&mut part);
}

fn one(a: SignBoundary) -> (r: Vec<SignBoundary>)
    ensures
        r@ == seq![a],
{
    let mut r = Vec::new();
    r.push(a);
    r
}

fn two(a: SignBoundary, b: SignBoundary) -> (r: Vec<SignBoundary>)
    ensures
        r@ == seq![a, b],
{
    let mut r = Vec::new();
    r.push(a);
    r.push(b);
    r
}

impl SignBoundary {
    /// The sign is uniformly unknown from negative infinity.
    pub fn top() -> (r: Self)
        ensures
            r == top_boundary(),
    {
        SignBoundary { min: NEG_INFINITY_KEY, sign: Sign::Top }
    }

    /// The sign is uniformly undefined from positive infinity.
    pub fn bottom() -> (r: Self)
        ensures
            r == bottom_boundary(),
    {
        SignBoundary { min: INFINITY_KEY, sign: Sign::Bottom }
    }

    /// Constructs a version of the boundary with the sign flipped.
    pub fn flip(&self) -> (r: Self)
        ensures
            r == boundary_flip(*self),
    {
        SignBoundary { min: self.min, sign: self.sign.flip() }
    }

    /// Whether this boundary comes strictly before `other` (position, then sign).
    pub fn is_before(&self, other: &Self) -> (r: bool)
        ensures
            r == boundary_lt(*self, *other),
    {
        self.min < other.min || (self.min == other.min && self.sign.rank() < other.sign.rank())
    }

    /// The union of this boundary with a boundary of the other operand.
    pub fn union(&self, other: &SignBoundary) -> (r: Vec<SignBoundary>)
        ensures
            r@ == boundary_union(*self, *other),
    {
        match other.sign {
            Sign::Negative => {
                if other.min < self.min {
                    // this negates self entirely as far as this pair is concerned;
                    // a later normalization pass drops what it shadows
                    one(*other)
                } else {
                    two(*self, *other)
                }
            },
            // a positive self gives way to the other positive boundary; otherwise self is
            // kept: negativity, unknownness and undefinedness all survive
            Sign::Positive => match self.sign {
                Sign::Positive => one(*other),
                _ => one(*self),
            },
            // unknown from the lowest point
            Sign::Top => one(SignBoundary { min: key_min_exec(self.min, other.min), sign: Sign::Top }),
            // undefined from the lowest point
            Sign::Bottom => one(
                SignBoundary { min: key_min_exec(self.min, other.min), sign: Sign::Bottom },
            ),
        }
    }

    /// The difference of this boundary minus a boundary of the other operand.
    pub fn difference(&self, other: &SignBoundary) -> (r: Vec<SignBoundary>)
        ensures
            r@ == boundary_difference(*self, *other),
    {
        match other.sign {
            Sign::Negative => {
                if other.min < self.min {
                    // this negates self entirely as far as this pair is concerned
                    one(other.flip())
                } else {
                    two(*self, other.flip())
                }
            },
            Sign::Positive => one(*self),
            Sign::Top => one(SignBoundary { min: key_min_exec(self.min, other.min), sign: Sign::Top }),
            Sign::Bottom => one(
                SignBoundary { min: key_min_exec(self.min, other.min), sign: Sign::Bottom },
            ),
        }
    }

    /// The intersection of this boundary with a boundary of the other operand.
    pub fn intersection(&self, other: &SignBoundary) -> (r: Vec<SignBoundary>)
        ensures
            r@ == boundary_intersection(*self, *other),
    {
        match (self.sign, other.sign) {
            // Top gets normalized
            (Sign::Top, Sign::Top) => one(
                SignBoundary { min: key_min_exec(self.min, other.min), sign: Sign::Top },
            ),
            // Top gets preserved
            (Sign::Top, _) => one(*self),
            (_, Sign::Top) => one(*other),
            // Bottom gets normalized
            (Sign::Bottom, Sign::Bottom) => one(
                SignBoundary { min: key_min_exec(self.min, other.min), sign: Sign::Bottom },
            ),
            // Bottom gives way to the other operand
            (Sign::Bottom, _) => one(*other),
            (_, Sign::Bottom) => one(*self),
            // both negative: negative from the later of the two
            (Sign::Negative, Sign::Negative) => one(
                SignBoundary { min: key_max_exec(self.min, other.min), sign: Sign::Negative },
            ),
            // both positive: positive from the earlier of the two
            (Sign::Positive, Sign::Positive) => one(
                SignBoundary { min: key_min_exec(self.min, other.min), sign: Sign::Positive },
            ),
            // positive from where the positive operand is positive
            (Sign::Negative, Sign::Positive) => one(
                SignBoundary { min: other.min, sign: Sign::Positive },
            ),
            (Sign::Positive, Sign::Negative) => one(
                SignBoundary { min: self.min, sign: Sign::Positive },
            ),
        }
    }

    /// Computes the union of this boundary with a list of other boundaries.
    ///
    /// The assumption here is that the other boundaries are all of the intersecting RHS boundaries
    /// before the next LHS boundary.
    pub fn unions_over(&self, others_before_next: &Vec<SignBoundary>) -> (r: Vec<SignBoundary>)
        ensures
            r@ == unions_over_spec(*self, others_before_next@),
    {
        let mut result: Vec<SignBoundary> = Vec::new();
        let mut i: usize = 0;
        while i < others_before_next.len()
            invariant
                i <= others_before_next@.len(),
                result@ == unions_over_spec(*self, others_before_next@.take(i as int)),
            decreases others_before_next@.len() - i,
        {
            let part = self.union(&others_before_next[i]);
            append_all(&mut result, part);
            assert(others_before_next@.take(i + 1).drop_last() =~= others_before_next@.take(
                i as int,
            ));
            i = i + 1;
        }
        assert(others_before_next@.take(i as int) =~= others_before_next@);
        result
    }

    /// Computes the difference of this boundary with a list of other boundaries.
    pub fn differences_over(&self, others_before_next: &Vec<SignBoundary>) -> (r: Vec<
        SignBoundary,
    >)
        ensures
            r@ == differences_over_spec(*self, others_before_next@),
    {
        let mut result: Vec<SignBoundary> = Vec::new();
        let mut i: usize = 0;
        while i < others_before_next.len()
            invariant
                i <= others_before_next@.len(),
                result@ == differences_over_spec(*self, others_before_next@.take(i as int)),
            decreases others_before_next@.len() - i,
        {
            let part = self.difference(&others_before_next[i]);
            append_all(&mut result, part);
            assert(others_before_next@.take(i + 1).drop_last() =~= others_before_next@.take(
                i as int,
            ));
            i = i + 1;
        }
        assert(others_before_next@.take(i as int) =~= others_before_next@);
        result
    }

    /// For each boundary of the mapping, the unions with its list, concatenated.
    pub fn unions_on(mapping: &Vec<(SignBoundary, Vec<SignBoundary>)>) -> (r: Vec<SignBoundary>)
        ensures
            r@ == unions_on_spec(mapping@),
    {
        let mut result: Vec<SignBoundary> = Vec::new();
        let mut i: usize = 0;
        while i < mapping.len()
            invariant
                i <= mapping@.len(),
                result@ == unions_on_spec(mapping@.take(i as int)),
            decreases mapping@.len() - i,
        {
            let part = mapping[i].0.unions_over(&mapping[i].1);
            append_all(&mut result, part);
            assert(mapping@.take(i + 1).drop_last() =~= mapping@.take(i as int));
            i = i + 1;
        }
        assert(mapping@.take(i as int) =~= mapping@);
        result
    }

    /// For each boundary of the mapping, the differences with its list, concatenated.
    pub fn differences_on(mapping: &Vec<(SignBoundary, Vec<SignBoundary>)>) -> (r: Vec<
        SignBoundary,
    >)
        ensures
            r@ == differences_on_spec(mapping@),
    {
        let mut result: Vec<SignBoundary> = Vec::new();
        let mut i: usize = 0;
        while i < mapping.len()
            invariant
                i <= mapping@.len(),
                result@ == differences_on_spec(mapping@.take(i as int)),
            decreases mapping@.len() - i,
        {
            let part = mapping[i].0.differences_over(&mapping[i].1);
            append_all(&mut result, part);
            assert(mapping@.take(i + 1).drop_last() =~= mapping@.take(i as int));
            i = i + 1;
        }
        assert(mapping@.take(i as int) =~= mapping@);
        result
    }
}

/// The unions of a boundary over a concatenated list are the unions over each part, concatenated.
pub proof fn lemma_unions_over_concat(a: SignBoundary, l: Seq<SignBoundary>, m: Seq<SignBoundary>)
    ensures
        unions_over_spec(a, l + m) == unions_over_spec(a, l) + unions_over_spec(a, m),
    decreases m.len(),
{
    if m.len() == 0 {
        assert(l + m =~= l);
        assert(unions_over_spec(a, l) + unions_over_spec(a, m) =~= unions_over_spec(a, l));
    } else {
        assert((l + m).drop_last() =~= l + m.drop_last());
        lemma_unions_over_concat(a, l, m.drop_last());
        assert(unions_over_spec(a, l + m) =~= unions_over_spec(a, l) + unions_over_spec(a, m));
    }
}

/// The differences of a boundary over a concatenated list are the differences over each
/// part, concatenated.
pub proof fn lemma_differences_over_concat(
    a: SignBoundary,
    l: Seq<SignBoundary>,
    m: Seq<SignBoundary>,
)
    ensures
        differences_over_spec(a, l + m) == differences_over_spec(a, l) + differences_over_spec(
            a,
            m,
        ),
    decreases m.len(),
{
    if m.len() == 0 {
        assert(l + m =~= l);
        assert(differences_over_spec(a, l) + differences_over_spec(a, m) =~= differences_over_spec(
            a,
            l,
        ));
    } else {
        assert((l + m).drop_last() =~= l + m.drop_last());
        lemma_differences_over_concat(a, l, m.drop_last());
        assert(differences_over_spec(a, l + m) =~= differences_over_spec(a, l)
            + differences_over_spec(a, m));
    }
}

/// Unions over a concatenated mapping are the unions over each part, concatenated.
pub proof fn lemma_unions_on_concat(
    l: Seq<(SignBoundary, Vec<SignBoundary>)>,
    m: Seq<(SignBoundary, Vec<SignBoundary>)>,
)
    ensures
        unions_on_spec(l + m) == unions_on_spec(l) + unions_on_spec(m),
    decreases m.len(),
{
    if m.len() == 0 {
        assert(l + m =~= l);
        assert(unions_on_spec(l) + unions_on_spec(m) =~= unions_on_spec(l));
    } else {
        assert((l + m).drop_last() =~= l + m.drop_last());
        lemma_unions_on_concat(l, m.drop_last());
        assert(unions_on_spec(l + m) =~= unions_on_spec(l) + unions_on_spec(m));
    }
}

/// Differences over a concatenated mapping are the differences over each part, concatenated.
pub proof fn lemma_differences_on_concat(
    l: Seq<(SignBoundary, Vec<SignBoundary>)>,
    m: Seq<(SignBoundary, Vec<SignBoundary>)>,
)
    ensures
        differences_on_spec(l + m) == differences_on_spec(l) + differences_on_spec(m),
    decreases m.len(),
{
    if m.len() == 0 {
        assert(l + m =~= l);
        assert(differences_on_spec(l) + differences_on_spec(m) =~= differences_on_spec(l));
    } else {
        assert((l + m).drop_last() =~= l + m.drop_last());
        lemma_differences_on_concat(l, m.drop_last());
        assert(differences_on_spec(l + m) =~= differences_on_spec(l) + differences_on_spec(m));
    }
}

/// The intersection of two boundaries does not depend on their order.
pub proof fn lemma_boundary_intersection_commutative(a: SignBoundary, b: SignBoundary)
    ensures
        boundary_intersection(a, b) == boundary_intersection(b, a),
{
}

/// Flipping a boundary keeps its position and never leaves it negative.
pub proof fn lemma_boundary_flip(b: SignBoundary)
    ensures
        boundary_flip(b).min == b.min,
        boundary_flip(b).sign != Sign::Negative,
        boundary_flip(boundary_flip(b)) == boundary_flip(b),
{
}

/// `boundary_lt` is a strict total order on boundaries.
pub proof fn lemma_boundary_order(a: SignBoundary, b: SignBoundary, c: SignBoundary)
    ensures
        !boundary_lt(a, a),
        boundary_lt(a, b) ==> !boundary_lt(b, a),
        boundary_lt(a, b) && boundary_lt(b, c) ==> boundary_lt(a, c),
        a == b || boundary_lt(a, b) || boundary_lt(b, a),
{
}

} // verus!
