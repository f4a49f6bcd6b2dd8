use vstd::prelude::*;

verus! {

/// The sign of a signed distance field over a region.
#[derive(Debug, Clone, Copy, PartialEq, Eq, Structural, PartialOrd, Ord)]
pub enum Sign {
    /// The sign is unknown.
    Top,
    /// The sign is negative.
    Negative,
    /// The sign is positive.
    Positive,
    /// The sign is known but undefined.
    Bottom,
}

/// The rank of a sign in the order `Top < Negative < Positive < Bottom`.
pub open spec fn sign_rank(s: Sign) -> int {
    match s {
        Sign::Top => 0,
        Sign::Negative => 1,
        Sign::Positive => 2,
        Sign::Bottom => 3,
    }
}

/// Union of two signs: negative wins, two positives stay positive, anything else is unknown.
pub open spec fn sign_union(a: Sign, b: Sign) -> Sign {
    if a == Sign::Negative || b == Sign::Negative {
        Sign::Negative
    } else if a == Sign::Positive && b == Sign::Positive {
        Sign::Positive
    } else {
        Sign::Top
    }
}

/// A negative sign becomes positive; every other sign is kept.
pub open spec fn sign_flip(s: Sign) -> Sign {
    if s == Sign::Negative {
        Sign::Positive
    } else {
        s
    }
}

/// Difference of two signs: carving out a negative region leaves a positive one,
/// otherwise the first sign stays.
pub open spec fn sign_difference(a: Sign, b: Sign) -> Sign {
    if b == Sign::Negative {
        Sign::Positive
    } else {
        a
    }
}

impl Sign {
    /// Returns true if the sign is well behaved.
    pub fn is_well_behaved(&self) -> (r: bool)
        ensures
            r == (*self == Sign::Negative || *self == Sign::Positive),
    {
        match self {
            Sign::Negative | Sign::Positive => true,
            _ => false,
        }
    }

    /// Returns true if sign is negative
    pub fn is_negative(&self) -> (r: bool)
        ensures
            r == (*self == Sign::Negative),
    {
        match self {
            Sign::Negative => true,
            _ => false,
        }
    }

    /// Returns true if sign is negative
    pub fn is_positive(&self) -> (r: bool)
        ensures
            r == (*self == Sign::Negative),
    {
        match self {
            Sign::Negative => true,
            _ => false,
        }
    }

    /// Returns the union of the two signs.
    pub fn union(&self, other: &Self) -> (r: Self)
        ensures
            r == sign_union(*self, *other),
    {
        match (self, other) {
            (Sign::Negative, _) => Sign::Negative,
            (_, Sign::Negative) => Sign::Negative,
            (Sign::Positive, Sign::Positive) => Sign::Positive,
            _ => Sign::Top,
        }
    }

    /// Flips the sign if negative, otherwise returns the sign.
    pub fn flip(&self) -> (r: Self)
        ensures
            r == sign_flip(*self),
    {
        if self.is_negative() {
            Sign::Positive
        } else {
            *self
        }
    }

    /// Returns the difference of the two signs.
    pub fn difference(&self, other: &Self) -> (r: Self)
        ensures
            r == sign_difference(*self, *other),
    {
        match other {
            // whatever the self sign is, if the other is negative, then the result is positive
            Sign::Negative => Sign::Positive,
            // otherwise, the sign stays the same
            _ => *self,
        }
    }

    /// The position of the sign in the order `Top < Negative < Positive < Bottom`.
    pub fn rank(&self) -> (r: u8)
        ensures
            r as int == sign_rank(*self),
    {
        match self {
            Sign::Top => 0,
            Sign::Negative => 1,
            Sign::Positive => 2,
            Sign::Bottom => 3,
        }
    }
}

/// The union of signs does not depend on the order of its arguments.
pub proof fn lemma_sign_union_commutative(a: Sign, b: Sign)
    ensures
        sign_union(a, b) == sign_union(b, a),
{
}

/// The union of signs is associative.
pub proof fn lemma_sign_union_associative(a: Sign, b: Sign, c: Sign)
    ensures
        sign_union(sign_union(a, b), c) == sign_union(a, sign_union(b, c)),
{
}

/// The union of a sign with itself is that sign, for every sign but `Bottom`
/// (two undefined regions unite to an unknown one).
pub proof fn lemma_sign_union_idempotent(a: Sign)
    requires
        a != Sign::Bottom,
    ensures
        sign_union(a, a) == a,
{
}

/// Flipping twice is flipping once, and a flipped sign is never negative.
pub proof fn lemma_sign_flip_idempotent(a: Sign)
    ensures
        sign_flip(sign_flip(a)) == sign_flip(a),
        sign_flip(a) != Sign::Negative,
{
}

} // verus!
