//! Sorted listings of boundary sets and the intervals between consecutive boundaries.
use vstd::prelude::*;
use crate::boundary::{bottom_boundary, boundary_lt, lemma_boundary_order, top_boundary, SignBoundary};
use crate::interval::SignUniformInterval;

verus! {

/// Every boundary of the sequence comes strictly before every later one.
pub open spec fn strictly_sorted(q: Seq<SignBoundary>) -> bool {
    forall|i: int, j: int| 0 <= i < j < q.len() ==> boundary_lt(#[trigger] q[i], #[trigger] q[j])
}

/// `q` lists the set `s` in ascending order, each boundary once.
pub open spec fn is_listing(q: Seq<SignBoundary>, s: Set<SignBoundary>) -> bool {
    strictly_sorted(q) && q.to_set() == s
}

/// The ascending listing of a set of boundaries (see `lemma_listing_unique`).
pub open spec fn sorted_listing(s: Set<SignBoundary>) -> Seq<SignBoundary> {
    choose|q: Seq<SignBoundary>| is_listing(q, s)
}

/// The left end of the `i`-th interval between the boundaries of `q`: `top` first.
pub open spec fn left_at(q: Seq<SignBoundary>, i: int) -> SignBoundary {
    if i == 0 {
        top_boundary()
    } else {
        q[i - 1]
    }
}

/// The right end of the `i`-th interval between the boundaries of `q`: `bottom` last.
pub open spec fn right_at(q: Seq<SignBoundary>, i: int) -> SignBoundary {
    if i == q.len() {
        bottom_boundary()
    } else {
        q[i]
    }
}

/// The intervals between consecutive boundaries of `top, q[0], ..., q[n-1], bottom`.
pub open spec fn pairs_of(q: Seq<SignBoundary>) -> Seq<SignUniformInterval> {
    Seq::new(
        q.len() + 1,
        |i: int| SignUniformInterval { left: left_at(q, i), right: right_at(q, i) },
    )
}

proof fn lemma_drop_first_listing(a: Seq<SignBoundary>, s: Set<SignBoundary>)
    requires
        is_listing(a, s),
        a.len() > 0,
    ensures
        is_listing(a.drop_first(), s.remove(a[0])),
{
    let t = a.drop_first();
    assert forall|x: SignBoundary| t.to_set().contains(x) <==> s.remove(a[0]).contains(x) by {
        if t.to_set().contains(x) {
            let k = choose|k: int| 0 <= k < t.len() && t[k] == x;
            assert(a[k + 1] == x);
            assert(boundary_lt(a[0], a[k + 1]));
            lemma_boundary_order(a[0], x, x);
            assert(a.to_set().contains(x));
        }
        if s.remove(a[0]).contains(x) {
            assert(a.to_set().contains(x));
            let k = choose|k: int| 0 <= k < a.len() && a[k] == x;
            assert(k != 0);
            assert(t[k - 1] == x);
        }
    }
    assert(t.to_set() =~= s.remove(a[0]));
    assert forall|i: int, j: int| 0 <= i < j < t.len() implies boundary_lt(t[i], t[j]) by {
        assert(t[i] == a[i + 1] && t[j] == a[j + 1]);
    }
}

/// A set of boundaries has at most one ascending listing.
pub proof fn lemma_listing_unique(a: Seq<SignBoundary>, b: Seq<SignBoundary>, s: Set<SignBoundary>)
    requires
        is_listing(a, s),
        is_listing(b, s),
    ensures
        a == b,
    decreases a.len(),
{
    if a.len() == 0 {
        if b.len() > 0 {
            assert(b.to_set().contains(b[0]));
            assert(a.to_set().contains(b[0]));
        }
        assert(a =~= b);
    } else {
        assert(a.to_set().contains(a[0]));
        if b.len() == 0 {
            assert(!b.to_set().contains(a[0]));
        }
        assert(b.to_set().contains(b[0]));
        assert(a.to_set().contains(b[0]));
        if a[0] != b[0] {
            let j = choose|j: int| 0 <= j < b.len() && b[j] == a[0];
            let i = choose|i: int| 0 <= i < a.len() && a[i] == b[0];
            assert(boundary_lt(b[0], b[j]));
            assert(boundary_lt(a[0], a[i]));
            lemma_boundary_order(a[0], b[0], a[0]);
        }
        lemma_drop_first_listing(a, s);
        lemma_drop_first_listing(b, s);
        lemma_listing_unique(a.drop_first(), b.drop_first(), s.remove(a[0]));
        assert(a.len() == b.len());
        assert forall|k: int| 0 <= k < a.len() implies a[k] == b[k] by {
            if k > 0 {
                assert(a.drop_first()[k - 1] == b.drop_first()[k - 1]);
            }
        }
        assert(a =~= b);
    }
}

/// A listing of a set is the ascending listing of that set.
pub proof fn lemma_listing_is_sorted_listing(q: Seq<SignBoundary>, s: Set<SignBoundary>)
    requires
        is_listing(q, s),
    ensures
        sorted_listing(s) == q,
{
    let c = sorted_listing(s);
    assert(is_listing(c, s));
    lemma_listing_unique(c, q, s);
}

/// There is one interval more than there are boundaries; the first starts at `top`,
/// the last ends at `bottom`, and each interval ends where the next one starts.
pub proof fn lemma_pairs_chain(q: Seq<SignBoundary>)
    ensures
        pairs_of(q).len() == q.len() + 1,
        pairs_of(q)[0].left == top_boundary(),
        pairs_of(q)[q.len() as int].right == bottom_boundary(),
        forall|i: int|
            0 <= i < q.len() ==> #[trigger] pairs_of(q)[i].right == pairs_of(q)[i + 1].left,
{
}

/// An ascending listing holds each boundary once, and its positions never decrease.
pub proof fn lemma_listing_ordered(q: Seq<SignBoundary>, s: Set<SignBoundary>)
    requires
        is_listing(q, s),
    ensures
        q.no_duplicates(),
        forall|i: int, j: int| 0 <= i < j < q.len() ==> #[trigger] q[i].min <= #[trigger] q[j].min,
{
    assert forall|i: int, j: int| 0 <= i < q.len() && 0 <= j < q.len() && i != j implies q[i]
        != q[j] by {
        if i < j {
            assert(boundary_lt(q[i], q[j]));
        } else {
            assert(boundary_lt(q[j], q[i]));
        }
    }
    assert forall|i: int, j: int| 0 <= i < j < q.len() implies #[trigger] q[i].min
        <= #[trigger] q[j].min by {
        assert(boundary_lt(q[i], q[j]));
    }
}

/// When every boundary lies strictly between `top` and `bottom`, each interval between
/// consecutive boundaries is non-empty (its left end comes before its right end) and the
/// intervals come in ascending order of their left ends.
pub proof fn lemma_pairs_ascending(q: Seq<SignBoundary>)
    requires
        strictly_sorted(q),
        forall|i: int|
            0 <= i < q.len() ==> boundary_lt(top_boundary(), #[trigger] q[i]) && boundary_lt(
                q[i],
                bottom_boundary(),
            ),
    ensures
        forall|i: int|
            0 <= i < pairs_of(q).len() ==> boundary_lt(
                #[trigger] pairs_of(q)[i].left,
                pairs_of(q)[i].right,
            ),
        forall|i: int, j: int|
            0 <= i < j < pairs_of(q).len() ==> boundary_lt(
                #[trigger] pairs_of(q)[i].left,
                #[trigger] pairs_of(q)[j].left,
            ),
{
    let p = pairs_of(q);
    assert forall|i: int| 0 <= i < p.len() implies boundary_lt(#[trigger] p[i].left, p[i].right) by {
        if i == 0 {
            if q.len() == 0 {
            } else {
                assert(boundary_lt(top_boundary(), q[0]));
            }
        } else if i == q.len() {
            assert(boundary_lt(q[i - 1], bottom_boundary()));
        } else {
            assert(boundary_lt(q[i - 1], q[i]));
        }
    }
    assert forall|i: int, j: int| 0 <= i < j < p.len() implies boundary_lt(
        #[trigger] p[i].left,
        #[trigger] p[j].left,
    ) by {
        if i == 0 {
            assert(boundary_lt(top_boundary(), q[j - 1]));
        } else {
            assert(boundary_lt(q[i - 1], q[j - 1]));
        }
    }
}

/// The intervals of a set of boundaries do not depend on the order in which its boundaries
/// were inserted, and inserting a boundary twice is inserting it once.
pub proof fn lemma_insert_order_independent(s: Set<SignBoundary>, a: SignBoundary, b: SignBoundary)
    ensures
        s.insert(a).insert(b) == s.insert(b).insert(a),
        pairs_of(sorted_listing(s.insert(a).insert(b))) == pairs_of(
            sorted_listing(s.insert(b).insert(a)),
        ),
        s.insert(a).insert(a) == s.insert(a),
{
    assert(s.insert(a).insert(b) =~= s.insert(b).insert(a));
    assert(s.insert(a).insert(a) =~= s.insert(a));
}

} // verus!
