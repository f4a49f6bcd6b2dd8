use lib::boundary::SignBoundary;
use lib::handle_stack::MeshHandleStackSpawner;
use lib::interval::SignUniformInterval;
use lib::intervals::SignUniformIntervals;
use lib::order_key::{
    bits_from_order_key, order_key_from_bits, INFINITY_KEY, NEG_INFINITY_KEY,
};
use lib::sign::Sign;

fn pos(x: f32) -> i32 {
    order_key_from_bits(x.to_bits()).unwrap()
}

fn b(x: f32, sign: Sign) -> SignBoundary {
    SignBoundary { min: pos(x), sign }
}

fn iv(left: SignBoundary, right: SignBoundary) -> SignUniformInterval {
    SignUniformInterval { left, right }
}

const ALL: [Sign; 4] = [Sign::Top, Sign::Negative, Sign::Positive, Sign::Bottom];

#[test]
fn sign_predicates() {
    assert!(!Sign::Top.is_well_behaved());
    assert!(Sign::Negative.is_well_behaved());
    assert!(Sign::Positive.is_well_behaved());
    assert!(!Sign::Bottom.is_well_behaved());
    assert!(Sign::Negative.is_negative() && !Sign::Positive.is_negative());
    // documented: "Returns true if sign is negative"
    assert!(Sign::Negative.is_positive() && !Sign::Positive.is_positive() && !Sign::Top.is_positive());
    assert_eq!(Sign::Top.rank(), 0);
    assert_eq!(Sign::Bottom.rank(), 3);
}

#[test]
fn sign_union_table() {
    assert_eq!(Sign::Negative.union(&Sign::Bottom), Sign::Negative);
    assert_eq!(Sign::Top.union(&Sign::Negative), Sign::Negative);
    assert_eq!(Sign::Positive.union(&Sign::Positive), Sign::Positive);
    assert_eq!(Sign::Positive.union(&Sign::Top), Sign::Top);
    assert_eq!(Sign::Bottom.union(&Sign::Bottom), Sign::Top);
    // commutative and associative
    for x in ALL {
        for y in ALL {
            assert_eq!(x.union(&y), y.union(&x));
            for z in ALL {
                assert_eq!(x.union(&y).union(&z), x.union(&y.union(&z)));
            }
        }
    }
}

#[test]
fn sign_flip_and_difference() {
    assert_eq!(Sign::Negative.flip(), Sign::Positive);
    assert_eq!(Sign::Top.flip(), Sign::Top);
    assert_eq!(Sign::Bottom.flip(), Sign::Bottom);
    for x in ALL {
        assert_eq!(x.flip().flip(), x.flip());
        assert_ne!(x.flip(), Sign::Negative);
        assert_eq!(x.difference(&Sign::Negative), Sign::Positive);
        assert_eq!(x.difference(&Sign::Top), x);
    }
}

#[test]
fn order_keys() {
    assert_eq!(pos(0.0), 0);
    assert_eq!(pos(-0.0), 0);
    assert_eq!(pos(1.0), 0x3F80_0000);
    assert_eq!(pos(-1.0), -0x3F80_0000);
    assert_eq!(pos(f32::INFINITY), INFINITY_KEY);
    assert_eq!(pos(f32::NEG_INFINITY), NEG_INFINITY_KEY);
    assert_eq!(order_key_from_bits(f32::NAN.to_bits()), None);
    assert!(pos(-2.5) < pos(-1.0) && pos(-1.0) < pos(0.5) && pos(0.5) < pos(f32::MAX));
    for x in [0.0f32, 1.5, -3.25, f32::MIN_POSITIVE, f32::INFINITY, f32::NEG_INFINITY] {
        assert_eq!(f32::from_bits(bits_from_order_key(pos(x))), x);
    }
    assert_eq!(bits_from_order_key(pos(-0.0)), 0.0f32.to_bits());
}

#[test]
fn boundary_basics() {
    assert_eq!(SignBoundary::top(), b(f32::NEG_INFINITY, Sign::Top));
    assert_eq!(SignBoundary::bottom(), b(f32::INFINITY, Sign::Bottom));
    assert_eq!(b(1.0, Sign::Negative).flip(), b(1.0, Sign::Positive));
    assert!(b(1.0, Sign::Positive).is_before(&b(2.0, Sign::Top)));
    assert!(b(1.0, Sign::Negative).is_before(&b(1.0, Sign::Positive)));
    assert!(!b(1.0, Sign::Negative).is_before(&b(1.0, Sign::Negative)));
}

#[test]
fn boundary_union_and_difference_with_top_and_bottom() {
    assert_eq!(b(2.0, Sign::Negative).union(&b(1.0, Sign::Top)), vec![b(1.0, Sign::Top)]);
    assert_eq!(b(2.0, Sign::Negative).union(&b(3.0, Sign::Bottom)), vec![b(2.0, Sign::Bottom)]);
    assert_eq!(b(2.0, Sign::Positive).union(&b(3.0, Sign::Positive)), vec![b(3.0, Sign::Positive)]);
    assert_eq!(b(2.0, Sign::Top).union(&b(3.0, Sign::Positive)), vec![b(2.0, Sign::Top)]);
    assert_eq!(b(2.0, Sign::Positive).difference(&b(1.0, Sign::Top)), vec![b(1.0, Sign::Top)]);
    assert_eq!(
        b(2.0, Sign::Positive).difference(&b(3.0, Sign::Bottom)),
        vec![b(2.0, Sign::Bottom)]
    );
    assert_eq!(
        b(2.0, Sign::Positive).difference(&b(3.0, Sign::Positive)),
        vec![b(2.0, Sign::Positive)]
    );
}

#[test]
fn boundary_intersection_cases() {
    let n1 = b(1.0, Sign::Negative);
    let n2 = b(2.0, Sign::Negative);
    let p1 = b(1.0, Sign::Positive);
    let p2 = b(2.0, Sign::Positive);
    assert_eq!(n1.intersection(&n2), vec![n2]);
    assert_eq!(p1.intersection(&p2), vec![p1]);
    assert_eq!(n1.intersection(&p2), vec![p2]);
    assert_eq!(p1.intersection(&n2), vec![p1]);
    assert_eq!(b(3.0, Sign::Top).intersection(&b(1.0, Sign::Top)), vec![b(1.0, Sign::Top)]);
    assert_eq!(b(3.0, Sign::Top).intersection(&n1), vec![b(3.0, Sign::Top)]);
    assert_eq!(b(3.0, Sign::Bottom).intersection(&n1), vec![n1]);
    assert_eq!(
        b(3.0, Sign::Bottom).intersection(&b(4.0, Sign::Bottom)),
        vec![b(3.0, Sign::Bottom)]
    );
    // commutative
    for x in ALL {
        for y in ALL {
            let l = b(1.0, x);
            let r = b(2.0, y);
            assert_eq!(l.intersection(&r), r.intersection(&l));
        }
    }
}

#[test]
fn differences_and_unions_on_empty_lists() {
    assert_eq!(b(0.0, Sign::Negative).unions_over(&vec![]), vec![]);
    assert_eq!(b(0.0, Sign::Negative).differences_over(&vec![]), vec![]);
    assert_eq!(SignBoundary::unions_on(&vec![]), vec![]);
    let mapping = vec![
        (b(0.0, Sign::Negative), vec![b(1.0, Sign::Negative)]),
        (b(2.0, Sign::Positive), vec![b(1.0, Sign::Negative), b(3.0, Sign::Positive)]),
    ];
    assert_eq!(
        SignBoundary::differences_on(&mapping),
        vec![
            b(0.0, Sign::Negative),
            b(1.0, Sign::Positive),
            b(1.0, Sign::Positive),
            b(2.0, Sign::Positive),
        ]
    );
}

#[test]
fn interval_ranges_and_overlap() {
    let a = iv(b(0.0, Sign::Negative), b(2.0, Sign::Positive));
    let c = iv(b(1.0, Sign::Positive), b(3.0, Sign::Top));
    let far = iv(b(2.0, Sign::Negative), b(4.0, Sign::Top));
    assert_eq!(a.open_range(), (pos(0.0), pos(2.0)));
    assert!(a.is_well_behaved());
    assert!(!iv(b(0.0, Sign::Top), b(1.0, Sign::Top)).is_well_behaved());
    assert!(a.overlaps_with(&c) && c.overlaps_with(&a));
    // open ranges that only touch do not overlap
    assert!(!a.overlaps_with(&far) && !far.overlaps_with(&a));
    assert_eq!(a.range_intersection(&c), (pos(1.0), pos(2.0)));
    assert_eq!(a.range_union(&c), (pos(0.0), pos(3.0)));
    assert_eq!(c.range_intersection(&a), a.range_intersection(&c));
}

#[test]
fn interval_decompose() {
    let a = iv(b(0.0, Sign::Negative), b(3.0, Sign::Positive));
    let c = iv(b(1.0, Sign::Positive), b(2.0, Sign::Top));
    assert_eq!(
        a.decompose(&c),
        (Some(b(0.0, Sign::Negative)), Some(pos(1.0)), Some(b(2.0, Sign::Negative)))
    );
    assert_eq!(c.decompose(&a), a.decompose(&c));
    let far = iv(b(5.0, Sign::Negative), b(6.0, Sign::Top));
    assert_eq!(a.decompose(&far), (None, None, None));
}

#[test]
fn interval_union() {
    let a = iv(b(0.0, Sign::Positive), b(3.0, Sign::Positive));
    let c = iv(b(1.0, Sign::Negative), b(2.0, Sign::Top));
    assert_eq!(
        a.union(&c),
        vec![b(0.0, Sign::Positive), b(2.0, Sign::Positive), b(1.0, Sign::Negative)]
    );
    assert_eq!(c.union(&a), a.union(&c));
    let far = iv(b(5.0, Sign::Negative), b(6.0, Sign::Top));
    assert_eq!(a.union(&far), vec![a.left, a.right, far.left, far.right]);
    assert_eq!(a.difference(&far), vec![a.left, a.right, far.left, far.right]);
}

#[test]
fn intervals_in_range_and_insert_interval() {
    let mut s = SignUniformIntervals::default();
    s.insert_interval(iv(b(1.0, Sign::Negative), b(4.0, Sign::Positive)));
    s.insert_boundary(b(2.0, Sign::Positive));
    s.insert_boundary(b(2.0, Sign::Positive));
    let r = s.in_range((pos(1.0), pos(4.0)));
    assert_eq!(
        r,
        vec![
            iv(b(1.0, Sign::Negative), b(2.0, Sign::Positive)),
            iv(b(2.0, Sign::Positive), b(4.0, Sign::Positive)),
        ]
    );
    let copy = s.clone();
    assert_eq!(copy.into_iter().collect().len(), 4);
    assert_eq!(
        s.in_range((pos(5.0), pos(6.0))),
        vec![iv(b(4.0, Sign::Positive), SignBoundary::bottom())]
    );
}

#[test]
fn in_range_inside_one_interval() {
    let mut s = SignUniformIntervals::default();
    s.insert_boundary(b(0.0, Sign::Negative));
    s.insert_boundary(b(5.0, Sign::Positive));
    let r = s.in_range((pos(1.0), pos(4.0)));
    assert_eq!(r, vec![iv(b(0.0, Sign::Negative), b(5.0, Sign::Positive))]);
    assert!(r.iter().all(|i| i.left.sign == Sign::Negative));
    // a range that ends where it starts is tested like an interval: it meets the interval
    // that holds its position
    assert_eq!(
        s.in_range((pos(2.0), pos(2.0))),
        vec![iv(b(0.0, Sign::Negative), b(5.0, Sign::Positive))]
    );
    // a range that starts where an interval ends does not meet it
    assert_eq!(
        s.in_range((pos(5.0), pos(6.0))),
        vec![iv(b(5.0, Sign::Positive), SignBoundary::bottom())]
    );
}

#[test]
fn interval_difference_when_second_ends_later() {
    let a = iv(b(2.0, Sign::Negative), b(3.0, Sign::Top));
    let c = iv(b(2.0, Sign::Positive), b(4.0, Sign::Top));
    assert_eq!(a.difference(&c), vec![b(2.0, Sign::Negative), b(3.0, Sign::Positive)]);
}

#[test]
fn intervals_insertion_order_and_chain() {
    let mut x = SignUniformIntervals::default();
    x.insert_boundary(b(3.0, Sign::Positive));
    x.insert_boundary(b(-1.0, Sign::Negative));
    x.insert_boundary(b(3.0, Sign::Negative));
    let mut y = SignUniformIntervals::default();
    y.insert_boundary(b(3.0, Sign::Negative));
    y.insert_boundary(b(3.0, Sign::Positive));
    y.insert_boundary(b(-1.0, Sign::Negative));
    let px = x.into_iter().collect();
    let py = y.into_iter().collect();
    assert_eq!(px, py);
    assert_eq!(px[0].left, SignBoundary::top());
    assert_eq!(px[px.len() - 1].right, SignBoundary::bottom());
    for i in 0..px.len() - 1 {
        assert_eq!(px[i].right, px[i + 1].left);
        assert!(px[i].left.is_before(&px[i + 1].left));
    }
    // same position: negative before positive
    assert_eq!(px[2].left, b(3.0, Sign::Negative));
}

#[test]
fn intervals_overlaps_with() {
    let mut left = SignUniformIntervals::default();
    left.insert_boundary(b(0.0, Sign::Negative));
    left.insert_boundary(b(5.0, Sign::Positive));
    let mut right = SignUniformIntervals::default();
    right.insert_boundary(b(2.0, Sign::Negative));
    let first = iv(SignBoundary::top(), b(2.0, Sign::Negative));
    let second = iv(b(2.0, Sign::Negative), SignBoundary::bottom());
    let third = iv(b(5.0, Sign::Positive), SignBoundary::bottom());
    let overlaps = left.overlaps_with(&right);
    assert_eq!(
        overlaps,
        vec![
            (Some(iv(SignBoundary::top(), b(0.0, Sign::Negative))), vec![first]),
            (Some(iv(b(0.0, Sign::Negative), b(5.0, Sign::Positive))), vec![first, second]),
            (Some(third), vec![second]),
        ]
    );
    // a right interval that no left interval overlaps goes under `None`
    let mut with_top = SignUniformIntervals::default();
    with_top.insert_boundary(SignBoundary::top());
    let nothing = SignUniformIntervals::default();
    let whole_line = iv(SignBoundary::top(), SignBoundary::bottom());
    assert_eq!(
        nothing.overlaps_with(&with_top),
        vec![
            (None, vec![iv(SignBoundary::top(), SignBoundary::top())]),
            (Some(whole_line), vec![whole_line]),
        ]
    );
    // with no boundaries on either side, the single interval overlaps the single interval
    let empty = SignUniformIntervals::default();
    let whole = iv(SignBoundary::top(), SignBoundary::bottom());
    assert_eq!(empty.overlaps_with(&empty.clone()), vec![(Some(whole), vec![whole])]);
}

#[test]
fn handle_stack_picks_cyclically() {
    let spawner: MeshHandleStackSpawner<&str, u32> = MeshHandleStackSpawner::new();
    assert_eq!(spawner.get_ball_for_index(3), None);
    assert_eq!(spawner.get_stick_for_index(0), None);
    let spawner = spawner
        .with_ball_mesh_handle_stack(vec!["a", "b", "c"])
        .with_stick_mesh_handle_stack(vec![7]);
    assert_eq!(spawner.get_ball_for_index(0), Some(&"a"));
    assert_eq!(spawner.get_ball_for_index(4), Some(&"b"));
    assert_eq!(spawner.get_ball_for_index(4 + 3), spawner.get_ball_for_index(4));
    assert_eq!(spawner.get_stick_for_index(usize::MAX), Some(&7));
}
