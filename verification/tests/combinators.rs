use lib::boundary::SignBoundary;
use lib::interval::SignUniformInterval;
use lib::order_key::order_key_from_bits;
use lib::sign::Sign;

/// A boundary at a position on the sampled axis.
fn at(min: f32, sign: Sign) -> SignBoundary {
    SignBoundary { min: order_key_from_bits(min.to_bits()).unwrap(), sign }
}

#[test]
fn test_lower_left_negative_difference() {
    let interval1 = SignUniformInterval {
        left: at(0.0, Sign::Negative),
        right: at(2.0, Sign::Positive),
    };
    let interval2 = SignUniformInterval {
        left: at(1.0, Sign::Negative),
        right: at(2.0, Sign::Positive),
    };
    let result = interval1.difference(&interval2);
    assert_eq!(result, vec![at(0.0, Sign::Negative), at(1.0, Sign::Positive)]);
}

#[test]
fn test_lower_left_positive_difference() {
    let interval1 = SignUniformInterval {
        left: at(0.0, Sign::Positive),
        right: at(2.0, Sign::Negative),
    };
    let interval2 = SignUniformInterval {
        left: at(1.0, Sign::Negative),
        right: at(2.0, Sign::Positive),
    };
    let result = interval1.difference(&interval2);
    assert_eq!(result, vec![at(0.0, Sign::Positive)]);
}

#[test]
fn test_left_match() {
    let interval1 = SignUniformInterval {
        left: at(2.0, Sign::Negative),
        right: at(3.0, Sign::Positive),
    };
    let interval2 = SignUniformInterval {
        left: at(2.0, Sign::Positive),
        right: at(4.0, Sign::Top),
    };
    let result = interval1.difference(&interval2);
    assert_eq!(result, vec![at(2.0, Sign::Negative), at(3.0, Sign::Positive)]);
}

#[test]
fn test_contain_carves_out() {
    let interval1 = SignUniformInterval {
        left: at(0.0, Sign::Negative),
        right: at(3.0, Sign::Positive),
    };
    let interval2 = SignUniformInterval {
        left: at(1.0, Sign::Negative),
        right: at(2.0, Sign::Positive),
    };

    let result = interval1.difference(&interval2);
    assert_eq!(
        result,
        vec![at(0.0, Sign::Negative), at(1.0, Sign::Positive), at(2.0, Sign::Positive)]
    );
}

#[test]
fn test_difference_over_rhs_one_negative() {
    let boundary = at(0.0, Sign::Negative);
    let others = vec![at(1.0, Sign::Negative)];
    let result = boundary.differences_over(&others);
    assert_eq!(result, vec![at(0.0, Sign::Negative), at(1.0, Sign::Positive)]);
}

#[test]
fn test_difference_over_rhs_before_lhs_negative() {
    let boundary = at(0.0, Sign::Negative);
    let others = vec![at(-1.0, Sign::Negative)];
    let result = boundary.differences_over(&others);
    assert_eq!(result, vec![at(-1.0, Sign::Positive)]);
}

#[test]
fn boundary_test_unions_over_rhs_before_lhs_positive() {
    let boundary = at(0.0, Sign::Negative);
    let others = vec![at(-1.0, Sign::Positive)];
    let result = boundary.differences_over(&others);
    assert_eq!(result, vec![at(0.0, Sign::Negative)]);
}

#[test]
fn test_differences_over_rhs_many_simple() {
    let boundary = at(0.0, Sign::Negative);
    let others = vec![at(1.0, Sign::Positive), at(2.0, Sign::Negative)];
    let result = boundary.differences_over(&others);
    assert_eq!(
        result,
        vec![at(0.0, Sign::Negative), at(0.0, Sign::Negative), at(2.0, Sign::Positive)]
    )
}

#[test]
fn test_unions_over_rhs_one_negative() {
    let boundary = at(0.0, Sign::Positive);
    let others = vec![at(1.0, Sign::Negative)];
    let result = boundary.unions_over(&others);
    assert_eq!(result, vec![at(0.0, Sign::Positive), at(1.0, Sign::Negative)]);
}

#[test]
fn test_unions_over_rhs_before_lhs_positive() {
    let boundary = at(0.0, Sign::Negative);
    let others = vec![at(-1.0, Sign::Positive)];
    let result = boundary.unions_over(&others);
    assert_eq!(result, vec![at(0.0, Sign::Negative)]);
}

#[test]
fn test_unions_over_rhs_before_lhs_negative() {
    let boundary = at(0.0, Sign::Positive);
    let others = vec![at(-1.0, Sign::Negative)];
    let result = boundary.unions_over(&others);
    assert_eq!(result, vec![at(-1.0, Sign::Negative)]);
}

#[test]
fn test_unions_over_rhs_many_simple() {
    let boundary = at(0.0, Sign::Positive);
    let others = vec![at(1.0, Sign::Negative), at(2.0, Sign::Positive)];
    let result = boundary.unions_over(&others);
    assert_eq!(
        result,
        vec![at(0.0, Sign::Positive), at(1.0, Sign::Negative), at(2.0, Sign::Positive)]
    )
}

#[test]
fn test_unions_over_rhs_many_complex() {
    let boundary = at(2.0, Sign::Negative);
    let others = vec![at(1.0, Sign::Negative), at(3.0, Sign::Positive)];
    let result = boundary.unions_over(&others);
    assert_eq!(
        result,
        vec![
            // normalization will later combine these two
            at(1.0, Sign::Negative),
            at(2.0, Sign::Negative),
        ]
    )
}

#[test]
fn test_unions_on_simple() {
    let mapping = vec![
        (at(0.0, Sign::Positive), vec![at(1.0, Sign::Negative)]),
        (
            at(2.0, Sign::Negative),
            vec![
                // because the RHS boundary from 1.0 intersects with both,
                // it should show up in both mappings.
                at(1.0, Sign::Negative),
                at(3.0, Sign::Positive),
            ],
        ),
    ];
    let result = SignBoundary::unions_on(&mapping);
    assert_eq!(
        result,
        vec![
            at(0.0, Sign::Positive),
            // later normalization will combine...
            at(1.0, Sign::Negative),
            at(1.0, Sign::Negative),
            at(2.0, Sign::Negative),
            // ...the three negative boundaries
        ]
    )
}

#[test]
fn test_unions_on_rhs_intersects_many() {
    let rhs = at(-1.0, Sign::Negative);

    let mapping = vec![
        (at(0.0, Sign::Positive), vec![rhs.clone()]),
        (at(2.0, Sign::Negative), vec![rhs.clone()]),
        (at(3.0, Sign::Positive), vec![rhs.clone()]),
        (at(4.0, Sign::Negative), vec![rhs.clone()]),
    ];
    let result = SignBoundary::unions_on(&mapping);
    assert_eq!(
        result,
        vec![
            // this is unnormalized, but negative on the entire interval from -1.0
            at(-1.0, Sign::Negative),
            at(-1.0, Sign::Negative),
            at(-1.0, Sign::Negative),
            at(-1.0, Sign::Negative),
        ]
    )
}

#[test]
fn test_unions_on_rhs_intersects_many_then_flips() {
    let rhs_start = at(-1.0, Sign::Negative);
    let rhs_end = at(5.0, Sign::Positive);
    let mapping = vec![
        (at(0.0, Sign::Positive), vec![rhs_start.clone()]),
        (at(2.0, Sign::Negative), vec![rhs_start.clone()]),
        (at(3.0, Sign::Positive), vec![rhs_start.clone()]),
        (at(4.0, Sign::Negative), vec![rhs_start.clone(), rhs_end.clone()]),
        (at(5.0, Sign::Positive), vec![rhs_end.clone()]),
    ];
    let result = SignBoundary::unions_on(&mapping);
    assert_eq!(
        result,
        vec![
            at(-1.0, Sign::Negative),
            at(-1.0, Sign::Negative),
            at(-1.0, Sign::Negative),
            at(-1.0, Sign::Negative),
            at(4.0, Sign::Negative),
            at(5.0, Sign::Positive),
        ]
    )
}
