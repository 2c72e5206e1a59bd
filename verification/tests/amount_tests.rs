use centichain::amount::Amount;

#[test]
fn numeric_comparison_ignores_trailing_zeros() {
    let a = Amount::new(10, 1); // 1.0
    let b = Amount::new(100, 2); // 1.00
    assert!(a.eq_value(&b));
    assert_eq!(a.cmp_value(&b), 0);
    let c = Amount::new(101, 2);
    assert_eq!(a.cmp_value(&c), -1);
    assert!(c.gt_value(&a));
}

#[test]
fn checked_add_sub_mul_give_exact_results() {
    let a = Amount::new(105, 1); // 10.5
    let rate = Amount::new(10, 2); // 0.10
    let relay = a.checked_mul(&rate).unwrap();
    assert!(relay.eq_value(&Amount::new(105, 2))); // 1.05
    let rest = a.checked_sub(&relay).unwrap();
    assert!(rest.eq_value(&Amount::new(945, 2))); // 9.45
    let sum = Amount::zero().checked_add(&a).unwrap();
    assert!(sum.eq_value(&a));
}

#[test]
fn checked_div_halves() {
    let reward = Amount::new(500, 1); // 50.0
    let half = reward.checked_div(&Amount::new(20, 1)).unwrap();
    assert!(half.eq_value(&Amount::new(25, 0)));
}

#[test]
fn checked_mul_overflow_is_none() {
    let big = Amount::new(0xFFFF_FFFF_FFFF_FFFF_FFFF_FFFF, 0);
    assert!(big.checked_mul(&big).is_none());
    assert!(big.checked_add(&big).is_none());
}

#[test]
fn checked_div_by_zero_is_none() {
    assert!(Amount::new(1, 0).checked_div(&Amount::zero()).is_none());
}

#[test]
fn round_dp_keeps_short_amounts_and_rounds_half_to_even() {
    let a = Amount::new(12345, 3);
    let r = a.round_dp(12);
    assert_eq!((r.mantissa, r.scale), (12345, 3));
    let b = Amount::new(125, 2).round_dp(1); // 1.25 -> 1.2
    assert!(b.eq_value(&Amount::new(12, 1)));
    let c = Amount::new(135, 2).round_dp(1); // 1.35 -> 1.4
    assert!(c.eq_value(&Amount::new(14, 1)));
}

#[test]
fn rounding_sends_halves_to_even() {
    let r = |m: i128, s: u32, dp: u32| {
        let x = Amount::new(m, s).round_dp(dp);
        (x.mantissa, x.scale)
    };
    assert_eq!(r(25, 1, 0), (2, 0));
    assert_eq!(r(35, 1, 0), (4, 0));
    assert_eq!(r(-25, 1, 0), (-2, 0));
    assert_eq!(r(251, 2, 0), (3, 0));
    assert_eq!(r(12345, 4, 2), (123, 2));
    assert_eq!(r(1235, 3, 2), (124, 2));
    assert_eq!(r(1245, 3, 2), (124, 2));
    assert_eq!(r(-1236, 3, 2), (-124, 2));
    assert_eq!(r(7, 1, 3), (7, 1));
}
