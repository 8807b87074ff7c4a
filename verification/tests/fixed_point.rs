use plants::fixed::{Fixed, SCALE};

fn f(micros: i64) -> Fixed {
    Fixed::from_micros(micros)
}

#[test]
fn constants_have_their_values() {
    assert_eq!(SCALE, 1_000_000);
    assert_eq!(Fixed::zero().to_micros(), 0);
    assert_eq!(Fixed::one().to_micros(), 1_000_000);
    assert_eq!(Fixed::from_int(5).to_micros(), 5_000_000);
    assert_eq!(Fixed::from_int(-3).to_micros(), -3_000_000);
    assert_eq!(Fixed::from_int(i32::MAX).to_micros(), 2_147_483_647_000_000);
    assert_eq!(Fixed::from_int(i32::MIN).to_micros(), -2_147_483_648_000_000);
}

#[test]
fn sums_and_differences_are_exact() {
    assert_eq!(f(1_500_000).plus(f(2_250_000)), f(3_750_000));
    assert_eq!(f(1_500_000).minus(f(2_250_000)), f(-750_000));
    assert_eq!(f(-1).plus(f(1)), Fixed::zero());
}

#[test]
fn sums_and_differences_saturate() {
    assert_eq!(f(i64::MAX).plus(f(1)), f(i64::MAX));
    assert_eq!(f(i64::MIN).plus(f(-1)), f(i64::MIN));
    assert_eq!(f(i64::MIN).minus(f(1)), f(i64::MIN));
    assert_eq!(f(i64::MAX).minus(f(-1)), f(i64::MAX));
    assert_eq!(f(i64::MAX).minus(f(i64::MIN)), f(i64::MAX));
}

#[test]
fn products_round_toward_zero() {
    assert_eq!(f(2_500_000).times(f(2_000_000)), f(5_000_000));
    assert_eq!(f(5_000_000).times(f(950_000)), f(4_750_000));
    assert_eq!(f(1).times(f(999_999)), f(0));
    assert_eq!(f(-1).times(f(999_999)), f(0));
    assert_eq!(f(3).times(f(500_000)), f(1));
    assert_eq!(f(-3).times(f(500_000)), f(-1));
    assert_eq!(f(-3).times(f(-500_000)), f(1));
    assert_eq!(f(707_107).times(f(707_107)), f(500_000));
}

#[test]
fn products_saturate() {
    assert_eq!(f(i64::MAX).times(f(2_000_000)), f(i64::MAX));
    assert_eq!(f(i64::MAX).times(f(-2_000_000)), f(i64::MIN));
    assert_eq!(f(i64::MIN).times(f(i64::MIN)), f(i64::MAX));
    assert_eq!(f(i64::MIN).times(f(1_000_000)), f(i64::MIN));
}

#[test]
fn quotients_round_toward_zero() {
    assert_eq!(f(10_000_000).over(f(2_000_000)), f(5_000_000));
    assert_eq!(f(1_000_000).over(f(3_000_000)), f(333_333));
    assert_eq!(f(-1_000_000).over(f(3_000_000)), f(-333_333));
    assert_eq!(f(1_000_000).over(f(-3_000_000)), f(-333_333));
    assert_eq!(f(-1_000_000).over(f(-3_000_000)), f(333_333));
    assert_eq!(f(2_000_000).over(f(-3_000_000)), f(-666_666));
}

#[test]
fn quotients_saturate() {
    assert_eq!(f(i64::MAX).over(f(1)), f(i64::MAX));
    assert_eq!(f(i64::MIN).over(f(1)), f(i64::MIN));
    assert_eq!(f(i64::MIN).over(f(-1)), f(i64::MAX));
    assert_eq!(f(i64::MIN).over(f(-1_000_000)), f(i64::MAX));
}

#[test]
fn division_by_zero_gives_nothing() {
    assert_eq!(f(5).checked_over(f(0)), None);
    assert_eq!(f(0).checked_over(f(0)), None);
    assert_eq!(f(5_000_000).checked_over(f(2_000_000)), Some(f(2_500_000)));
    assert_eq!(f(-7).checked_over(f(2_000_000)), Some(f(-3)));
}

#[test]
fn negation_saturates_at_the_lowest_value() {
    assert_eq!(f(5).negated(), f(-5));
    assert_eq!(f(-5).negated(), f(5));
    assert_eq!(f(i64::MIN).negated(), f(i64::MAX));
}

#[test]
fn comparisons_follow_the_count_of_millionths() {
    assert!(f(1).less_than(f(2)));
    assert!(!f(2).less_than(f(2)));
    assert!(f(3).greater_than(f(2)));
    assert!(!f(2).greater_than(f(2)));
    assert!(f(0).is_zero());
    assert!(!f(1).is_zero());
    assert_eq!(f(-4).lower(f(7)), f(-4));
    assert_eq!(f(-4).upper(f(7)), f(7));
    assert_eq!(f(7).lower(f(-4)), f(-4));
    assert_eq!(f(7).upper(f(-4)), f(7));
}
