use havregryn::fixed::{floor_div, floor_mod, ONE};

#[test]
fn one_is_a_million() {
    assert_eq!(ONE, 1_000_000);
}

#[test]
fn floor_div_rounds_toward_minus_infinity() {
    assert_eq!(floor_div(7, 2), 3);
    assert_eq!(floor_div(-7, 2), -4);
    assert_eq!(floor_div(-8, 2), -4);
    assert_eq!(floor_div(0, 5), 0);
    assert_eq!(floor_div(-1, 1_000_000), -1);
    assert_eq!(floor_div(i128::MIN, 1), i128::MIN);
    assert_eq!(floor_div(i128::MIN, i128::MAX), -2);
    assert_eq!(floor_div(i128::MAX, i128::MAX), 1);
}

#[test]
fn floor_mod_lies_between_zero_and_the_divisor() {
    assert_eq!(floor_mod(7, 2), 1);
    assert_eq!(floor_mod(-7, 2), 1);
    assert_eq!(floor_mod(-8, 2), 0);
    assert_eq!(floor_mod(-1, 1_000_000), 999_999);
    assert_eq!(floor_mod(i128::MIN, 3), 1);
    assert_eq!(floor_mod(i128::MIN, i128::MAX), i128::MAX - 1);
}

#[test]
fn floor_div_and_floor_mod_rebuild_the_dividend() {
    let divisors: [i128; 4] = [1, 3, 1_000_000, 4_000_000];
    let dividends: [i128; 7] = [-4_000_001, -1_000_000, -5, 0, 5, 999_999, 12_345_678_901];
    for d in divisors {
        for a in dividends {
            let (q, r) = (floor_div(a, d), floor_mod(a, d));
            assert!(0 <= r && r < d);
            assert_eq!(q * d + r, a);
        }
    }
}
