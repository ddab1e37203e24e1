use iron_brains::fixed::decay_value;
use iron_brains::fixed::fmul_exec;
use iron_brains::fixed::mul_div;
use iron_brains::fixed::mul_div_wide;
use iron_brains::fixed::SCALE;

#[test]
fn mul_div_rounds_toward_zero() {
    assert_eq!(mul_div(5, 1, 2), 2);
    assert_eq!(mul_div(-5, 1, 2), -2);
    assert_eq!(mul_div(5, -1, 2), -2);
    assert_eq!(mul_div(-5, -1, 2), 2);
    assert_eq!(mul_div(0, 123, 7), 0);
}

#[test]
fn mul_div_wide_handles_large_products() {
    let a: i64 = i64::MAX;
    let b: i64 = i64::MAX;
    let expected: i128 = (a as i128) * (b as i128) / (SCALE as i128);
    assert_eq!(mul_div_wide(a, b, SCALE as i128), expected);
    assert_eq!(mul_div_wide(i64::MIN, 1, 1), i64::MIN as i128);
}

#[test]
fn fixed_point_products() {
    // 0.5 * 0.5 == 0.25
    assert_eq!(fmul_exec(500_000, 500_000), 250_000);
    // 1.5 * -2.0 == -3.0
    assert_eq!(fmul_exec(1_500_000, -2_000_000), -3_000_000);
    // sub-unit truncation rounds toward zero
    assert_eq!(fmul_exec(1, 1), 0);
    assert_eq!(fmul_exec(-1, 1), 0);
}

#[test]
fn decay_shrinks_magnitudes() {
    // one step of 10% decay on 1.0
    assert_eq!(decay_value(1_000_000, 100_000), 900_000);
    assert_eq!(decay_value(-1_000_000, 100_000), -900_000);
    assert_eq!(decay_value(0, 100_000), 0);
    // tiny values still move toward zero
    assert_eq!(decay_value(1, 100_000), 0);
}
