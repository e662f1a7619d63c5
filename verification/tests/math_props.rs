use cpmm::math::{integer_sqrt_u128, wide_mul_div};
use cpmm::AmmError;

fn next_rand(state: &mut u64) -> u64 {
    *state = state
        .wrapping_mul(6364136223846793005)
        .wrapping_add(1442695040888963407);
    *state
}

fn assert_is_floor_sqrt(n: u128) {
    let r = integer_sqrt_u128(n) as u128;
    assert!(r * r <= n, "root too large for {}", n);
    match (r + 1).checked_mul(r + 1) {
        Some(sq) => assert!(n < sq, "root too small for {}", n),
        None => {}
    }
}

#[test]
fn integer_sqrt_exact_values() {
    assert_eq!(integer_sqrt_u128(0), 0);
    assert_eq!(integer_sqrt_u128(1), 1);
    assert_eq!(integer_sqrt_u128(2), 1);
    assert_eq!(integer_sqrt_u128(3), 1);
    assert_eq!(integer_sqrt_u128(4), 2);
    assert_eq!(integer_sqrt_u128(99), 9);
    assert_eq!(integer_sqrt_u128(100), 10);
    assert_eq!(integer_sqrt_u128(u64::MAX as u128), 4294967295);
    assert_eq!(integer_sqrt_u128(u128::MAX), u64::MAX);
    assert_eq!(
        integer_sqrt_u128((u64::MAX as u128) * (u64::MAX as u128)),
        u64::MAX
    );
}

#[test]
fn integer_sqrt_agrees_with_brute_force() {
    let mut expected: u128 = 0;
    for n in 0..5000u128 {
        if (expected + 1) * (expected + 1) <= n {
            expected += 1;
        }
        assert_eq!(integer_sqrt_u128(n) as u128, expected, "at {}", n);
    }
}

#[test]
fn integer_sqrt_random_inputs() {
    let mut state: u64 = 42;
    for _ in 0..2000 {
        let n = next_rand(&mut state) as u128;
        assert_is_floor_sqrt(n);
    }
    for _ in 0..2000 {
        let hi = next_rand(&mut state) as u128;
        let lo = next_rand(&mut state) as u128;
        assert_is_floor_sqrt((hi << 64) | lo);
    }
}

#[test]
fn wide_mul_div_exact() {
    assert_eq!(wide_mul_div(100, 500, 1000), Ok(50));
    assert_eq!(wide_mul_div(300, 500, 2000), Ok(75));
    assert_eq!(wide_mul_div(100, 2000, 1100), Ok(181));
    assert_eq!(wide_mul_div(7, 3, 2), Ok(10));
    assert_eq!(wide_mul_div(0, 5, 3), Ok(0));
    assert_eq!(wide_mul_div(u64::MAX, u64::MAX, u64::MAX), Ok(u64::MAX));
}

#[test]
fn wide_mul_div_zero_divisor() {
    assert_eq!(wide_mul_div(1, 1, 0), Err(AmmError::ArithmeticOverflow));
    assert_eq!(wide_mul_div(0, 0, 0), Err(AmmError::ArithmeticOverflow));
}

#[test]
fn wide_mul_div_quotient_overflow() {
    assert_eq!(
        wide_mul_div(u64::MAX, u64::MAX, 1),
        Err(AmmError::ArithmeticOverflow)
    );
    assert_eq!(
        wide_mul_div(u64::MAX, 2, 1),
        Err(AmmError::ArithmeticOverflow)
    );
    // The quotient just fits.
    assert_eq!(wide_mul_div(u64::MAX, 2, 2), Ok(u64::MAX));
}
