//! Wide-integer multiply/divide and integer square root.
//!
//! Both are exact: `wide_mul_div` computes `floor(a * b / c)` in 128-bit
//! arithmetic and reports overflow instead of truncating, and
//! `integer_sqrt_u128` returns the exact floor of the square root.
use crate::AmmError;
use vstd::arithmetic::div_mod::{lemma_fundamental_div_mod, lemma_mod_division_less_than_divisor};
use vstd::prelude::*;

verus! {

/// `floor(a * b / c)` as a mathematical value.
pub open spec fn mul_div(a: int, b: int, c: int) -> int {
    (a * b) / c
}

/// The floor of the square root, defined by counting up.
pub open spec fn sqrt_floor(n: int) -> int
    decreases n,
{
    if n < 1 {
        0
    } else {
        let r = sqrt_floor(n - 1);
        if (r + 1) * (r + 1) <= n {
            r + 1
        } else {
            r
        }
    }
}

/// `r` is the floor of the square root of `n` exactly when it satisfies
/// these two bounds.
pub open spec fn sqrt_bounds(n: int, r: int) -> bool {
    &&& 0 <= r
    &&& r * r <= n
    &&& n < (r + 1) * (r + 1)
}

/// `sqrt_floor` satisfies its defining bounds.
pub proof fn lemma_sqrt_floor_bounds(n: int)
    requires
        0 <= n,
    ensures
        sqrt_bounds(n, sqrt_floor(n)),
    decreases n,
{
    if n < 1 {
        assert(sqrt_floor(n) == 0);
    } else {
        lemma_sqrt_floor_bounds(n - 1);
        let r = sqrt_floor(n - 1);
        if (r + 1) * (r + 1) <= n {
            assert(n - 1 < (r + 1) * (r + 1));
            assert((r + 2) * (r + 2) > (r + 1) * (r + 1)) by (nonlinear_arith)
                requires 0 <= r;
        }
    }
}

/// Only one value satisfies the square-root bounds.
pub proof fn lemma_sqrt_unique(n: int, r1: int, r2: int)
    requires
        sqrt_bounds(n, r1),
        sqrt_bounds(n, r2),
    ensures
        r1 == r2,
{
    assert(r1 == r2) by (nonlinear_arith)
        requires
            0 <= r1,
            0 <= r2,
            r1 * r1 <= n,
            n < (r1 + 1) * (r1 + 1),
            r2 * r2 <= n,
            n < (r2 + 1) * (r2 + 1);
}

/// A share of `b` taken with a weight of at most the whole: when `a <= c`,
/// `floor(a * b / c) <= b`.
pub proof fn lemma_mul_div_le(a: int, b: int, c: int)
    requires
        0 <= a <= c,
        0 <= b,
        0 < c,
    ensures
        mul_div(a, b, c) <= b,
{
    vstd::arithmetic::mul::lemma_mul_inequality(a, c, b);
    vstd::arithmetic::div_mod::lemma_div_is_ordered(a * b, c * b, c);
    vstd::arithmetic::div_mod::lemma_div_multiples_vanish(b, c);
    assert(c * b == b * c) by (nonlinear_arith);
}

/// One Newton step from any point at or above the root stays at or above
/// the root: `(x + n / x) / 2 >= sqrt_floor(n)`.
proof fn lemma_newton_step_above_root(n: int, x: int, s: int)
    requires
        1 <= x,
        0 <= s,
        s * s <= n,
    ensures
        x + n / x >= 2 * s,
{
    let q = n / x;
    let r = n % x;
    lemma_fundamental_div_mod(n, x);
    lemma_mod_division_less_than_divisor(n, x);
    assert(x + q >= 2 * s) by (nonlinear_arith)
        requires
            n == x * q + r,
            0 <= r < x,
            s * s <= n,
            1 <= x,
            0 <= s;
}

/// Computes `floor(a * b / c)` in 128-bit arithmetic.
///
/// Fails with `ArithmeticOverflow` exactly when `c` is zero or the quotient
/// does not fit in 64 bits; it never truncates silently. The division rounds
/// toward zero, so the caller keeps the remainder.
pub fn wide_mul_div(a: u64, b: u64, c: u64) -> (r: Result<u64, AmmError>)
    ensures
        r is Ok <==> c != 0 && mul_div(a as int, b as int, c as int) <= u64::MAX,
        r is Ok ==> r->Ok_0 == mul_div(a as int, b as int, c as int),
        r is Err ==> r->Err_0 == AmmError::ArithmeticOverflow,
{
    if c == 0 {
        return Err(AmmError::ArithmeticOverflow);
    }
    assert((a as int) * (b as int) <= u128::MAX) by (nonlinear_arith)
        requires
            a <= u64::MAX,
            b <= u64::MAX;
    let p: u128 = (a as u128) * (b as u128);
    let q: u128 = p / (c as u128);
    if q > u64::MAX as u128 {
        return Err(AmmError::ArithmeticOverflow);
    }
    Ok(q as u64)
}

/// Returns `floor(sqrt(n))` by Newton's method, starting from an upper
/// bound on the root and descending; each iterate stays at or above the
/// root, so the first iterate at or below `n / x` is the answer.
///
/// The result always fits in 64 bits because `n < 2^128`.
pub fn integer_sqrt_u128(n: u128) -> (r: u64)
    ensures
        r == sqrt_floor(n as int),
        sqrt_bounds(n as int, r as int),
{
    proof {
        lemma_sqrt_floor_bounds(n as int);
    }
    if n == 0 {
        return 0;
    }
    let ghost s: int = sqrt_floor(n as int);
    let mut x: u128 = n / 2 + 1;
    if x > 0x1_0000_0000_0000_0000 {
        x = 0x1_0000_0000_0000_0000;
    }
    proof {
        // The starting point is at or above the root.
        let ni = n as int;
        let h = ni / 2;
        if n / 2 + 1 <= 0x1_0000_0000_0000_0000 {
            lemma_fundamental_div_mod(ni, 2);
            lemma_mod_division_less_than_divisor(ni, 2);
            assert(ni < (h + 2) * (h + 2)) by (nonlinear_arith)
                requires
                    1 <= ni,
                    h * 2 + 2 > ni;
        } else {
            let big = 0x1_0000_0000_0000_0000 as int;
            assert(ni < (big + 1) * (big + 1)) by (nonlinear_arith)
                requires
                    ni <= u128::MAX,
                    big == 0x1_0000_0000_0000_0000;
        }
    }
    loop
        invariant
            1 <= n,
            1 <= x <= 0x1_0000_0000_0000_0000,
            (n as int) < ((x as int) + 1) * ((x as int) + 1),
            s == sqrt_floor(n as int),
            sqrt_bounds(n as int, s),
        decreases x,
    {
        let q = n / x;
        proof {
            lemma_fundamental_div_mod(n as int, x as int);
            lemma_mod_division_less_than_divisor(n as int, x as int);
        }
        if x <= q {
            // x <= n / x, so x * x <= n; with the invariant, x is the root.
            proof {
                let ni = n as int;
                let xi = x as int;
                let qi = q as int;
                let big = 0x1_0000_0000_0000_0000 as int;
                assert(xi * xi <= ni) by (nonlinear_arith)
                    requires
                        1 <= xi,
                        xi <= qi,
                        ni == xi * qi + ni % xi,
                        0 <= ni % xi;
                lemma_sqrt_unique(ni, xi, s);
                assert(xi < big) by (nonlinear_arith)
                    requires
                        0 <= xi,
                        xi * xi <= ni,
                        ni <= u128::MAX,
                        big == 0x1_0000_0000_0000_0000;
            }
            return x as u64;
        }
        // q < x here, so the average strictly descends and stays above the root.
        proof {
            let ni = n as int;
            let xi = x as int;
            let qi = q as int;
            lemma_newton_step_above_root(ni, xi, s);
            let m = (xi + qi) / 2;
            lemma_fundamental_div_mod(xi + qi, 2);
            lemma_mod_division_less_than_divisor(xi + qi, 2);
            assert(m >= s) by (nonlinear_arith)
                requires
                    xi + qi >= 2 * s,
                    m * 2 + (xi + qi) % 2 == xi + qi,
                    0 <= (xi + qi) % 2 < 2;
            assert(ni < (m + 1) * (m + 1)) by (nonlinear_arith)
                requires
                    0 <= s <= m,
                    ni < (s + 1) * (s + 1);
            assert(1 <= m) by (nonlinear_arith)
                requires
                    0 <= m,
                    1 <= ni,
                    ni < (m + 1) * (m + 1),
                    s <= m,
                    0 <= s,
                    s * s <= ni;
            assert(m < xi) by (nonlinear_arith)
                requires
                    m * 2 + (xi + qi) % 2 == xi + qi,
                    0 <= (xi + qi) % 2,
                    qi < xi;
        }
        x = (x + q) / 2;
    }
}

} // verus!
