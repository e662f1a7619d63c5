//! The economic guarantees of the engine, stated and proved once and for
//! all over the same spec functions the operations' contracts use.
use crate::engine::{
    add_liquidity_err, add_liquidity_post, minted_for_deposit, remove_liquidity_err, swap_err,
    swap_out, swap_post, AddLiquidity, RemoveLiquidity, Swap,
};
use crate::math::{lemma_mul_div_le, lemma_sqrt_floor_bounds, mul_div, sqrt_floor};
use crate::AmmError;
use vstd::arithmetic::div_mod::{
    lemma_div_is_ordered, lemma_div_multiples_vanish, lemma_fundamental_div_mod,
    lemma_mod_division_less_than_divisor,
};
use vstd::arithmetic::mul::lemma_mul_inequality;
use vstd::prelude::*;

verus! {

/// The constant-product rule: selling `ain` into reserves `(rin, rout)`
/// never decreases the product of the reserves, because the output is
/// rounded down.
pub proof fn lemma_product_after_swap(rin: int, rout: int, ain: int)
    requires
        0 <= rin,
        0 <= rout,
        1 <= ain,
    ensures
        (rin + ain) * (rout - swap_out(rin, rout, ain)) >= rin * rout,
{
    let d = rin + ain;
    let q = (ain * rout) / d;
    let rem = (ain * rout) % d;
    lemma_fundamental_div_mod(ain * rout, d);
    lemma_mod_division_less_than_divisor(ain * rout, d);
    assert(d * (rout - q) >= rin * rout) by (nonlinear_arith)
        requires
            ain * rout == d * q + rem,
            0 <= rem,
            d == rin + ain,
            0 <= rout;
}

/// For every valid pre-state, a successful swap never decreases the
/// product `reserve_a * reserve_b`; rounding can only increase it.
pub proof fn lemma_swap_never_decreases_product(c: Swap, amount_in: u64, a_to_b: bool)
    requires
        swap_err(c, amount_in as int, a_to_b) is None,
    ensures
        (swap_post(c, amount_in as int, a_to_b).vault_a as int) * (swap_post(
            c,
            amount_in as int,
            a_to_b,
        ).vault_b as int) >= (c.vault_a as int) * (c.vault_b as int),
{
    let ain = amount_in as int;
    let rin = if a_to_b { c.vault_a as int } else { c.vault_b as int };
    let rout = if a_to_b { c.vault_b as int } else { c.vault_a as int };
    lemma_mul_div_le(ain, rout, rin + ain);
    lemma_product_after_swap(rin, rout, ain);
    if !a_to_b {
        assert((rin + ain) * (rout - swap_out(rin, rout, ain)) == (rout - swap_out(
            rin,
            rout,
            ain,
        )) * (rin + ain)) by (nonlinear_arith);
        assert(rin * rout == rout * rin) by (nonlinear_arith);
    }
}

/// No value creation on a round trip: a deposit followed immediately by a
/// redemption of the entire minted claim returns at most what was
/// deposited. The redemption amounts below are exactly what
/// `remove_liquidity` pays on the post-deposit state, whose reserves are
/// `ra + aa` and `rb + ab` and whose supply is `s + m`.
///
/// A pool whose claim supply is zero must also hold empty vaults (a fresh
/// pool); when the minted claim is zero the redemption is refused with
/// `InsufficientSupply` and nothing is paid at all.
pub proof fn lemma_add_remove_no_gain(ra: int, rb: int, s: int, aa: int, ab: int)
    requires
        1 <= aa,
        1 <= ab,
        0 <= s,
        s == 0 ==> ra == 0 && rb == 0,
        s > 0 ==> 1 <= ra && 1 <= rb,
    ensures
        ({
            let m = minted_for_deposit(ra, rb, s, aa, ab);
            &&& 1 <= m ==> mul_div(m, ra + aa, s + m) <= aa
            &&& 1 <= m ==> mul_div(m, rb + ab, s + m) <= ab
        }),
{
    let m = minted_for_deposit(ra, rb, s, aa, ab);
    if 1 <= m {
        if s == 0 {
            // The whole supply is redeemed against exactly the deposit.
            lemma_div_multiples_vanish(aa, m);
            assert(m * (0 + aa) == m * aa) by (nonlinear_arith);
            lemma_div_multiples_vanish(ab, m);
            assert(m * (0 + ab) == m * ab) by (nonlinear_arith);
        } else {
            lemma_one_side_no_gain(ra, s, aa, m);
            lemma_one_side_no_gain(rb, s, ab, m);
        }
    }
}

/// The round trip over the operations' own pre- and post-states: when a
/// deposit succeeds on `c` and the entire minted claim is then redeemed on
/// the state the deposit left behind, the redemption amounts — exactly what
/// `remove_liquidity`'s contract pays — never exceed the deposit.
///
/// A pool whose claim supply is zero must also hold empty vaults; a
/// redemption of a zero claim is refused before anything is paid.
pub proof fn lemma_round_trip_no_value_creation(
    c: AddLiquidity,
    d: RemoveLiquidity,
    amount_a: u64,
    amount_b: u64,
)
    requires
        c.lp_supply == 0 ==> c.vault_a == 0 && c.vault_b == 0,
        add_liquidity_err(c, amount_a as int, amount_b as int) is None,
        d.vault_a == add_liquidity_post(c, amount_a as int, amount_b as int).vault_a,
        d.vault_b == add_liquidity_post(c, amount_a as int, amount_b as int).vault_b,
        d.lp_supply == add_liquidity_post(c, amount_a as int, amount_b as int).lp_supply,
    ensures
        ({
            let m = minted_for_deposit(
                c.vault_a as int,
                c.vault_b as int,
                c.lp_supply as int,
                amount_a as int,
                amount_b as int,
            );
            &&& 1 <= m ==> mul_div(m, d.vault_a as int, d.lp_supply as int) <= amount_a
            &&& 1 <= m ==> mul_div(m, d.vault_b as int, d.lp_supply as int) <= amount_b
        }),
{
    let ra = c.vault_a as int;
    let rb = c.vault_b as int;
    let s = c.lp_supply as int;
    let aa = amount_a as int;
    let ab = amount_b as int;
    lemma_add_remove_no_gain(ra, rb, s, aa, ab);
}

/// One side of the round trip: a claim of at most the side's own quote
/// redeems to at most the side's own deposit.
proof fn lemma_one_side_no_gain(ra: int, s: int, aa: int, m: int)
    requires
        1 <= ra,
        1 <= s,
        1 <= aa,
        1 <= m,
        m <= mul_div(aa, s, ra),
    ensures
        mul_div(m, ra + aa, s + m) <= aa,
{
    let qa = (aa * s) / ra;
    lemma_fundamental_div_mod(aa * s, ra);
    lemma_mod_division_less_than_divisor(aa * s, ra);
    // m * ra <= qa * ra <= aa * s
    lemma_mul_inequality(m, qa, ra);
    assert(m * (ra + aa) <= aa * (s + m)) by (nonlinear_arith)
        requires
            m * ra <= qa * ra,
            aa * s == ra * qa + (aa * s) % ra,
            0 <= (aa * s) % ra;
    lemma_div_is_ordered(m * (ra + aa), aa * (s + m), s + m);
    lemma_div_multiples_vanish(aa, s + m);
    assert((s + m) * aa == aa * (s + m)) by (nonlinear_arith);
}

/// A tampered derivation parameter fails a deposit with
/// `AuthorityMismatch` before anything else is looked at.
pub proof fn lemma_tampered_authority_blocks_add(c: AddLiquidity, aa: int, ab: int)
    requires
        !c.pool.authority_bound(c.pool_id@),
    ensures
        add_liquidity_err(c, aa, ab) == Some(AmmError::AuthorityMismatch),
{
}

/// A tampered derivation parameter fails a redemption with
/// `AuthorityMismatch` before anything else is looked at.
pub proof fn lemma_tampered_authority_blocks_remove(c: RemoveLiquidity, lp: int)
    requires
        !c.pool.authority_bound(c.pool_id@),
    ensures
        remove_liquidity_err(c, lp) == Some(AmmError::AuthorityMismatch),
{
}

/// A tampered derivation parameter fails a swap with `AuthorityMismatch`
/// before anything else is looked at.
pub proof fn lemma_tampered_authority_blocks_swap(c: Swap, ain: int, a_to_b: bool)
    requires
        !c.pool.authority_bound(c.pool_id@),
    ensures
        swap_err(c, ain, a_to_b) == Some(AmmError::AuthorityMismatch),
{
}

/// The first deposit mints exactly the floor of the geometric mean of the
/// two amounts.
pub proof fn lemma_first_deposit_mints_geometric_mean(aa: int, ab: int)
    requires
        0 <= aa,
        0 <= ab,
    ensures
        ({
            let m = minted_for_deposit(0, 0, 0, aa, ab);
            &&& m * m <= aa * ab
            &&& aa * ab < (m + 1) * (m + 1)
        }),
{
    assert(0 <= aa * ab) by (nonlinear_arith)
        requires
            0 <= aa,
            0 <= ab;
    lemma_sqrt_floor_bounds(aa * ab);
}

} // verus!
