//! The pricing and liquidity engine: initialize, add liquidity, remove
//! liquidity and swap.
//!
//! Each operation takes a context holding the pool record and the live
//! balances it is allowed to read — the two vault balances, the claim-token
//! supply counter and the caller's balances — computes the exact amounts to
//! transfer, mint or burn, and applies them all-or-nothing: on any error the
//! context is unchanged and the error tells the caller exactly what was
//! refused.
use crate::authority::{authority_of, check_authority, find_authority};
use crate::math::{
    integer_sqrt_u128, lemma_mul_div_le, mul_div, sqrt_floor, wide_mul_div,
};
use crate::pool::Pool;
use crate::AmmError;
use vstd::prelude::*;

verus! {

/// Claim tokens minted for a deposit of `aa` and `ab` against reserves
/// `ra`, `rb` and claim supply `s`.
///
/// On the first deposit the claim is the geometric mean of the two amounts,
/// which fixes the initial exchange rate entirely from the depositor's
/// chosen ratio. Afterwards each side is priced independently against its
/// reserve and the smaller claim wins: a deposit off the current ratio is
/// credited only for the limiting side, and the excess of the other asset
/// is still taken into the vault as an uncompensated contribution.
pub open spec fn minted_for_deposit(ra: int, rb: int, s: int, aa: int, ab: int) -> int {
    if s == 0 {
        sqrt_floor(aa * ab)
    } else {
        vstd::math::min(mul_div(aa, s, ra), mul_div(ab, s, rb))
    }
}

/// Output amount of a swap of `ain` against input reserve `rin` and output
/// reserve `rout`: the constant-product rule solved for the output, with
/// the division truncating in the pool's favor.
pub open spec fn swap_out(rin: int, rout: int, ain: int) -> int {
    mul_div(ain, rout, rin + ain)
}

/// Accounts read and written by `initialize`: the pool record slot and the
/// identities the new record is built from.
pub struct Initialize {
    /// Identity of the pool record itself; the authority is bound to it.
    pub pool_id: [u8; 32],
    /// The record slot: `None` until the pool is created.
    pub pool: Option<Pool>,
    pub creator: [u8; 32],
    pub token_a_mint: [u8; 32],
    pub token_b_mint: [u8; 32],
    pub token_a_vault: [u8; 32],
    pub token_b_vault: [u8; 32],
    pub lp_token_mint: [u8; 32],
}

/// Accounts read and written by `add_liquidity`: the pool record, the live
/// vault balances and claim supply, and the caller's balances.
#[derive(Clone, Copy)]
pub struct AddLiquidity {
    pub pool_id: [u8; 32],
    pub pool: Pool,
    /// Caller's asset-A balance.
    pub user_token_a: u64,
    /// Caller's asset-B balance.
    pub user_token_b: u64,
    /// Caller's claim-token balance.
    pub user_lp_account: u64,
    /// Live balance of vault A: reserve A.
    pub vault_a: u64,
    /// Live balance of vault B: reserve B.
    pub vault_b: u64,
    /// Live claim-token supply counter.
    pub lp_supply: u64,
}

impl AddLiquidity {
    /// No caller holds more claim tokens than exist.
    pub open spec fn wf(self) -> bool {
        self.user_lp_account <= self.lp_supply
    }
}

/// Accounts read and written by `remove_liquidity`; the same shape as for a
/// deposit.
#[derive(Clone, Copy)]
pub struct RemoveLiquidity {
    pub pool_id: [u8; 32],
    pub pool: Pool,
    pub user_token_a: u64,
    pub user_token_b: u64,
    pub user_lp_account: u64,
    pub vault_a: u64,
    pub vault_b: u64,
    pub lp_supply: u64,
}

impl RemoveLiquidity {
    /// No caller holds more claim tokens than exist.
    pub open spec fn wf(self) -> bool {
        self.user_lp_account <= self.lp_supply
    }
}

/// Accounts read and written by `swap`: the pool record, both vaults and
/// the caller's two asset balances. The claim supply is not involved.
#[derive(Clone, Copy)]
pub struct Swap {
    pub pool_id: [u8; 32],
    pub pool: Pool,
    pub user_token_a: u64,
    pub user_token_b: u64,
    pub vault_a: u64,
    pub vault_b: u64,
}

/// The error `add_liquidity` ends with, or `None` when it succeeds; checks
/// are made in this order.
pub open spec fn add_liquidity_err(c: AddLiquidity, aa: int, ab: int) -> Option<AmmError> {
    let ra = c.vault_a as int;
    let rb = c.vault_b as int;
    let s = c.lp_supply as int;
    let m = minted_for_deposit(ra, rb, s, aa, ab);
    if !c.pool.authority_bound(c.pool_id@) {
        Some(AmmError::AuthorityMismatch)
    } else if aa == 0 || ab == 0 {
        Some(AmmError::ZeroAmount)
    } else if s > 0 && !(ra > 0 && mul_div(aa, s, ra) <= u64::MAX) {
        Some(AmmError::ArithmeticOverflow)
    } else if s > 0 && !(rb > 0 && mul_div(ab, s, rb) <= u64::MAX) {
        Some(AmmError::ArithmeticOverflow)
    } else if !(aa <= c.user_token_a && ra + aa <= u64::MAX) {
        Some(AmmError::TransferFailed)
    } else if !(ab <= c.user_token_b && rb + ab <= u64::MAX) {
        Some(AmmError::TransferFailed)
    } else if !(s + m <= u64::MAX && c.user_lp_account + m <= u64::MAX) {
        Some(AmmError::TransferFailed)
    } else {
        None
    }
}

/// The context after a successful `add_liquidity`: both amounts move from
/// the caller into the vaults and the minted claim goes to the caller.
pub open spec fn add_liquidity_post(c: AddLiquidity, aa: int, ab: int) -> AddLiquidity {
    let m = minted_for_deposit(c.vault_a as int, c.vault_b as int, c.lp_supply as int, aa, ab);
    AddLiquidity {
        user_token_a: (c.user_token_a - aa) as u64,
        user_token_b: (c.user_token_b - ab) as u64,
        user_lp_account: (c.user_lp_account + m) as u64,
        vault_a: (c.vault_a + aa) as u64,
        vault_b: (c.vault_b + ab) as u64,
        lp_supply: (c.lp_supply + m) as u64,
        ..c
    }
}

/// The error `remove_liquidity` ends with, or `None` when it succeeds;
/// checks are made in this order. A redemption larger than the caller's
/// claim balance is refused by the transfer layer, exactly as the burn
/// primitive would refuse it.
pub open spec fn remove_liquidity_err(c: RemoveLiquidity, lp: int) -> Option<AmmError> {
    let ra = c.vault_a as int;
    let rb = c.vault_b as int;
    let s = c.lp_supply as int;
    if !c.pool.authority_bound(c.pool_id@) {
        Some(AmmError::AuthorityMismatch)
    } else if s == 0 || lp == 0 {
        Some(AmmError::InsufficientSupply)
    } else if mul_div(lp, ra, s) > u64::MAX {
        Some(AmmError::ArithmeticOverflow)
    } else if mul_div(lp, rb, s) > u64::MAX {
        Some(AmmError::ArithmeticOverflow)
    } else if lp > c.user_lp_account {
        Some(AmmError::TransferFailed)
    } else if !(c.user_token_a + mul_div(lp, ra, s) <= u64::MAX
        && c.user_token_b + mul_div(lp, rb, s) <= u64::MAX) {
        Some(AmmError::TransferFailed)
    } else {
        None
    }
}

/// The context after a successful `remove_liquidity`: the claim is burned
/// and the proportional share of each reserve moves to the caller.
pub open spec fn remove_liquidity_post(c: RemoveLiquidity, lp: int) -> RemoveLiquidity {
    let ra = c.vault_a as int;
    let rb = c.vault_b as int;
    let s = c.lp_supply as int;
    let wa = mul_div(lp, ra, s);
    let wb = mul_div(lp, rb, s);
    RemoveLiquidity {
        user_token_a: (c.user_token_a + wa) as u64,
        user_token_b: (c.user_token_b + wb) as u64,
        user_lp_account: (c.user_lp_account - lp) as u64,
        vault_a: (c.vault_a - wa) as u64,
        vault_b: (c.vault_b - wb) as u64,
        lp_supply: (c.lp_supply - lp) as u64,
        ..c
    }
}

/// The error `swap` ends with, or `None` when it succeeds; checks are made
/// in this order.
pub open spec fn swap_err(c: Swap, ain: int, a_to_b: bool) -> Option<AmmError> {
    let rin = if a_to_b { c.vault_a as int } else { c.vault_b as int };
    let rout = if a_to_b { c.vault_b as int } else { c.vault_a as int };
    let uin = if a_to_b { c.user_token_a as int } else { c.user_token_b as int };
    let uout = if a_to_b { c.user_token_b as int } else { c.user_token_a as int };
    if !c.pool.authority_bound(c.pool_id@) {
        Some(AmmError::AuthorityMismatch)
    } else if ain == 0 {
        Some(AmmError::ZeroAmount)
    } else if rout == 0 {
        Some(AmmError::InsufficientLiquidity)
    } else if rin + ain > u64::MAX {
        Some(AmmError::ArithmeticOverflow)
    } else if ain > uin {
        Some(AmmError::TransferFailed)
    } else if uout + swap_out(rin, rout, ain) > u64::MAX {
        Some(AmmError::TransferFailed)
    } else {
        None
    }
}

/// The context after a successful `swap`: the input amount moves from the
/// caller into the input vault and the computed output moves from the
/// output vault to the caller.
pub open spec fn swap_post(c: Swap, ain: int, a_to_b: bool) -> Swap {
    let rin = if a_to_b { c.vault_a as int } else { c.vault_b as int };
    let rout = if a_to_b { c.vault_b as int } else { c.vault_a as int };
    let out = swap_out(rin, rout, ain);
    if a_to_b {
        Swap {
            user_token_a: (c.user_token_a - ain) as u64,
            user_token_b: (c.user_token_b + out) as u64,
            vault_a: (c.vault_a + ain) as u64,
            vault_b: (c.vault_b - out) as u64,
            ..c
        }
    } else {
        Swap {
            user_token_a: (c.user_token_a + out) as u64,
            user_token_b: (c.user_token_b - ain) as u64,
            vault_a: (c.vault_a - out) as u64,
            vault_b: (c.vault_b + ain) as u64,
            ..c
        }
    }
}

/// Creates the pool record: derives the custody authority for the pool
/// identity with the largest viable parameter, and stores the identities
/// and the parameter. No pricing math runs and no reserves exist yet.
///
/// Fails with `AlreadyInitialized` when the record slot is already filled,
/// and with `AuthorityMismatch` in the statistically negligible case that
/// no parameter derives an authority for this pool identity.
pub fn initialize(ctx: &mut Initialize) -> (r: Result<(), AmmError>)
    ensures
        r is Ok <==> old(ctx).pool is None && exists|b: u8|
            authority_of(old(ctx).pool_id@, b) is Some,
        r is Err ==> *final(ctx) == *old(ctx),
        r is Err && old(ctx).pool is Some ==> r->Err_0 == AmmError::AlreadyInitialized,
        r is Err && old(ctx).pool is None ==> r->Err_0 == AmmError::AuthorityMismatch,
        r is Ok ==> (final(ctx).pool matches Some(p) && {
            &&& p.pool_creator == old(ctx).creator
            &&& p.token_a_mint_address == old(ctx).token_a_mint
            &&& p.token_b_mint_address == old(ctx).token_b_mint
            &&& p.token_a_vault_address == old(ctx).token_a_vault
            &&& p.token_b_vault_address == old(ctx).token_b_vault
            &&& p.lp_token_mint_address == old(ctx).lp_token_mint
            &&& p.authority_bound(old(ctx).pool_id@)
            &&& forall|b: u8| b > p.pool_authority_bump ==> authority_of(
                old(ctx).pool_id@,
                b,
            ) is None
        }),
        r is Ok ==> *final(ctx) == (Initialize { pool: final(ctx).pool, ..*old(ctx) }),
{
    if ctx.pool.is_some() {
        return Err(AmmError::AlreadyInitialized);
    }
    match find_authority(&ctx.pool_id) {
        Some((authority, bump)) => {
            ctx.pool = Some(
                Pool {
                    pool_creator: ctx.creator,
                    pool_authority: authority,
                    token_a_mint_address: ctx.token_a_mint,
                    token_b_mint_address: ctx.token_b_mint,
                    token_a_vault_address: ctx.token_a_vault,
                    token_b_vault_address: ctx.token_b_vault,
                    lp_token_mint_address: ctx.lp_token_mint,
                    pool_authority_bump: bump,
                },
            );
            Ok(())
        },
        None => Err(AmmError::AuthorityMismatch),
    }
}

/// Deposits `amount_a` and `amount_b` into the vaults and mints the
/// proportional claim to the caller, all-or-nothing.
pub fn add_liquidity(ctx: &mut AddLiquidity, amount_a: u64, amount_b: u64) -> (r: Result<
    u64,
    AmmError,
>)
    requires
        old(ctx).wf(),
    ensures
        final(ctx).wf(),
        r is Ok <==> add_liquidity_err(*old(ctx), amount_a as int, amount_b as int) is None,
        r matches Ok(minted) ==> {
            &&& minted == minted_for_deposit(
                old(ctx).vault_a as int,
                old(ctx).vault_b as int,
                old(ctx).lp_supply as int,
                amount_a as int,
                amount_b as int,
            )
            &&& *final(ctx) == add_liquidity_post(*old(ctx), amount_a as int, amount_b as int)
        },
        r matches Err(e) ==> Some(e) == add_liquidity_err(
            *old(ctx),
            amount_a as int,
            amount_b as int,
        ) && *final(ctx) == *old(ctx),
{
    if !check_authority(&ctx.pool_id, &ctx.pool.pool_authority, ctx.pool.pool_authority_bump) {
        return Err(AmmError::AuthorityMismatch);
    }
    if amount_a == 0 || amount_b == 0 {
        return Err(AmmError::ZeroAmount);
    }
    let minted: u64;
    if ctx.lp_supply == 0 {
        proof {
            assert((amount_a as int) * (amount_b as int) <= u128::MAX) by (nonlinear_arith)
                requires
                    amount_a <= u64::MAX,
                    amount_b <= u64::MAX;
        }
        minted = integer_sqrt_u128((amount_a as u128) * (amount_b as u128));
    } else {
        let lp_for_a = match wide_mul_div(amount_a, ctx.lp_supply, ctx.vault_a) {
            Ok(v) => v,
            Err(e) => {
                return Err(e);
            },
        };
        let lp_for_b = match wide_mul_div(amount_b, ctx.lp_supply, ctx.vault_b) {
            Ok(v) => v,
            Err(e) => {
                return Err(e);
            },
        };
        minted = if lp_for_a <= lp_for_b {
            lp_for_a
        } else {
            lp_for_b
        };
    }
    if amount_a > ctx.user_token_a || ctx.vault_a > u64::MAX - amount_a {
        return Err(AmmError::TransferFailed);
    }
    if amount_b > ctx.user_token_b || ctx.vault_b > u64::MAX - amount_b {
        return Err(AmmError::TransferFailed);
    }
    if ctx.lp_supply > u64::MAX - minted || ctx.user_lp_account > u64::MAX - minted {
        return Err(AmmError::TransferFailed);
    }
    ctx.user_token_a = ctx.user_token_a - amount_a;
    ctx.vault_a = ctx.vault_a + amount_a;
    ctx.user_token_b = ctx.user_token_b - amount_b;
    ctx.vault_b = ctx.vault_b + amount_b;
    ctx.lp_supply = ctx.lp_supply + minted;
    ctx.user_lp_account = ctx.user_lp_account + minted;
    Ok(minted)
}

/// Burns `lp_amount` of the caller's claim and pays out the proportional
/// share of each reserve, all-or-nothing.
pub fn remove_liquidity(ctx: &mut RemoveLiquidity, lp_amount: u64) -> (r: Result<
    (u64, u64),
    AmmError,
>)
    requires
        old(ctx).wf(),
    ensures
        final(ctx).wf(),
        r is Ok <==> remove_liquidity_err(*old(ctx), lp_amount as int) is None,
        r matches Ok(amounts) ==> {
            &&& amounts.0 == mul_div(
                lp_amount as int,
                old(ctx).vault_a as int,
                old(ctx).lp_supply as int,
            )
            &&& amounts.1 == mul_div(
                lp_amount as int,
                old(ctx).vault_b as int,
                old(ctx).lp_supply as int,
            )
            &&& *final(ctx) == remove_liquidity_post(*old(ctx), lp_amount as int)
        },
        r matches Err(e) ==> Some(e) == remove_liquidity_err(*old(ctx), lp_amount as int)
            && *final(ctx) == *old(ctx),
{
    if !check_authority(&ctx.pool_id, &ctx.pool.pool_authority, ctx.pool.pool_authority_bump) {
        return Err(AmmError::AuthorityMismatch);
    }
    if ctx.lp_supply == 0 || lp_amount == 0 {
        return Err(AmmError::InsufficientSupply);
    }
    let amount_a = match wide_mul_div(lp_amount, ctx.vault_a, ctx.lp_supply) {
        Ok(v) => v,
        Err(e) => {
            return Err(e);
        },
    };
    let amount_b = match wide_mul_div(lp_amount, ctx.vault_b, ctx.lp_supply) {
        Ok(v) => v,
        Err(e) => {
            return Err(e);
        },
    };
    if lp_amount > ctx.user_lp_account {
        return Err(AmmError::TransferFailed);
    }
    if ctx.user_token_a > u64::MAX - amount_a || ctx.user_token_b > u64::MAX - amount_b {
        return Err(AmmError::TransferFailed);
    }
    proof {
        // The redeemed claim is at most the supply, so each payout fits in
        // its vault.
        lemma_mul_div_le(lp_amount as int, ctx.vault_a as int, ctx.lp_supply as int);
        lemma_mul_div_le(lp_amount as int, ctx.vault_b as int, ctx.lp_supply as int);
    }
    ctx.user_lp_account = ctx.user_lp_account - lp_amount;
    ctx.lp_supply = ctx.lp_supply - lp_amount;
    ctx.vault_a = ctx.vault_a - amount_a;
    ctx.user_token_a = ctx.user_token_a + amount_a;
    ctx.vault_b = ctx.vault_b - amount_b;
    ctx.user_token_b = ctx.user_token_b + amount_b;
    Ok((amount_a, amount_b))
}

/// Swaps `amount_in` of one asset for the other at the price set by the
/// current reserve ratio, all-or-nothing. `a_to_b` selects the direction.
pub fn swap(ctx: &mut Swap, amount_in: u64, a_to_b: bool) -> (r: Result<u64, AmmError>)
    ensures
        r is Ok <==> swap_err(*old(ctx), amount_in as int, a_to_b) is None,
        r matches Ok(out) ==> {
            &&& out == swap_out(
                if a_to_b { old(ctx).vault_a as int } else { old(ctx).vault_b as int },
                if a_to_b { old(ctx).vault_b as int } else { old(ctx).vault_a as int },
                amount_in as int,
            )
            &&& *final(ctx) == swap_post(*old(ctx), amount_in as int, a_to_b)
        },
        r matches Err(e) ==> Some(e) == swap_err(*old(ctx), amount_in as int, a_to_b)
            && *final(ctx) == *old(ctx),
{
    if !check_authority(&ctx.pool_id, &ctx.pool.pool_authority, ctx.pool.pool_authority_bump) {
        return Err(AmmError::AuthorityMismatch);
    }
    if amount_in == 0 {
        return Err(AmmError::ZeroAmount);
    }
    let (reserve_in, reserve_out) = if a_to_b {
        (ctx.vault_a, ctx.vault_b)
    } else {
        (ctx.vault_b, ctx.vault_a)
    };
    if reserve_out == 0 {
        return Err(AmmError::InsufficientLiquidity);
    }
    if reserve_in > u64::MAX - amount_in {
        return Err(AmmError::ArithmeticOverflow);
    }
    proof {
        // The output never exceeds the output reserve, so the division
        // below cannot overflow and the output vault cannot be drained
        // past zero.
        lemma_mul_div_le(
            amount_in as int,
            reserve_out as int,
            reserve_in as int + amount_in as int,
        );
    }
    let amount_out = match wide_mul_div(amount_in, reserve_out, reserve_in + amount_in) {
        Ok(v) => v,
        Err(e) => {
            return Err(e);
        },
    };
    if a_to_b {
        if amount_in > ctx.user_token_a || ctx.user_token_b > u64::MAX - amount_out {
            return Err(AmmError::TransferFailed);
        }
        ctx.user_token_a = ctx.user_token_a - amount_in;
        ctx.vault_a = ctx.vault_a + amount_in;
        ctx.vault_b = ctx.vault_b - amount_out;
        ctx.user_token_b = ctx.user_token_b + amount_out;
    } else {
        if amount_in > ctx.user_token_b || ctx.user_token_a > u64::MAX - amount_out {
            return Err(AmmError::TransferFailed);
        }
        ctx.user_token_b = ctx.user_token_b - amount_in;
        ctx.vault_b = ctx.vault_b + amount_in;
        ctx.vault_a = ctx.vault_a - amount_out;
        ctx.user_token_a = ctx.user_token_a + amount_out;
    }
    Ok(amount_out)
}

} // verus!
