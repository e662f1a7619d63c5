//! The durable pool record.
use crate::authority::authority_of;
use vstd::prelude::*;

verus! {

/// One pool per trading pair: the identities of its creator, custody
/// authority, asset mints, vaults and claim-token mint, plus the one-byte
/// authority derivation parameter fixed at creation.
///
/// Reserves and claim supply are deliberately absent: they are read live
/// from the vault balances and the claim-token supply counter at the start
/// of every operation, never cached here.
#[derive(Clone, Copy)]
pub struct Pool {
    pub pool_creator: [u8; 32],
    pub pool_authority: [u8; 32],
    pub token_a_mint_address: [u8; 32],
    pub token_b_mint_address: [u8; 32],
    pub token_a_vault_address: [u8; 32],
    pub token_b_vault_address: [u8; 32],
    pub lp_token_mint_address: [u8; 32],
    pub pool_authority_bump: u8,
}

impl Pool {
    /// The stored derivation parameter still derives the stored authority
    /// identity for the pool at `pool_id`: the 1:1 binding between a pool
    /// and its custody authority. Every operation requires this to hold
    /// before it moves any pooled funds.
    pub open spec fn authority_bound(self, pool_id: Seq<u8>) -> bool {
        authority_of(pool_id, self.pool_authority_bump) == Some(self.pool_authority@)
    }
}

} // verus!
