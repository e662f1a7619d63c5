//! The custody authority: a deterministic, keyless identity bound to one
//! pool.
//!
//! The authority is derived from a fixed domain tag, the pool's own
//! identity, and a one-byte parameter (the "bump") chosen at initialization
//! so that the derivation succeeds. The parameter is stored in the pool
//! record and is not a secret: it is a binding witness. Every operation
//! re-derives the identity from the stored parameter and compares it with
//! the stored identity before touching pooled funds.
use vstd::prelude::*;

verus! {

/// What the derivation returns for a given pool identity and bump: a
/// 32-byte identity, or nothing when that bump admits no keyless identity.
/// The result depends on the two arguments alone.
pub uninterp spec fn authority_of(pool_id: Seq<u8>, bump: u8) -> Option<Seq<u8>>;

/// The identity of the engine itself, under which authorities are derived.
pub fn program_id() -> (r: [u8; 32])
    ensures
        r@ =~= program_id_bytes(),
{
    let id: [u8; 32] = [
        154u8, 210u8, 158u8, 209u8, 196u8, 159u8, 225u8, 94u8, 219u8, 247u8, 12u8, 207u8, 232u8,
        169u8, 205u8, 35u8, 207u8, 193u8, 0u8, 218u8, 28u8, 122u8, 155u8, 67u8, 216u8, 56u8, 0u8,
        53u8, 235u8, 149u8, 42u8, 122u8,
    ];
    id
}

/// The engine's identity as a sequence of bytes.
pub open spec fn program_id_bytes() -> Seq<u8> {
    seq![
        154u8, 210u8, 158u8, 209u8, 196u8, 159u8, 225u8, 94u8, 219u8, 247u8, 12u8, 207u8, 232u8,
        169u8, 205u8, 35u8, 207u8, 193u8, 0u8, 218u8, 28u8, 122u8, 155u8, 67u8, 216u8, 56u8, 0u8,
        53u8, 235u8, 149u8, 42u8, 122u8,
    ]
}

/// Relies on `Pubkey::create_program_address` (anchor_lang's re-export of
/// the address crate): hashing the fixed domain tag, the pool identity, the
/// bump and the program id gives a 32-byte address that is a deterministic
/// function of those inputs alone, and the call fails exactly when that
/// hash has a corresponding private credential (it lands on the ed25519
/// curve). The seeds here are three, each at most 32 bytes, so no other
/// failure of the call is possible.
#[verifier::external_body]
fn derive_authority(pool_id: &[u8; 32], bump: u8) -> (r: Option<[u8; 32]>)
    ensures
        r is Some <==> authority_of(pool_id@, bump) is Some,
        r is Some ==> authority_of(pool_id@, bump) == Some(r->Some_0@),
{
    let program = anchor_lang::solana_program::pubkey::Pubkey::new_from_array(program_id());
    let pool_key = anchor_lang::solana_program::pubkey::Pubkey::new_from_array(*pool_id);
    let seeds: [&[u8]; 3] = [b"authority", pool_key.as_ref(), &[bump]];
    match anchor_lang::solana_program::pubkey::Pubkey::create_program_address(&seeds, &program) {
        Ok(addr) => Some(addr.to_bytes()),
        Err(_) => None,
    }
}

/// Byte-for-byte equality of two identities.
pub fn id_eq(a: &[u8; 32], b: &[u8; 32]) -> (r: bool)
    ensures
        r <==> a@ == b@,
{
    let mut i: usize = 0;
    while i < 32
        invariant
            i <= 32,
            forall|j: int| 0 <= j < i ==> a@[j] == b@[j],
        decreases 32 - i,
    {
        if a[i] != b[i] {
            return false;
        }
        i += 1;
    }
    proof {
        assert(a@ =~= b@);
    }
    true
}

/// Searches for the derivation parameter, from the largest candidate down,
/// and returns the first one that derives an identity, together with that
/// identity. Returns `None` only when no parameter derives one.
pub fn find_authority(pool_id: &[u8; 32]) -> (r: Option<([u8; 32], u8)>)
    ensures
        r matches Some(found) ==> {
            &&& authority_of(pool_id@, found.1) == Some(found.0@)
            &&& forall|b: u8| b > found.1 ==> authority_of(pool_id@, b) is None
        },
        r is None ==> forall|b: u8| authority_of(pool_id@, b) is None,
{
    let mut bump: u8 = 255;
    loop
        invariant
            forall|b: u8| b > bump ==> authority_of(pool_id@, b) is None,
        decreases bump as int,
    {
        match derive_authority(pool_id, bump) {
            Some(addr) => {
                return Some((addr, bump));
            },
            None => {},
        }
        if bump == 0 {
            assert(forall|b: u8| b > 0 ==> authority_of(pool_id@, b) is None);
            return None;
        }
        bump = bump - 1;
    }
}

/// Re-derives the custody authority from a stored parameter and compares it
/// with a stored identity: true exactly when the derivation parameter still
/// binds that identity to this pool.
pub fn check_authority(pool_id: &[u8; 32], stored_authority: &[u8; 32], bump: u8) -> (r: bool)
    ensures
        r <==> authority_of(pool_id@, bump) == Some(stored_authority@),
{
    match derive_authority(pool_id, bump) {
        Some(derived) => id_eq(&derived, stored_authority),
        None => false,
    }
}

} // verus!
