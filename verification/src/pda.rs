//! Deterministic address derivation. A record's storage address is a
//! one-way function of a namespace tag, the record's caller-chosen seed and
//! a bump salt, together with the program's identity; consumers recompute it
//! from the record's own fields and reject any storage reference whose key
//! differs.
use vstd::prelude::*;

use crate::Pubkey;

verus! {

/// The address derived from a namespace tag, a seed, a bump salt and a
/// program identity. The derivation is a SHA-256 digest, so it is left
/// uninterpreted here; it depends on nothing but its arguments.
pub uninterp spec fn pda_hash(tag: Seq<u8>, seed: Seq<u8>, bump: u8, program_id: Seq<u8>) -> Seq<u8>;

/// Relies on `pinocchio::address::Address::try_derive_address`: the SHA-256
/// digest of the seeds, the bump, the program id and a fixed marker, a
/// function of its arguments alone. It fails only when a seed is longer
/// than 32 bytes, which the precondition rules out.
#[verifier::external_body]
pub(crate) fn derive(tag: &[u8], seed: &[u8; 8], bump: u8, program_id: &Pubkey) -> (r: [u8; 32])
    requires
        tag@.len() <= 32,
    ensures
        r@ == pda_hash(tag@, seed@, bump, program_id@),
{
    let pid = pinocchio::address::Address::new_from_array(*program_id);
    let seeds: [&[u8]; 2] = [tag, seed];
    let addr = pinocchio::address::Address::try_derive_address(&seeds, Some(bump), &pid).unwrap();
    addr.to_bytes()
}

} // verus!
