//! Namespace tags for address derivation. Each record kind derives its
//! storage address under its own tag, so group and proposal addresses can
//! never collide with one another.
use vstd::prelude::*;

verus! {

/// Namespace tag for group records: the ASCII bytes of "multisig".
pub const MULTISIG_SEED: [u8; 8] = [109, 117, 108, 116, 105, 115, 105, 103];

/// Namespace tag for proposal records: the ASCII bytes of "transaction".
pub const TRANSACTION_SEED: [u8; 11] = [116, 114, 97, 110, 115, 97, 99, 116, 105, 111, 110];

} // verus!
