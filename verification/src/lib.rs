//! On-chain threshold-authorization state machine: a group of owner keys with
//! an approval threshold, proposals referencing a group, per-owner approvals,
//! and an execution gate that opens once quorum is reached.
//!
//! Records live in raw byte buffers with a fixed little-endian layout
//! (a header followed by variable-length trailing arrays), and every record
//! is located and authenticated by a deterministic program-derived address
//! recomputed from fields stored inside the record itself.
use vstd::prelude::*;

pub mod constants;
pub mod error;
pub mod encoding;
pub mod pda;
pub mod multisig;
pub mod transaction;
pub mod instruction;
pub mod create_multisig;
pub mod create_transaction;
pub mod approve_transaction;
pub mod execute_transaction;

verus! {

/// A 32-byte identity key, the only kind of identity this program knows.
pub type Pubkey = [u8; 32];

/// The program's own identity key, fixed at build time; it is one of the
/// inputs of every program-derived address this program checks.
pub const ID: [u8; 32] = [
    33, 81, 132, 126, 228, 222, 138, 152, 112, 69, 212, 200, 126, 16, 6, 154,
    213, 47, 218, 143, 92, 98, 98, 137, 16, 219, 82, 232, 140, 203, 186, 242,
];

} // verus!
