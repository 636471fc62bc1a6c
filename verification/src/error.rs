//! The error taxonomy of the state machine. Every failure aborts the call
//! with no state change; nothing is retried.
use vstd::prelude::*;

verus! {

/// Why an operation was rejected. Each operation's contract states exactly
/// which inputs produce which variant.
#[derive(Clone, Copy, PartialEq, Eq, Debug)]
pub enum MultisigError {
    /// Wrong number of storage references, a truncated record or payload,
    /// or an unrecognized opcode.
    StructuralError,
    /// A storage reference's key does not equal the address derived from the
    /// record's own seed and bump.
    AddressMismatch,
    /// The caller did not sign the call, or is not among the relevant owners.
    Unauthorized,
    /// The threshold/owner-count invariant is violated, or the signer roster
    /// does not mirror the group's membership.
    InvalidConfiguration,
    /// The caller's roster entry is already marked signed.
    AlreadyApproved,
    /// Execution was attempted before quorum was reached.
    InsufficientApprovals,
    /// Execution was attempted twice on the same proposal.
    AlreadyExecuted,
}

} // verus!
