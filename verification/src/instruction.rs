//! The inbound opcode: a single leading byte selects the operation, and
//! each operation expects a fixed number of storage references.
use vstd::prelude::*;

use crate::error::MultisigError;

verus! {

/// The four operations of the state machine, selected by the leading
/// opcode byte of every inbound call.
#[derive(Clone, Copy, PartialEq, Eq, Debug)]
pub enum MultisigInstruction {
    CreateMultisig,
    CreateTransaction,
    ApproveTransaction,
    ExecuteTransaction,
}

impl MultisigInstruction {
    /// Decodes the leading opcode byte; any byte above 3 is rejected.
    pub fn try_from(value: &u8) -> (r: Result<MultisigInstruction, MultisigError>)
        ensures
            *value == 0 ==> r == Ok::<_, MultisigError>(MultisigInstruction::CreateMultisig),
            *value == 1 ==> r == Ok::<_, MultisigError>(MultisigInstruction::CreateTransaction),
            *value == 2 ==> r == Ok::<_, MultisigError>(MultisigInstruction::ApproveTransaction),
            *value == 3 ==> r == Ok::<_, MultisigError>(MultisigInstruction::ExecuteTransaction),
            *value > 3 ==> r == Err::<MultisigInstruction, _>(MultisigError::StructuralError),
    {
        match *value {
            0 => Ok(MultisigInstruction::CreateMultisig),
            1 => Ok(MultisigInstruction::CreateTransaction),
            2 => Ok(MultisigInstruction::ApproveTransaction),
            3 => Ok(MultisigInstruction::ExecuteTransaction),
            _ => Err(MultisigError::StructuralError),
        }
    }

    /// How many storage references the operation expects: the caller (where
    /// one must authorize), the operated-on records, and the allocator.
    pub fn required_accounts(&self) -> (r: usize)
        ensures
            *self == MultisigInstruction::CreateMultisig ==> r == 3,
            *self == MultisigInstruction::CreateTransaction ==> r == 4,
            *self == MultisigInstruction::ApproveTransaction ==> r == 4,
            *self == MultisigInstruction::ExecuteTransaction ==> r == 3,
    {
        match self {
            MultisigInstruction::CreateMultisig => 3,
            MultisigInstruction::CreateTransaction => 4,
            MultisigInstruction::ApproveTransaction => 4,
            MultisigInstruction::ExecuteTransaction => 3,
        }
    }
}

} // verus!
