use p_multisig::error::MultisigError;
use p_multisig::instruction::MultisigInstruction;

#[test]
fn opcode_mapping() {
    assert!(matches!(
        MultisigInstruction::try_from(&0),
        Ok(MultisigInstruction::CreateMultisig)
    ));
    assert!(matches!(
        MultisigInstruction::try_from(&1),
        Ok(MultisigInstruction::CreateTransaction)
    ));
    assert!(matches!(
        MultisigInstruction::try_from(&2),
        Ok(MultisigInstruction::ApproveTransaction)
    ));
    assert!(matches!(
        MultisigInstruction::try_from(&3),
        Ok(MultisigInstruction::ExecuteTransaction)
    ));
}

#[test]
fn opcode_rejects_unknown() {
    assert_eq!(
        MultisigInstruction::try_from(&4),
        Err(MultisigError::StructuralError)
    );
    assert_eq!(
        MultisigInstruction::try_from(&255),
        Err(MultisigError::StructuralError)
    );
}

#[test]
fn required_storage_references() {
    assert_eq!(MultisigInstruction::CreateMultisig.required_accounts(), 3);
    assert_eq!(MultisigInstruction::CreateTransaction.required_accounts(), 4);
    assert_eq!(MultisigInstruction::ApproveTransaction.required_accounts(), 4);
    assert_eq!(MultisigInstruction::ExecuteTransaction.required_accounts(), 3);
}
