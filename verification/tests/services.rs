use p_multisig::constants::{MULTISIG_SEED, TRANSACTION_SEED};
use p_multisig::create_multisig::process_create_multisig;
use p_multisig::create_transaction::process_create_transaction;
use p_multisig::approve_transaction::process_approve_transaction;
use p_multisig::execute_transaction::process_execute_transaction;
use p_multisig::error::MultisigError;
use p_multisig::multisig::{Multisig, MultisigHeader};
use p_multisig::transaction::{
    Transaction, TransactionAccount, TransactionHeader, TransactionSigner,
};
use p_multisig::ID;
use pinocchio::address::Address;

const OWNER_A: [u8; 32] = [0x01; 32];
const OWNER_B: [u8; 32] = [0x02; 32];
const OWNER_C: [u8; 32] = [0x03; 32];
const OUTSIDER: [u8; 32] = [0x09; 32];

fn derive(tag: &[u8], seed: &[u8; 8], bump: u8) -> [u8; 32] {
    let seeds: [&[u8]; 2] = [tag, seed];
    Address::try_derive_address(&seeds, Some(bump), &Address::new_from_array(ID))
        .unwrap()
        .to_bytes()
}

fn group_record(seed: u64, owners: &[[u8; 32]], threshold: u64, bump: u8) -> ([u8; 32], Vec<u8>) {
    let header = MultisigHeader {
        seed: seed.to_le_bytes(),
        num_owners: (owners.len() as u64).to_le_bytes(),
        threshold: threshold.to_le_bytes(),
        nonce: 0,
        bump,
    };
    let mut buf = vec![0u8; Multisig::size(owners.len() as u64)];
    Multisig::write(&mut buf, &header, &owners.to_vec()).unwrap();
    let key = derive(&MULTISIG_SEED, &seed.to_le_bytes(), bump);
    (key, buf)
}

fn tx_record(
    multisig_key: &[u8; 32],
    seed: u64,
    bump: u8,
    signers: &[TransactionSigner],
) -> ([u8; 32], Vec<u8>) {
    let header = TransactionHeader {
        multisig: *multisig_key,
        program_id: [0u8; 32],
        num_accounts: 1u64.to_le_bytes(),
        num_signers: (signers.len() as u64).to_le_bytes(),
        data_len: 4u64.to_le_bytes(),
        executed: 0,
        seed: seed.to_le_bytes(),
        bump,
    };
    let accounts = [TransactionAccount { pubkey: OWNER_A, is_signer: 1, is_writable: 1 }];
    let payload = [1u8, 2, 3, 4];
    let mut buf = vec![0u8; Transaction::size(1, signers.len() as u64, 4)];
    Transaction::write(&mut buf, &header, &accounts, signers, &payload).unwrap();
    let key = derive(&TRANSACTION_SEED, &seed.to_le_bytes(), bump);
    (key, buf)
}

fn entry(key: [u8; 32], signed: u8) -> TransactionSigner {
    TransactionSigner { pubkey: key, signed }
}

// A group {A, B, C} with threshold 2, and a proposal created by A.
fn standard_setup() -> ([u8; 32], Vec<u8>, [u8; 32], Vec<u8>) {
    let (ms_key, ms_data) = group_record(1, &[OWNER_A, OWNER_B, OWNER_C], 2, 255);
    let (tx_key, tx_data) = tx_record(
        &ms_key,
        2,
        254,
        &[entry(OWNER_A, 255), entry(OWNER_B, 0), entry(OWNER_C, 0)],
    );
    (ms_key, ms_data, tx_key, tx_data)
}

#[test]
fn test_create_multisig() {
    let (ms_key, ms_data) = group_record(1, &[OWNER_A, OWNER_B, OWNER_C], 3, 255);
    let out = process_create_multisig(&OWNER_A, true, &ms_key, &ID, &ms_data).unwrap();
    assert_eq!(out, ms_data);
    let parsed = Multisig::parse(&out).unwrap();
    assert_eq!(parsed.owners, vec![OWNER_A, OWNER_B, OWNER_C]);
    assert_eq!(u64::from_le_bytes(parsed.header.threshold), 3);
}

#[test]
fn create_multisig_requires_signature() {
    let (ms_key, ms_data) = group_record(1, &[OWNER_A], 1, 255);
    assert_eq!(
        process_create_multisig(&OWNER_A, false, &ms_key, &ID, &ms_data),
        Err(MultisigError::Unauthorized)
    );
}

#[test]
fn create_multisig_rejects_truncated_data() {
    let (ms_key, ms_data) = group_record(1, &[OWNER_A], 1, 255);
    assert_eq!(
        process_create_multisig(&OWNER_A, true, &ms_key, &ID, &ms_data[..20]),
        Err(MultisigError::StructuralError)
    );
}

#[test]
fn create_multisig_rejects_wrong_address() {
    let (_, ms_data) = group_record(1, &[OWNER_A], 1, 255);
    let wrong = [0x44u8; 32];
    assert_eq!(
        process_create_multisig(&OWNER_A, true, &wrong, &ID, &ms_data),
        Err(MultisigError::AddressMismatch)
    );
}

#[test]
fn create_multisig_rejects_wrong_bump_address() {
    // key derived with a different bump than the record's own bump field
    let (_, ms_data) = group_record(1, &[OWNER_A], 1, 255);
    let other = derive(&MULTISIG_SEED, &1u64.to_le_bytes(), 254);
    assert_eq!(
        process_create_multisig(&OWNER_A, true, &other, &ID, &ms_data),
        Err(MultisigError::AddressMismatch)
    );
}

#[test]
fn create_multisig_rejects_zero_threshold() {
    let (ms_key, ms_data) = group_record(1, &[OWNER_A, OWNER_B], 0, 255);
    assert_eq!(
        process_create_multisig(&OWNER_A, true, &ms_key, &ID, &ms_data),
        Err(MultisigError::InvalidConfiguration)
    );
}

#[test]
fn create_multisig_rejects_threshold_above_owner_count() {
    let (ms_key, ms_data) = group_record(1, &[OWNER_A, OWNER_B], 3, 255);
    assert_eq!(
        process_create_multisig(&OWNER_A, true, &ms_key, &ID, &ms_data),
        Err(MultisigError::InvalidConfiguration)
    );
}

#[test]
fn create_multisig_rejects_non_owner_caller() {
    let (ms_key, ms_data) = group_record(1, &[OWNER_A, OWNER_B], 2, 255);
    assert_eq!(
        process_create_multisig(&OUTSIDER, true, &ms_key, &ID, &ms_data),
        Err(MultisigError::Unauthorized)
    );
}

#[test]
fn test_create_transaction() {
    let (ms_key, ms_data) = group_record(1, &[OWNER_A, OWNER_B, OWNER_C], 2, 255);
    let (tx_key, tx_data) = tx_record(
        &ms_key,
        2,
        254,
        &[entry(OWNER_A, 255), entry(OWNER_B, 0), entry(OWNER_C, 0)],
    );
    let out =
        process_create_transaction(&OWNER_A, true, &tx_key, &ms_key, &ID, &tx_data, &ms_data)
            .unwrap();
    assert_eq!(out, tx_data);
    let parsed = Transaction::parse(&out).unwrap();
    assert_eq!(parsed.header.executed, 0);
    assert_eq!(parsed.signers[0].signed, 255);
    assert_eq!(parsed.signers[1].signed, 0);
    assert_eq!(parsed.data, vec![1, 2, 3, 4]);
}

#[test]
fn create_transaction_rejects_missing_owner() {
    let (ms_key, ms_data) = group_record(1, &[OWNER_A, OWNER_B, OWNER_C], 2, 255);
    let (tx_key, tx_data) =
        tx_record(&ms_key, 2, 254, &[entry(OWNER_A, 255), entry(OWNER_B, 0)]);
    assert_eq!(
        process_create_transaction(&OWNER_A, true, &tx_key, &ms_key, &ID, &tx_data, &ms_data),
        Err(MultisigError::InvalidConfiguration)
    );
}

#[test]
fn create_transaction_rejects_wrong_initial_flag() {
    // B's entry must start pending, not signed
    let (ms_key, ms_data) = group_record(1, &[OWNER_A, OWNER_B, OWNER_C], 2, 255);
    let (tx_key, tx_data) = tx_record(
        &ms_key,
        2,
        254,
        &[entry(OWNER_A, 255), entry(OWNER_B, 255), entry(OWNER_C, 0)],
    );
    assert_eq!(
        process_create_transaction(&OWNER_A, true, &tx_key, &ms_key, &ID, &tx_data, &ms_data),
        Err(MultisigError::InvalidConfiguration)
    );
}

#[test]
fn create_transaction_rejects_unsigned_proposer_entry() {
    // the proposer's own entry must already be signed
    let (ms_key, ms_data) = group_record(1, &[OWNER_A, OWNER_B, OWNER_C], 2, 255);
    let (tx_key, tx_data) = tx_record(
        &ms_key,
        2,
        254,
        &[entry(OWNER_A, 0), entry(OWNER_B, 0), entry(OWNER_C, 0)],
    );
    assert_eq!(
        process_create_transaction(&OWNER_A, true, &tx_key, &ms_key, &ID, &tx_data, &ms_data),
        Err(MultisigError::InvalidConfiguration)
    );
}

#[test]
fn create_transaction_rejects_extra_roster_entry() {
    let (ms_key, ms_data) = group_record(1, &[OWNER_A, OWNER_B, OWNER_C], 2, 255);
    let (tx_key, tx_data) = tx_record(
        &ms_key,
        2,
        254,
        &[entry(OWNER_A, 255), entry(OWNER_B, 0), entry(OWNER_C, 0), entry(OUTSIDER, 0)],
    );
    assert_eq!(
        process_create_transaction(&OWNER_A, true, &tx_key, &ms_key, &ID, &tx_data, &ms_data),
        Err(MultisigError::InvalidConfiguration)
    );
}

#[test]
fn create_transaction_rejects_duplicate_roster_entry() {
    let (ms_key, ms_data) = group_record(1, &[OWNER_A, OWNER_B, OWNER_C], 2, 255);
    let (tx_key, tx_data) = tx_record(
        &ms_key,
        2,
        254,
        &[entry(OWNER_A, 255), entry(OWNER_B, 0), entry(OWNER_C, 0), entry(OWNER_B, 0)],
    );
    assert_eq!(
        process_create_transaction(&OWNER_A, true, &tx_key, &ms_key, &ID, &tx_data, &ms_data),
        Err(MultisigError::InvalidConfiguration)
    );
}

#[test]
fn create_transaction_rejects_non_owner_caller() {
    let (ms_key, ms_data, tx_key, tx_data) = standard_setup();
    assert_eq!(
        process_create_transaction(&OUTSIDER, true, &tx_key, &ms_key, &ID, &tx_data, &ms_data),
        Err(MultisigError::Unauthorized)
    );
}

#[test]
fn approve_marks_exactly_one_entry() {
    let (ms_key, ms_data, tx_key, tx_data) = standard_setup();
    let out =
        process_approve_transaction(&OWNER_B, true, &tx_key, &ms_key, &ID, &tx_data, &ms_data)
            .unwrap();
    let parsed = Transaction::parse(&out).unwrap();
    assert_eq!(parsed.signers[0].signed, 255);
    assert_eq!(parsed.signers[1].signed, 255);
    assert_eq!(parsed.signers[2].signed, 0);
    // nothing else moved
    let before = Transaction::parse(&tx_data).unwrap();
    assert_eq!(parsed.header, before.header);
    assert_eq!(parsed.accounts, before.accounts);
    assert_eq!(parsed.data, before.data);
}

#[test]
fn approve_rejects_second_approval_by_same_identity() {
    let (ms_key, ms_data, tx_key, tx_data) = standard_setup();
    let out =
        process_approve_transaction(&OWNER_B, true, &tx_key, &ms_key, &ID, &tx_data, &ms_data)
            .unwrap();
    assert_eq!(
        process_approve_transaction(&OWNER_B, true, &tx_key, &ms_key, &ID, &out, &ms_data),
        Err(MultisigError::AlreadyApproved)
    );
}

#[test]
fn approve_rejects_proposer_reapproval() {
    // A's entry was born signed, so A re-approving is rejected
    let (ms_key, ms_data, tx_key, tx_data) = standard_setup();
    assert_eq!(
        process_approve_transaction(&OWNER_A, true, &tx_key, &ms_key, &ID, &tx_data, &ms_data),
        Err(MultisigError::AlreadyApproved)
    );
}

#[test]
fn approve_rejects_non_owner() {
    let (ms_key, ms_data, tx_key, tx_data) = standard_setup();
    assert_eq!(
        process_approve_transaction(&OUTSIDER, true, &tx_key, &ms_key, &ID, &tx_data, &ms_data),
        Err(MultisigError::Unauthorized)
    );
}

#[test]
fn approve_rejects_owner_missing_from_roster() {
    // C is a group owner but the roster was built without C's entry
    let (ms_key, ms_data) = group_record(1, &[OWNER_A, OWNER_B, OWNER_C], 2, 255);
    let (tx_key, tx_data) =
        tx_record(&ms_key, 2, 254, &[entry(OWNER_A, 255), entry(OWNER_B, 0)]);
    assert_eq!(
        process_approve_transaction(&OWNER_C, true, &tx_key, &ms_key, &ID, &tx_data, &ms_data),
        Err(MultisigError::Unauthorized)
    );
}

#[test]
fn approve_rejects_wrong_transaction_address() {
    let (ms_key, ms_data, _, tx_data) = standard_setup();
    let wrong = [0x55u8; 32];
    assert_eq!(
        process_approve_transaction(&OWNER_B, true, &wrong, &ms_key, &ID, &tx_data, &ms_data),
        Err(MultisigError::AddressMismatch)
    );
}

#[test]
fn execute_rejects_below_quorum() {
    // only A has signed; threshold is 2
    let (ms_key, ms_data, tx_key, tx_data) = standard_setup();
    assert_eq!(
        process_execute_transaction(&tx_key, &ms_key, &ID, &tx_data, &ms_data),
        Err(MultisigError::InsufficientApprovals)
    );
}

#[test]
fn execute_succeeds_at_quorum_and_marks_consumed() {
    let (ms_key, ms_data, tx_key, tx_data) = standard_setup();
    let approved =
        process_approve_transaction(&OWNER_B, true, &tx_key, &ms_key, &ID, &tx_data, &ms_data)
            .unwrap();
    let executed = process_execute_transaction(&tx_key, &ms_key, &ID, &approved, &ms_data).unwrap();
    let parsed = Transaction::parse(&executed).unwrap();
    assert_eq!(parsed.header.executed, 255);
    // only the executed flag moved
    let before = Transaction::parse(&approved).unwrap();
    assert_eq!(parsed.signers, before.signers);
    assert_eq!(parsed.accounts, before.accounts);
    assert_eq!(parsed.data, before.data);
}

#[test]
fn execute_rejects_second_execution() {
    let (ms_key, ms_data, tx_key, tx_data) = standard_setup();
    let approved =
        process_approve_transaction(&OWNER_B, true, &tx_key, &ms_key, &ID, &tx_data, &ms_data)
            .unwrap();
    let executed = process_execute_transaction(&tx_key, &ms_key, &ID, &approved, &ms_data).unwrap();
    assert_eq!(
        process_execute_transaction(&tx_key, &ms_key, &ID, &executed, &ms_data),
        Err(MultisigError::AlreadyExecuted)
    );
}

#[test]
fn scenario_quorum_lifecycle() {
    // Group {A, B, C}, threshold 2; proposal created by A.
    let (ms_key, ms_data) = group_record(1, &[OWNER_A, OWNER_B, OWNER_C], 2, 255);
    let (tx_key, tx_data) = tx_record(
        &ms_key,
        2,
        254,
        &[entry(OWNER_A, 255), entry(OWNER_B, 0), entry(OWNER_C, 0)],
    );
    let stored =
        process_create_transaction(&OWNER_A, true, &tx_key, &ms_key, &ID, &tx_data, &ms_data)
            .unwrap();
    // execute before any further approval fails: 1 of 3 < 2
    assert_eq!(
        process_execute_transaction(&tx_key, &ms_key, &ID, &stored, &ms_data),
        Err(MultisigError::InsufficientApprovals)
    );
    // B approves; now 2 of 3 >= 2 and execution succeeds
    let approved =
        process_approve_transaction(&OWNER_B, true, &tx_key, &ms_key, &ID, &stored, &ms_data)
            .unwrap();
    let executed = process_execute_transaction(&tx_key, &ms_key, &ID, &approved, &ms_data).unwrap();
    assert_eq!(Transaction::parse(&executed).unwrap().header.executed, 255);
    // further execution always fails
    assert_eq!(
        process_execute_transaction(&tx_key, &ms_key, &ID, &executed, &ms_data),
        Err(MultisigError::AlreadyExecuted)
    );
    // C approving afterwards still succeeds as a roster update...
    let late = process_approve_transaction(&OWNER_C, true, &tx_key, &ms_key, &ID, &executed, &ms_data)
        .unwrap();
    let parsed = Transaction::parse(&late).unwrap();
    assert_eq!(parsed.signers[2].signed, 255);
    // ...but has no effect on the consumed execution state
    assert_eq!(parsed.header.executed, 255);
    assert_eq!(
        process_execute_transaction(&tx_key, &ms_key, &ID, &late, &ms_data),
        Err(MultisigError::AlreadyExecuted)
    );
}
