use p_multisig::constants::MULTISIG_SEED;
use p_multisig::error::MultisigError;
use p_multisig::create_multisig::process_create_multisig;
use p_multisig::multisig::{Multisig, MultisigHeader};
use p_multisig::ID;
use pinocchio::address::Address;

const OWNER: [u8; 32] = [0x01; 32];

fn group_data(seed: u64, bump: u8) -> Vec<u8> {
    let header = MultisigHeader {
        seed: seed.to_le_bytes(),
        num_owners: 1u64.to_le_bytes(),
        threshold: 1u64.to_le_bytes(),
        nonce: 0,
        bump,
    };
    let mut buf = vec![0u8; Multisig::size(1)];
    Multisig::write(&mut buf, &header, &vec![OWNER]).unwrap();
    buf
}

fn derived(seed: u64, bump: u8) -> [u8; 32] {
    let seed_bytes = seed.to_le_bytes();
    let seeds: [&[u8]; 2] = [&MULTISIG_SEED, &seed_bytes];
    Address::try_derive_address(&seeds, Some(bump), &Address::new_from_array(ID))
        .unwrap()
        .to_bytes()
}

// The derivation the record check uses agrees with the derivation computed
// independently; a check against anything but the real digest would fail here.
#[test]
fn derived_address_is_accepted() {
    let data = group_data(7, 200);
    let key = derived(7, 200);
    assert!(process_create_multisig(&OWNER, true, &key, &ID, &data).is_ok());
}

// The derived address is a digest, not any of the inputs handed through.
#[test]
fn program_id_is_not_the_derived_address() {
    let data = group_data(7, 200);
    assert_ne!(derived(7, 200), ID);
    assert_eq!(
        process_create_multisig(&OWNER, true, &ID, &ID, &data),
        Err(MultisigError::AddressMismatch)
    );
}

#[test]
fn derivation_depends_on_seed_and_bump() {
    assert_ne!(derived(7, 200), derived(8, 200));
    assert_ne!(derived(7, 200), derived(7, 201));
    // and is deterministic
    assert_eq!(derived(7, 200), derived(7, 200));
}
