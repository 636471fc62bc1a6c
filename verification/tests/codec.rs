use p_multisig::error::MultisigError;
use p_multisig::multisig::{Multisig, MultisigHeader, MULTISIG_HEADER_SIZE};
use p_multisig::transaction::{
    Transaction, TransactionAccount, TransactionHeader, TransactionSigner,
    TRANSACTION_HEADER_SIZE,
};

fn group_header(seed: u64, num_owners: u64, threshold: u64, bump: u8) -> MultisigHeader {
    MultisigHeader {
        seed: seed.to_le_bytes(),
        num_owners: num_owners.to_le_bytes(),
        threshold: threshold.to_le_bytes(),
        nonce: 0,
        bump,
    }
}

#[test]
fn multisig_round_trip() {
    let header = group_header(7, 2, 2, 42);
    let owners = vec![[0xAAu8; 32], [0xBBu8; 32]];
    let size = Multisig::size(2);
    assert_eq!(size, 26 + 64);
    let mut buf = vec![0u8; size];
    assert_eq!(Multisig::write(&mut buf, &header, &owners), Ok(()));
    let parsed = Multisig::parse(&buf).unwrap();
    assert_eq!(parsed.header, header);
    assert_eq!(parsed.owners, owners);
}

#[test]
fn multisig_round_trip_with_trailing_bytes() {
    let header = group_header(1, 1, 1, 0);
    let owners = vec![[0x11u8; 32]];
    let mut buf = vec![0xEEu8; Multisig::size(1) + 10];
    assert_eq!(Multisig::write(&mut buf, &header, &owners), Ok(()));
    // bytes past the record are untouched
    assert!(buf[Multisig::size(1)..].iter().all(|b| *b == 0xEE));
    let parsed = Multisig::parse(&buf).unwrap();
    assert_eq!(parsed.header, header);
    assert_eq!(parsed.owners, owners);
}

#[test]
fn multisig_write_rejects_short_buffer() {
    let header = group_header(1, 1, 1, 0);
    let owners = vec![[0x11u8; 32]];
    let mut buf = vec![0u8; Multisig::size(1) - 1];
    let before = buf.clone();
    assert_eq!(
        Multisig::write(&mut buf, &header, &owners),
        Err(MultisigError::StructuralError)
    );
    assert_eq!(buf, before);
}

#[test]
fn multisig_parse_rejects_short_header() {
    assert_eq!(
        Multisig::parse(&[0u8; 25]),
        Err(MultisigError::StructuralError)
    );
}

#[test]
fn multisig_parse_rejects_truncated_owners() {
    // header declares 2 owners but only one follows
    let header = group_header(1, 2, 1, 0);
    let owners = vec![[0x11u8; 32]];
    let mut buf = vec![0u8; 26 + 32];
    // write only checks the owners it is given, so build the record by hand
    assert_eq!(Multisig::write(&mut buf, &header, &owners), Ok(()));
    assert_eq!(Multisig::parse(&buf), Err(MultisigError::StructuralError));
}

#[test]
fn multisig_size_values() {
    assert_eq!(Multisig::size(0), MULTISIG_HEADER_SIZE);
    assert_eq!(Multisig::size(3), 26 + 96);
}

fn tx_header(na: u64, ns: u64, dl: u64, seed: u64, bump: u8, executed: u8) -> TransactionHeader {
    TransactionHeader {
        multisig: [0x0Fu8; 32],
        program_id: [0xF0u8; 32],
        num_accounts: na.to_le_bytes(),
        num_signers: ns.to_le_bytes(),
        data_len: dl.to_le_bytes(),
        executed,
        seed: seed.to_le_bytes(),
        bump,
    }
}

#[test]
fn transaction_round_trip() {
    let header = tx_header(1, 2, 3, 9, 5, 0);
    let accounts = [TransactionAccount { pubkey: [0x21u8; 32], is_signer: 1, is_writable: 1 }];
    let signers = [
        TransactionSigner { pubkey: [0x31u8; 32], signed: 255 },
        TransactionSigner { pubkey: [0x32u8; 32], signed: 0 },
    ];
    let payload = [9u8, 8, 7];
    let size = Transaction::size(1, 2, 3);
    assert_eq!(size, 98 + 34 + 66 + 3);
    let mut buf = vec![0u8; size];
    assert_eq!(
        Transaction::write(&mut buf, &header, &accounts, &signers, &payload),
        Ok(())
    );
    let parsed = Transaction::parse(&buf).unwrap();
    assert_eq!(parsed.header, header);
    assert_eq!(parsed.accounts, accounts.to_vec());
    assert_eq!(parsed.signers, signers.to_vec());
    assert_eq!(parsed.data, payload.to_vec());
}

#[test]
fn transaction_write_rejects_short_buffer() {
    let header = tx_header(0, 1, 0, 1, 0, 0);
    let signers = [TransactionSigner { pubkey: [0x31u8; 32], signed: 0 }];
    let mut buf = vec![0u8; Transaction::size(0, 1, 0) - 1];
    let before = buf.clone();
    assert_eq!(
        Transaction::write(&mut buf, &header, &[], &signers, &[]),
        Err(MultisigError::StructuralError)
    );
    assert_eq!(buf, before);
}

#[test]
fn transaction_parse_rejects_short_header() {
    assert_eq!(
        Transaction::parse(&[0u8; 97]),
        Err(MultisigError::StructuralError)
    );
}

#[test]
fn transaction_parse_rejects_truncated_sections() {
    // a full header that declares a payload longer than the buffer holds
    let header = tx_header(0, 0, 5, 1, 0, 0);
    let mut buf = vec![0u8; 98 + 2];
    // write refuses the short buffer, so splice the header in by hand
    let mut full = vec![0u8; 98 + 5];
    assert_eq!(Transaction::write(&mut full, &header, &[], &[], &[1, 2, 3, 4, 5]), Ok(()));
    buf.copy_from_slice(&full[..100]);
    assert_eq!(Transaction::parse(&buf), Err(MultisigError::StructuralError));
}

#[test]
fn transaction_size_values() {
    assert_eq!(Transaction::size(0, 0, 0), TRANSACTION_HEADER_SIZE);
    assert_eq!(Transaction::size(1, 3, 4), 98 + 34 + 99 + 4);
}
