//! The terminal step of the state machine: a proposal may be consumed
//! once its roster holds at least the group's threshold of approvals, and
//! only once. No caller identity is required — reaching quorum is the only
//! thing that authorizes execution. A successful call returns the record
//! with its executed flag set, so a consumed proposal can never be
//! replayed.
use vstd::prelude::*;

use crate::Pubkey;
use crate::constants::{MULTISIG_SEED, TRANSACTION_SEED};
use crate::encoding::{u64_from_le, key_eq, bytes_prefix};
use crate::error::MultisigError;
use crate::multisig::{Multisig, ms_wf, ms_threshold};
use crate::pda::pda_hash;
use crate::transaction::{
    Transaction, tx_wf, tx_size, tx_num_accounts, tx_num_signers, tx_data_len, signed_up_to,
    approvals,
};

verus! {

/// The specified outcome of the execution gate, checked in order: both
/// records must decode; the group and proposal storage keys must equal the
/// addresses derived from each record's own seed and bump; the proposal
/// must not be consumed already; and the roster must hold at least the
/// group's threshold of signed entries. On success the stored proposal is
/// unchanged except its executed flag, which becomes 255.
pub open spec fn execute_transaction_spec(
    transaction_key: Seq<u8>,
    multisig_key: Seq<u8>,
    program_id: Seq<u8>,
    tx: Seq<u8>,
    ms: Seq<u8>,
) -> Result<Seq<u8>, MultisigError> {
    if !tx_wf(tx) {
        Err(MultisigError::StructuralError)
    } else if !ms_wf(ms) {
        Err(MultisigError::StructuralError)
    } else if multisig_key != pda_hash(MULTISIG_SEED@, ms.subrange(0, 8), ms[25], program_id) {
        Err(MultisigError::AddressMismatch)
    } else if transaction_key != pda_hash(
        TRANSACTION_SEED@,
        tx.subrange(89, 97),
        tx[97],
        program_id,
    ) {
        Err(MultisigError::AddressMismatch)
    } else if tx[88] == 255 {
        Err(MultisigError::AlreadyExecuted)
    } else if approvals(tx) < ms_threshold(ms) {
        Err(MultisigError::InsufficientApprovals)
    } else {
        Ok(
            tx.subrange(0, tx_size(tx_num_accounts(tx), tx_num_signers(tx), tx_data_len(tx))).update(
                88,
                255u8,
            ),
        )
    }
}

/// Evaluates the execution gate and returns the consumed proposal bytes to
/// store back, or the exact error the specification assigns to the input.
pub fn process_execute_transaction(
    transaction_key: &Pubkey,
    multisig_key: &Pubkey,
    program_id: &Pubkey,
    tx_data: &[u8],
    ms_data: &[u8],
) -> (r: Result<Vec<u8>, MultisigError>)
    ensures
        r matches Ok(v) ==> execute_transaction_spec(
            transaction_key@,
            multisig_key@,
            program_id@,
            tx_data@,
            ms_data@,
        ) == Ok::<Seq<u8>, MultisigError>(v@),
        r matches Err(e) ==> execute_transaction_spec(
            transaction_key@,
            multisig_key@,
            program_id@,
            tx_data@,
            ms_data@,
        ) == Err::<Seq<u8>, MultisigError>(e),
{
    let t = match Transaction::parse(tx_data) {
        Ok(t) => t,
        Err(e) => {
            return Err(e);
        },
    };
    let m = match Multisig::parse(ms_data) {
        Ok(m) => m,
        Err(e) => {
            return Err(e);
        },
    };
    let ms_pda = crate::pda::derive(
        vstd::array::array_as_slice(&MULTISIG_SEED),
        &m.header.seed,
        m.header.bump,
        program_id,
    );
    if !key_eq(multisig_key, &ms_pda) {
        return Err(MultisigError::AddressMismatch);
    }
    let tx_pda = crate::pda::derive(
        vstd::array::array_as_slice(&TRANSACTION_SEED),
        &t.header.seed,
        t.header.bump,
        program_id,
    );
    if !key_eq(transaction_key, &tx_pda) {
        return Err(MultisigError::AddressMismatch);
    }
    if t.header.executed == 255 {
        return Err(MultisigError::AlreadyExecuted);
    }
    let ns = t.signers.len();
    let mut count: u64 = 0;
    let mut i: usize = 0;
    #[verifier::loop_isolation(false)]
    while i < ns
        invariant
            i <= ns,
            count <= i as u64,
            count == signed_up_to(tx_data@, i as int),
        decreases ns - i,
    {
        if t.signers[i].signed == 255 {
            count = count + 1;
        }
        i = i + 1;
    }
    let threshold = u64_from_le(&m.header.threshold);
    if count < threshold {
        return Err(MultisigError::InsufficientApprovals);
    }
    let na = t.accounts.len();
    let dl = t.data.len();
    let dlen = tx_data.len();
    proof {
        assert(98 + 34 * (na as int) + 33 * (ns as int) + (dl as int) <= dlen as int);
    }
    let size = 98 + 34 * na + 33 * ns + dl;
    let mut out = bytes_prefix(tx_data, size);
    out.set(88, 255);
    proof {
        assert(out@ =~= tx_data@.subrange(
            0,
            tx_size(tx_num_accounts(tx_data@), tx_num_signers(tx_data@), tx_data_len(tx_data@)),
        ).update(88, 255u8));
    }
    Ok(out)
}

/// The quorum gate: for records that decode and authenticate, and a
/// proposal whose executed flag is a valid post-creation value (0 or 255),
/// execution succeeds exactly when the proposal is still pending and the
/// signed entries reach the group's threshold.
pub proof fn lemma_execute_succeeds_iff(
    transaction_key: Seq<u8>,
    multisig_key: Seq<u8>,
    program_id: Seq<u8>,
    tx: Seq<u8>,
    ms: Seq<u8>,
)
    requires
        tx_wf(tx),
        ms_wf(ms),
        multisig_key == pda_hash(MULTISIG_SEED@, ms.subrange(0, 8), ms[25], program_id),
        transaction_key == pda_hash(TRANSACTION_SEED@, tx.subrange(89, 97), tx[97], program_id),
        tx[88] == 0 || tx[88] == 255,
    ensures
        execute_transaction_spec(transaction_key, multisig_key, program_id, tx, ms) is Ok <==> (
        tx[88] == 0 && approvals(tx) >= ms_threshold(ms)),
{
}

/// Execution is single-shot: a successful execution marks the proposal
/// consumed, and a second execution of the stored result always rejects as
/// already executed.
pub proof fn lemma_execute_single_shot(
    transaction_key: Seq<u8>,
    multisig_key: Seq<u8>,
    program_id: Seq<u8>,
    tx: Seq<u8>,
    ms: Seq<u8>,
    out: Seq<u8>,
)
    requires
        execute_transaction_spec(transaction_key, multisig_key, program_id, tx, ms) == Ok::<
            Seq<u8>,
            MultisigError,
        >(out),
    ensures
        execute_transaction_spec(transaction_key, multisig_key, program_id, out, ms) == Err::<
            Seq<u8>,
            MultisigError,
        >(MultisigError::AlreadyExecuted),
{
    assert(out.subrange(64, 72) =~= tx.subrange(64, 72));
    assert(out.subrange(72, 80) =~= tx.subrange(72, 80));
    assert(out.subrange(80, 88) =~= tx.subrange(80, 88));
    assert(out.subrange(89, 97) =~= tx.subrange(89, 97));
    assert(tx_wf(out));
    assert(out[88] == 255);
}

} // verus!
