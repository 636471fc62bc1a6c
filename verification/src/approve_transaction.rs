//! Approval bookkeeping: a single signer-roster entry of an existing
//! proposal moves from "not signed" to "signed". The caller must have
//! signed the call, both records must authenticate against their derived
//! addresses, the caller must be a group owner, and re-approving is
//! rejected rather than ignored.
use vstd::prelude::*;

use crate::Pubkey;
use crate::constants::{MULTISIG_SEED, TRANSACTION_SEED};
use crate::encoding::{key_eq, bytes_prefix};
use crate::error::MultisigError;
use crate::multisig::{Multisig, ms_wf, group_has_owner, lemma_owner_membership, contains_key};
use crate::pda::pda_hash;
use crate::transaction::{
    lemma_first_match_unique,
    Transaction, tx_wf, tx_size, tx_num_accounts, tx_num_signers, tx_data_len, tx_signers_off,
    tx_signer_key, tx_signer_flag, roster_first_match, roster_has,
};

verus! {

/// The specified outcome of an approval, checked in order: the caller must
/// have signed the call; both records must decode; the group and proposal
/// storage keys must equal the addresses derived from each record's own
/// seed and bump; the caller must be a group owner; the caller must have a
/// roster entry, and that entry (the first one carrying the caller's key)
/// must not be signed yet. On success the stored proposal is unchanged
/// except that entry's flag, which becomes 255.
pub open spec fn approve_transaction_spec(
    user: Seq<u8>,
    user_is_signer: bool,
    transaction_key: Seq<u8>,
    multisig_key: Seq<u8>,
    program_id: Seq<u8>,
    tx: Seq<u8>,
    ms: Seq<u8>,
) -> Result<Seq<u8>, MultisigError> {
    if !user_is_signer {
        Err(MultisigError::Unauthorized)
    } else if !tx_wf(tx) {
        Err(MultisigError::StructuralError)
    } else if !ms_wf(ms) {
        Err(MultisigError::StructuralError)
    } else if multisig_key != pda_hash(MULTISIG_SEED@, ms.subrange(0, 8), ms[25], program_id) {
        Err(MultisigError::AddressMismatch)
    } else if transaction_key != pda_hash(
        TRANSACTION_SEED@,
        tx.subrange(89, 97),
        tx[97],
        program_id,
    ) {
        Err(MultisigError::AddressMismatch)
    } else if !group_has_owner(ms, user) {
        Err(MultisigError::Unauthorized)
    } else if !roster_has(tx, user) {
        Err(MultisigError::Unauthorized)
    } else {
        let i = choose|i: int| roster_first_match(tx, user, i);
        if tx_signer_flag(tx, i) == 255 {
            Err(MultisigError::AlreadyApproved)
        } else {
            Ok(
                tx.subrange(
                    0,
                    tx_size(tx_num_accounts(tx), tx_num_signers(tx), tx_data_len(tx)),
                ).update(tx_signers_off(tx) + 33 * i + 32, 255u8),
            )
        }
    }
}

/// Validates an approval call and returns the updated proposal bytes to
/// store back, or the exact error the specification assigns to the input.
pub fn process_approve_transaction(
    user_key: &Pubkey,
    user_is_signer: bool,
    transaction_key: &Pubkey,
    multisig_key: &Pubkey,
    program_id: &Pubkey,
    tx_data: &[u8],
    ms_data: &[u8],
) -> (r: Result<Vec<u8>, MultisigError>)
    ensures
        r matches Ok(v) ==> approve_transaction_spec(
            user_key@,
            user_is_signer,
            transaction_key@,
            multisig_key@,
            program_id@,
            tx_data@,
            ms_data@,
        ) == Ok::<Seq<u8>, MultisigError>(v@),
        r matches Err(e) ==> approve_transaction_spec(
            user_key@,
            user_is_signer,
            transaction_key@,
            multisig_key@,
            program_id@,
            tx_data@,
            ms_data@,
        ) == Err::<Seq<u8>, MultisigError>(e),
{
    if !user_is_signer {
        return Err(MultisigError::Unauthorized);
    }
    let t = match Transaction::parse(tx_data) {
        Ok(t) => t,
        Err(e) => {
            return Err(e);
        },
    };
    let m = match Multisig::parse(ms_data) {
        Ok(m) => m,
        Err(e) => {
            return Err(e);
        },
    };
    let ms_pda = crate::pda::derive(
        vstd::array::array_as_slice(&MULTISIG_SEED),
        &m.header.seed,
        m.header.bump,
        program_id,
    );
    if !key_eq(multisig_key, &ms_pda) {
        return Err(MultisigError::AddressMismatch);
    }
    let tx_pda = crate::pda::derive(
        vstd::array::array_as_slice(&TRANSACTION_SEED),
        &t.header.seed,
        t.header.bump,
        program_id,
    );
    if !key_eq(transaction_key, &tx_pda) {
        return Err(MultisigError::AddressMismatch);
    }
    proof {
        lemma_owner_membership(m.owners@, ms_data@, user_key@);
    }
    if !contains_key(&m.owners, user_key) {
        return Err(MultisigError::Unauthorized);
    }
    let ns = t.signers.len();
    let mut i: usize = 0;
    #[verifier::loop_isolation(false)]
    while i < ns
        invariant
            i <= ns,
            ns == t.signers@.len(),
            ns == tx_num_signers(tx_data@),
            forall|j: int|
                0 <= j < t.signers@.len() ==> t.signers@[j].pubkey@ == tx_signer_key(tx_data@, j)
                    && t.signers@[j].signed == tx_signer_flag(tx_data@, j),
            forall|j: int| 0 <= j < i ==> tx_signer_key(tx_data@, j) != user_key@,
        decreases ns - i,
    {
        if key_eq(&t.signers[i].pubkey, user_key) {
            proof {
                assert(roster_first_match(tx_data@, user_key@, i as int));
                let i2 = choose|i2: int| roster_first_match(tx_data@, user_key@, i2);
                if i2 < i as int {
                    assert(tx_signer_key(tx_data@, i2) != user_key@);
                }
                if i2 > i as int {
                    assert(tx_signer_key(tx_data@, i as int) != user_key@);
                }
                assert(i2 == i as int);
            }
            if t.signers[i].signed == 255 {
                return Err(MultisigError::AlreadyApproved);
            }
            let na = t.accounts.len();
            let dl = t.data.len();
            let dlen = tx_data.len();
            proof {
                assert(98 + 34 * (na as int) + 33 * (ns as int) + (dl as int) <= dlen as int);
            }
            let size = 98 + 34 * na + 33 * ns + dl;
            let off = 98 + 34 * na + 33 * i + 32;
            let mut out = bytes_prefix(tx_data, size);
            out.set(off, 255);
            proof {
                assert(out@ =~= tx_data@.subrange(
                    0,
                    tx_size(
                        tx_num_accounts(tx_data@),
                        tx_num_signers(tx_data@),
                        tx_data_len(tx_data@),
                    ),
                ).update(tx_signers_off(tx_data@) + 33 * (i as int) + 32, 255u8));
            }
            return Ok(out);
        }
        i = i + 1;
    }
    proof {
        assert forall|i2: int| !roster_first_match(tx_data@, user_key@, i2) by {
            if 0 <= i2 < tx_num_signers(tx_data@) {
                assert(tx_signer_key(tx_data@, i2) != user_key@);
            }
        }
    }
    Err(MultisigError::Unauthorized)
}

/// Monotonicity of approvals: once the caller's roster entry is signed, an
/// approval call by the same identity on an otherwise valid proposal always
/// rejects as already approved and yields no updated record.
pub proof fn lemma_approve_monotonic(
    user: Seq<u8>,
    transaction_key: Seq<u8>,
    multisig_key: Seq<u8>,
    program_id: Seq<u8>,
    tx: Seq<u8>,
    ms: Seq<u8>,
    i: int,
)
    requires
        tx_wf(tx),
        ms_wf(ms),
        multisig_key == pda_hash(MULTISIG_SEED@, ms.subrange(0, 8), ms[25], program_id),
        transaction_key == pda_hash(TRANSACTION_SEED@, tx.subrange(89, 97), tx[97], program_id),
        group_has_owner(ms, user),
        roster_first_match(tx, user, i),
        tx_signer_flag(tx, i) == 255,
    ensures
        approve_transaction_spec(user, true, transaction_key, multisig_key, program_id, tx, ms)
            == Err::<Seq<u8>, MultisigError>(MultisigError::AlreadyApproved),
{
    let i2 = choose|i2: int| roster_first_match(tx, user, i2);
    if i2 < i {
        assert(tx_signer_key(tx, i2) != user);
    }
    if i2 > i {
        assert(tx_signer_key(tx, i) != user);
    }
    assert(i2 == i);
}

/// The chained form of the monotonicity law: a successful approval marks
/// exactly the caller's roster entry signed, so approving again with the
/// same identity on the stored result always rejects as already approved.
pub proof fn lemma_approve_twice_rejects(
    user: Seq<u8>,
    transaction_key: Seq<u8>,
    multisig_key: Seq<u8>,
    program_id: Seq<u8>,
    tx: Seq<u8>,
    ms: Seq<u8>,
    out: Seq<u8>,
)
    requires
        approve_transaction_spec(user, true, transaction_key, multisig_key, program_id, tx, ms)
            == Ok::<Seq<u8>, MultisigError>(out),
    ensures
        approve_transaction_spec(user, true, transaction_key, multisig_key, program_id, out, ms)
            == Err::<Seq<u8>, MultisigError>(MultisigError::AlreadyApproved),
{
    let i = choose|i: int| roster_first_match(tx, user, i);
    let size = tx_size(tx_num_accounts(tx), tx_num_signers(tx), tx_data_len(tx));
    let so = tx_signers_off(tx);
    let pos = so + 33 * i + 32;
    assert(out.subrange(64, 72) =~= tx.subrange(64, 72));
    assert(out.subrange(72, 80) =~= tx.subrange(72, 80));
    assert(out.subrange(80, 88) =~= tx.subrange(80, 88));
    assert(out.subrange(89, 97) =~= tx.subrange(89, 97));
    assert(tx_wf(out));
    assert forall|j: int| 0 <= j < tx_num_signers(tx) implies tx_signer_key(out, j)
        == tx_signer_key(tx, j) by {
        assert(tx_signer_key(out, j) =~= tx_signer_key(tx, j));
    }
    assert(roster_first_match(out, user, i));
    let i2 = choose|i2: int| roster_first_match(out, user, i2);
    lemma_first_match_unique(out, user, i2, i);
    assert(tx_signer_flag(out, i) == 255);
}

} // verus!
