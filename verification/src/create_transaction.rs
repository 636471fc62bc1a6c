//! Proposal creation: validates a proposed record supplied as raw call
//! data against an existing group record and, when every check passes,
//! yields the exact bytes of the proposal to be materialized in newly
//! allocated storage. The supplied signer roster must mirror the group's
//! current membership exactly, with the proposer's own entry already
//! signed — proposing implies approving — and every other entry pending.
use vstd::prelude::*;

use crate::Pubkey;
use crate::constants::{MULTISIG_SEED, TRANSACTION_SEED};
use crate::encoding::{key_eq, bytes_prefix};
use crate::error::MultisigError;
use crate::multisig::{
    Multisig, ms_wf, ms_num_owners, ms_owner, group_has_owner, lemma_owner_membership,
    contains_key,
};
use crate::pda::pda_hash;
use crate::transaction::{
    Transaction, tx_wf, tx_size, tx_num_accounts, tx_num_signers, tx_data_len, tx_signer_key,
    tx_signer_flag, roster_first_match, roster_count, matches_up_to,
};

verus! {

/// Whether the supplied roster mirrors the group's membership: every owner
/// has exactly one roster entry; the owner's entry is already signed when
/// the owner is the proposer and pending otherwise; and no roster entry
/// carries a key outside the group.
pub open spec fn roster_matches(ms: Seq<u8>, tx: Seq<u8>, user: Seq<u8>) -> bool {
    &&& forall|j: int|
        0 <= j < ms_num_owners(ms) ==> #[trigger] roster_count(tx, ms_owner(ms, j)) == 1
    &&& forall|j: int, i: int|
        0 <= j < ms_num_owners(ms) && #[trigger] roster_first_match(tx, ms_owner(ms, j), i)
            ==> tx_signer_flag(tx, i) == (if ms_owner(ms, j) == user {
            255u8
        } else {
            0u8
        })
    &&& forall|i: int|
        0 <= i < tx_num_signers(tx) ==> group_has_owner(ms, #[trigger] tx_signer_key(tx, i))
}

/// The specified outcome of proposal creation, checked in order: the
/// caller must have signed the call; the proposal must decode; the group
/// record must decode; the group and proposal storage keys must equal the
/// addresses derived from each record's own seed and bump; the caller must
/// be a group owner; and the roster must mirror the group. On success the
/// stored record is exactly the supplied header and sections.
pub open spec fn create_transaction_spec(
    user: Seq<u8>,
    user_is_signer: bool,
    transaction_key: Seq<u8>,
    multisig_key: Seq<u8>,
    program_id: Seq<u8>,
    tx: Seq<u8>,
    ms: Seq<u8>,
) -> Result<Seq<u8>, MultisigError> {
    if !user_is_signer {
        Err(MultisigError::Unauthorized)
    } else if !tx_wf(tx) {
        Err(MultisigError::StructuralError)
    } else if !ms_wf(ms) {
        Err(MultisigError::StructuralError)
    } else if multisig_key != pda_hash(MULTISIG_SEED@, ms.subrange(0, 8), ms[25], program_id) {
        Err(MultisigError::AddressMismatch)
    } else if transaction_key != pda_hash(
        TRANSACTION_SEED@,
        tx.subrange(89, 97),
        tx[97],
        program_id,
    ) {
        Err(MultisigError::AddressMismatch)
    } else if !group_has_owner(ms, user) {
        Err(MultisigError::Unauthorized)
    } else if !roster_matches(ms, tx, user) {
        Err(MultisigError::InvalidConfiguration)
    } else {
        Ok(tx.subrange(0, tx_size(tx_num_accounts(tx), tx_num_signers(tx), tx_data_len(tx))))
    }
}

/// Validates a proposal-creation call and returns the record bytes to
/// store at the designated address, or the exact error the specification
/// assigns to the input.
pub fn process_create_transaction(
    user_key: &Pubkey,
    user_is_signer: bool,
    transaction_key: &Pubkey,
    multisig_key: &Pubkey,
    program_id: &Pubkey,
    data: &[u8],
    ms_data: &[u8],
) -> (r: Result<Vec<u8>, MultisigError>)
    ensures
        r matches Ok(v) ==> create_transaction_spec(
            user_key@,
            user_is_signer,
            transaction_key@,
            multisig_key@,
            program_id@,
            data@,
            ms_data@,
        ) == Ok::<Seq<u8>, MultisigError>(v@),
        r matches Err(e) ==> create_transaction_spec(
            user_key@,
            user_is_signer,
            transaction_key@,
            multisig_key@,
            program_id@,
            data@,
            ms_data@,
        ) == Err::<Seq<u8>, MultisigError>(e),
{
    if !user_is_signer {
        return Err(MultisigError::Unauthorized);
    }
    let t = match Transaction::parse(data) {
        Ok(t) => t,
        Err(e) => {
            return Err(e);
        },
    };
    let m = match Multisig::parse(ms_data) {
        Ok(m) => m,
        Err(e) => {
            return Err(e);
        },
    };
    let ms_pda = crate::pda::derive(
        vstd::array::array_as_slice(&MULTISIG_SEED),
        &m.header.seed,
        m.header.bump,
        program_id,
    );
    if !key_eq(multisig_key, &ms_pda) {
        return Err(MultisigError::AddressMismatch);
    }
    let tx_pda = crate::pda::derive(
        vstd::array::array_as_slice(&TRANSACTION_SEED),
        &t.header.seed,
        t.header.bump,
        program_id,
    );
    if !key_eq(transaction_key, &tx_pda) {
        return Err(MultisigError::AddressMismatch);
    }
    proof {
        lemma_owner_membership(m.owners@, ms_data@, user_key@);
    }
    if !contains_key(&m.owners, user_key) {
        return Err(MultisigError::Unauthorized);
    }
    let non = m.owners.len();
    let ns = t.signers.len();
    let mut j: usize = 0;
    #[verifier::loop_isolation(false)]
    while j < non
        invariant
            j <= non,
            forall|j2: int|
                0 <= j2 < j ==> #[trigger] roster_count(data@, ms_owner(ms_data@, j2)) == 1,
            forall|j2: int, i2: int|
                0 <= j2 < j && #[trigger] roster_first_match(data@, ms_owner(ms_data@, j2), i2)
                    ==> tx_signer_flag(data@, i2) == (if ms_owner(ms_data@, j2) == user_key@ {
                    255u8
                } else {
                    0u8
                }),
        decreases non - j,
    {
        let owner: Pubkey = m.owners[j];
        let mut cnt: u64 = 0;
        let mut first: usize = 0;
        let mut i: usize = 0;
        #[verifier::loop_isolation(false)]
        while i < ns
            invariant
                i <= ns,
                cnt <= i as u64,
                cnt == matches_up_to(data@, owner@, i as int),
                cnt > 0 ==> first < i && roster_first_match(data@, owner@, first as int),
                cnt == 0 ==> forall|i2: int| 0 <= i2 < i ==> tx_signer_key(data@, i2) != owner@,
            decreases ns - i,
        {
            if key_eq(&t.signers[i].pubkey, &owner) {
                if cnt == 0 {
                    first = i;
                }
                cnt = cnt + 1;
            }
            i = i + 1;
        }
        if cnt != 1 {
            proof {
                assert(roster_count(data@, ms_owner(ms_data@, j as int)) != 1);
                assert(!roster_matches(ms_data@, data@, user_key@));
            }
            return Err(MultisigError::InvalidConfiguration);
        }
        let expected: u8 = if key_eq(&owner, user_key) {
            255
        } else {
            0
        };
        if t.signers[first].signed != expected {
            proof {
                assert(roster_first_match(data@, ms_owner(ms_data@, j as int), first as int));
                assert(tx_signer_flag(data@, first as int) != expected);
                assert(!roster_matches(ms_data@, data@, user_key@));
            }
            return Err(MultisigError::InvalidConfiguration);
        }
        proof {
            assert forall|i2: int|
                roster_first_match(data@, ms_owner(ms_data@, j as int), i2) implies tx_signer_flag(
                data@,
                i2,
            ) == (if ms_owner(ms_data@, j as int) == user_key@ {
                255u8
            } else {
                0u8
            }) by {
                crate::transaction::lemma_first_match_unique(
                    data@,
                    ms_owner(ms_data@, j as int),
                    i2,
                    first as int,
                );
            }
        }
        j = j + 1;
    }
    let mut i: usize = 0;
    #[verifier::loop_isolation(false)]
    while i < ns
        invariant
            i <= ns,
            forall|i2: int|
                0 <= i2 < i ==> group_has_owner(ms_data@, #[trigger] tx_signer_key(data@, i2)),
        decreases ns - i,
    {
        proof {
            lemma_owner_membership(m.owners@, ms_data@, t.signers@[i as int].pubkey@);
        }
        if !contains_key(&m.owners, &t.signers[i].pubkey) {
            proof {
                assert(!group_has_owner(ms_data@, tx_signer_key(data@, i as int)));
                assert(!roster_matches(ms_data@, data@, user_key@));
            }
            return Err(MultisigError::InvalidConfiguration);
        }
        i = i + 1;
    }
    proof {
        assert(roster_matches(ms_data@, data@, user_key@));
    }
    let na = t.accounts.len();
    let dl = t.data.len();
    let dlen = data.len();
    proof {
        assert(98 + 34 * (na as int) + 33 * (ns as int) + (dl as int) <= dlen as int);
    }
    let size = 98 + 34 * na + 33 * ns + dl;
    Ok(bytes_prefix(data, size))
}

/// The roster-bootstrap law: for a signed call whose records decode and
/// authenticate and whose caller is a group owner, proposal creation
/// succeeds exactly when the roster mirrors the group; in particular a
/// roster missing an owner, or holding an owner's entry with the wrong
/// initial flag, always rejects as an invalid configuration.
pub proof fn lemma_roster_bootstrap(
    user: Seq<u8>,
    transaction_key: Seq<u8>,
    multisig_key: Seq<u8>,
    program_id: Seq<u8>,
    tx: Seq<u8>,
    ms: Seq<u8>,
)
    requires
        tx_wf(tx),
        ms_wf(ms),
        multisig_key == pda_hash(MULTISIG_SEED@, ms.subrange(0, 8), ms[25], program_id),
        transaction_key == pda_hash(TRANSACTION_SEED@, tx.subrange(89, 97), tx[97], program_id),
        group_has_owner(ms, user),
    ensures
        create_transaction_spec(user, true, transaction_key, multisig_key, program_id, tx, ms)
            is Ok <==> roster_matches(ms, tx, user),
        (exists|j: int|
            0 <= j < ms_num_owners(ms) && #[trigger] roster_count(tx, ms_owner(ms, j)) == 0)
            ==> create_transaction_spec(user, true, transaction_key, multisig_key, program_id, tx, ms)
            == Err::<Seq<u8>, MultisigError>(MultisigError::InvalidConfiguration),
        (exists|j: int, i: int|
            0 <= j < ms_num_owners(ms) && #[trigger] roster_first_match(tx, ms_owner(ms, j), i)
                && tx_signer_flag(tx, i) != (if ms_owner(ms, j) == user {
                255u8
            } else {
                0u8
            })) ==> create_transaction_spec(
            user,
            true,
            transaction_key,
            multisig_key,
            program_id,
            tx,
            ms,
        ) == Err::<Seq<u8>, MultisigError>(MultisigError::InvalidConfiguration),
{
    if exists|j: int|
        0 <= j < ms_num_owners(ms) && #[trigger] roster_count(tx, ms_owner(ms, j)) == 0 {
        let j = choose|j: int|
            0 <= j < ms_num_owners(ms) && #[trigger] roster_count(tx, ms_owner(ms, j)) == 0;
        assert(roster_count(tx, ms_owner(ms, j)) != 1);
        assert(!roster_matches(ms, tx, user));
    }
    if exists|j: int, i: int|
        0 <= j < ms_num_owners(ms) && #[trigger] roster_first_match(tx, ms_owner(ms, j), i)
            && tx_signer_flag(tx, i) != (if ms_owner(ms, j) == user {
            255u8
        } else {
            0u8
        }) {
        let (j, i) = choose|j: int, i: int|
            0 <= j < ms_num_owners(ms) && #[trigger] roster_first_match(tx, ms_owner(ms, j), i)
                && tx_signer_flag(tx, i) != (if ms_owner(ms, j) == user {
                255u8
            } else {
                0u8
            });
        assert(!roster_matches(ms, tx, user));
    }
}

} // verus!
