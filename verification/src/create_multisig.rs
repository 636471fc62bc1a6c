//! Group creation: validates a proposed group record supplied as raw call
//! data and, when every check passes, yields the exact bytes of the record
//! to be materialized in newly allocated storage. All validation is pure;
//! nothing is produced on any failure.
use vstd::prelude::*;

use crate::Pubkey;
use crate::constants::MULTISIG_SEED;
use crate::encoding::{u64_from_le, key_eq, bytes_prefix};
use crate::error::MultisigError;
use crate::multisig::{
    Multisig, ms_wf, ms_size, ms_num_owners, ms_threshold, ms_owner, group_has_owner, contains_key,
};
use crate::pda::pda_hash;

verus! {

/// The specified outcome of group creation, checked in order: the caller
/// must have signed the call; the record must decode; the designated
/// storage key must equal the address derived from the record's own seed
/// and bump under the group namespace; the threshold/owner-count invariant
/// must hold; and the caller must be one of the declared owners. On
/// success the stored record is exactly the supplied header and owners.
pub open spec fn create_multisig_spec(
    user: Seq<u8>,
    user_is_signer: bool,
    multisig_key: Seq<u8>,
    program_id: Seq<u8>,
    data: Seq<u8>,
) -> Result<Seq<u8>, MultisigError> {
    if !user_is_signer {
        Err(MultisigError::Unauthorized)
    } else if !ms_wf(data) {
        Err(MultisigError::StructuralError)
    } else if multisig_key != pda_hash(MULTISIG_SEED@, data.subrange(0, 8), data[25], program_id) {
        Err(MultisigError::AddressMismatch)
    } else if !(ms_threshold(data) >= 1 && ms_num_owners(data) >= 1 && ms_threshold(data)
        <= ms_num_owners(data)) {
        Err(MultisigError::InvalidConfiguration)
    } else if !group_has_owner(data, user) {
        Err(MultisigError::Unauthorized)
    } else {
        Ok(data.subrange(0, ms_size(ms_num_owners(data))))
    }
}

/// Validates a group-creation call and returns the record bytes to store
/// at the designated address, or the exact error the specification assigns
/// to the input.
pub fn process_create_multisig(
    user_key: &Pubkey,
    user_is_signer: bool,
    multisig_key: &Pubkey,
    program_id: &Pubkey,
    data: &[u8],
) -> (r: Result<Vec<u8>, MultisigError>)
    ensures
        r matches Ok(v) ==> create_multisig_spec(
            user_key@,
            user_is_signer,
            multisig_key@,
            program_id@,
            data@,
        ) == Ok::<Seq<u8>, MultisigError>(v@),
        r matches Err(e) ==> create_multisig_spec(
            user_key@,
            user_is_signer,
            multisig_key@,
            program_id@,
            data@,
        ) == Err::<Seq<u8>, MultisigError>(e),
{
    if !user_is_signer {
        return Err(MultisigError::Unauthorized);
    }
    let m = match Multisig::parse(data) {
        Ok(m) => m,
        Err(e) => {
            return Err(e);
        },
    };
    let pda = crate::pda::derive(
        vstd::array::array_as_slice(&MULTISIG_SEED),
        &m.header.seed,
        m.header.bump,
        program_id,
    );
    if !key_eq(multisig_key, &pda) {
        return Err(MultisigError::AddressMismatch);
    }
    let threshold = u64_from_le(&m.header.threshold);
    let n = m.owners.len();
    if !(threshold >= 1 && n >= 1 && threshold <= n as u64) {
        return Err(MultisigError::InvalidConfiguration);
    }
    if !contains_key(&m.owners, user_key) {
        proof {
            assert forall|j: int| 0 <= j < ms_num_owners(data@) implies ms_owner(data@, j)
                != user_key@ by {
                assert(m.owners@[j]@ == ms_owner(data@, j));
            }
        }
        return Err(MultisigError::Unauthorized);
    }
    proof {
        let j = choose|j: int| 0 <= j < m.owners@.len() && m.owners@[j]@ == user_key@;
        assert(ms_owner(data@, j) == user_key@);
    }
    let dlen = data.len();
    proof {
        assert(26 + 32 * (n as int) <= dlen as int);
    }
    let size = 26 + 32 * n;
    Ok(bytes_prefix(data, size))
}

/// The group-creation invariant: for a signed call whose record decodes and
/// whose designated storage key matches the derived address, creation
/// succeeds exactly when `1 <= threshold <= owner_count` and the caller is
/// one of the declared owners; on every other such input it rejects, and a
/// rejection carries no record bytes, so nothing is ever stored for it.
pub proof fn lemma_create_multisig_succeeds_iff(
    user: Seq<u8>,
    multisig_key: Seq<u8>,
    program_id: Seq<u8>,
    data: Seq<u8>,
)
    requires
        ms_wf(data),
        multisig_key == pda_hash(MULTISIG_SEED@, data.subrange(0, 8), data[25], program_id),
    ensures
        create_multisig_spec(user, true, multisig_key, program_id, data) is Ok <==> (1
            <= ms_threshold(data) && ms_threshold(data) <= ms_num_owners(data) && group_has_owner(
            data,
            user,
        )),
{
}

} // verus!
