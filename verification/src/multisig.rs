//! The group record: a fixed 26-byte header followed by the owners array.
//!
//! Layout, little-endian throughout:
//! bytes 0..8 seed, 8..16 owner count, 16..24 threshold, 24 nonce, 25 bump,
//! then one 32-byte identity key per owner.
use vstd::prelude::*;

use crate::Pubkey;
use crate::encoding::{le_u64, u64_from_le, copy8, copy32, put8, put32, key_eq};
use crate::error::MultisigError;

verus! {

/// The fixed-size header of a group record. The three 64-bit fields are
/// held as their little-endian bytes, exactly as stored.
#[derive(Clone, Copy, PartialEq, Eq, Debug)]
pub struct MultisigHeader {
    pub seed: [u8; 8],
    pub num_owners: [u8; 8],
    pub threshold: [u8; 8],
    pub nonce: u8,
    pub bump: u8,
}

/// A decoded group record: the header and the owner keys it declares.
#[derive(PartialEq, Eq, Debug)]
pub struct Multisig {
    pub header: MultisigHeader,
    pub owners: Vec<Pubkey>,
}

/// Size in bytes of the fixed group header.
pub const MULTISIG_HEADER_SIZE: usize = 26;

/// Total size in bytes of a group record with `n` owners.
pub open spec fn ms_size(n: int) -> int {
    26 + 32 * n
}

/// Whether `data` is long enough for the header and for the owners array
/// the header declares.
pub open spec fn ms_wf(data: Seq<u8>) -> bool {
    &&& data.len() >= 26
    &&& 26 + 32 * le_u64(data.subrange(8, 16)) <= data.len()
}

/// The declared owner count of an encoded group record.
pub open spec fn ms_num_owners(data: Seq<u8>) -> int {
    le_u64(data.subrange(8, 16))
}

/// The declared threshold of an encoded group record.
pub open spec fn ms_threshold(data: Seq<u8>) -> int {
    le_u64(data.subrange(16, 24))
}

/// The `j`-th owner key of an encoded group record.
pub open spec fn ms_owner(data: Seq<u8>, j: int) -> Seq<u8> {
    data.subrange(26 + 32 * j, 26 + 32 * j + 32)
}

/// The owners array flattened to bytes, in declared order.
pub open spec fn flat_keys(keys: Seq<Pubkey>) -> Seq<u8>
    decreases keys.len(),
{
    if keys.len() == 0 {
        Seq::empty()
    } else {
        keys[0]@ + flat_keys(keys.skip(1))
    }
}

/// The byte encoding of a group header.
pub open spec fn enc_multisig_header(h: MultisigHeader) -> Seq<u8> {
    h.seed@ + h.num_owners@ + h.threshold@ + seq![h.nonce] + seq![h.bump]
}

/// The byte encoding of a whole group record.
pub open spec fn enc_multisig(h: MultisigHeader, owners: Seq<Pubkey>) -> Seq<u8> {
    enc_multisig_header(h) + flat_keys(owners)
}

pub proof fn lemma_flat_keys_len(keys: Seq<Pubkey>)
    ensures
        flat_keys(keys).len() == 32 * keys.len(),
    decreases keys.len(),
{
    if keys.len() > 0 {
        lemma_flat_keys_len(keys.skip(1));
    }
}

/// Each 32-byte slice of the flattened owners array is the corresponding key.
pub proof fn lemma_flat_keys_slice(keys: Seq<Pubkey>, j: int)
    requires
        0 <= j < keys.len(),
    ensures
        flat_keys(keys).subrange(32 * j, 32 * j + 32) == keys[j]@,
    decreases j,
{
    lemma_flat_keys_len(keys);
    lemma_flat_keys_len(keys.skip(1));
    if j == 0 {
        assert(flat_keys(keys).subrange(0, 32) =~= keys[0]@);
    } else {
        lemma_flat_keys_slice(keys.skip(1), j - 1);
        assert(flat_keys(keys).subrange(32 * j, 32 * j + 32) =~= flat_keys(keys.skip(1)).subrange(
            32 * (j - 1),
            32 * (j - 1) + 32,
        ));
        assert(keys.skip(1)[j - 1] == keys[j]);
    }
}

/// A byte sequence whose 32-byte slices equal the keys, in order, is the
/// flattened owners array.
pub proof fn lemma_flat_keys_eq(keys: Seq<Pubkey>, s: Seq<u8>)
    requires
        s.len() == 32 * keys.len(),
        forall|j: int| 0 <= j < keys.len() ==> s.subrange(32 * j, 32 * j + 32) == keys[j]@,
    ensures
        flat_keys(keys) == s,
    decreases keys.len(),
{
    lemma_flat_keys_len(keys);
    if keys.len() == 0 {
        assert(flat_keys(keys) =~= s);
    } else {
        let rest = s.skip(32);
        assert forall|j: int| 0 <= j < keys.skip(1).len() implies rest.subrange(
            32 * j,
            32 * j + 32,
        ) == keys.skip(1)[j]@ by {
            assert(rest.subrange(32 * j, 32 * j + 32) =~= s.subrange(
                32 * (j + 1),
                32 * (j + 1) + 32,
            ));
        }
        lemma_flat_keys_eq(keys.skip(1), rest);
        assert(s.subrange(0, 32) == keys[0]@);
        assert(flat_keys(keys) =~= s);
    }
}

/// Whether `key` occurs among the owner keys `keys`.
pub open spec fn has_key(keys: Seq<Pubkey>, key: Seq<u8>) -> bool {
    exists|j: int| 0 <= j < keys.len() && keys[j]@ == key
}

/// Whether `key` is one of the owners an encoded group record declares.
pub open spec fn group_has_owner(data: Seq<u8>, key: Seq<u8>) -> bool {
    exists|j: int| 0 <= j < ms_num_owners(data) && ms_owner(data, j) == key
}

/// A decoded owner list that matches an encoded record key for key has
/// exactly the record's membership.
pub proof fn lemma_owner_membership(owners: Seq<Pubkey>, data: Seq<u8>, key: Seq<u8>)
    requires
        owners.len() == ms_num_owners(data),
        forall|j: int| 0 <= j < owners.len() ==> owners[j]@ == ms_owner(data, j),
    ensures
        has_key(owners, key) == group_has_owner(data, key),
{
    if has_key(owners, key) {
        let j = choose|j: int| 0 <= j < owners.len() && owners[j]@ == key;
        assert(ms_owner(data, j) == key);
    }
    if group_has_owner(data, key) {
        let j = choose|j: int| 0 <= j < ms_num_owners(data) && ms_owner(data, j) == key;
        assert(owners[j]@ == key);
    }
}

/// Whether `key` occurs in `keys`, byte for byte.
pub fn contains_key(keys: &Vec<Pubkey>, key: &Pubkey) -> (r: bool)
    ensures
        r == has_key(keys@, key@),
{
    let n = keys.len();
    let mut i: usize = 0;
    while i < n
        invariant
            i <= n,
            n == keys@.len(),
            forall|j: int| 0 <= j < i ==> keys@[j]@ != key@,
        decreases n - i,
    {
        if key_eq(&keys[i], key) {
            return true;
        }
        i = i + 1;
    }
    false
}

/// Round trip for group records: decoding the encoding of a header and an
/// owners array whose length matches the header's declared count recovers
/// exactly the encoded fields and owners. Together with the contracts of
/// `Multisig::write` and `Multisig::parse` this says that whatever `write`
/// stores, `parse` reads back unchanged.
pub proof fn lemma_multisig_round_trip(h: MultisigHeader, owners: Seq<Pubkey>)
    requires
        le_u64(h.num_owners@) == owners.len(),
    ensures
        ({
            let data = enc_multisig(h, owners);
            &&& data.len() == ms_size(owners.len() as int)
            &&& ms_wf(data)
            &&& data.subrange(0, 8) == h.seed@
            &&& data.subrange(8, 16) == h.num_owners@
            &&& data.subrange(16, 24) == h.threshold@
            &&& data[24] == h.nonce
            &&& data[25] == h.bump
            &&& ms_num_owners(data) == owners.len()
            &&& ms_threshold(data) == le_u64(h.threshold@)
            &&& forall|j: int| 0 <= j < owners.len() ==> ms_owner(data, j) == owners[j]@
        }),
{
    let data = enc_multisig(h, owners);
    lemma_flat_keys_len(owners);
    assert(data.subrange(0, 8) =~= h.seed@);
    assert(data.subrange(8, 16) =~= h.num_owners@);
    assert(data.subrange(16, 24) =~= h.threshold@);
    assert forall|j: int| 0 <= j < owners.len() implies ms_owner(data, j) == owners[j]@ by {
        lemma_flat_keys_slice(owners, j);
        assert(ms_owner(data, j) =~= flat_keys(owners).subrange(32 * j, 32 * j + 32));
    }
}

impl Multisig {
    /// Whether the decoded record is internally consistent: the owner array
    /// has exactly the length the header declares.
    pub open spec fn wf(self) -> bool {
        self.owners@.len() == le_u64(self.header.num_owners@)
    }

    /// Decodes a group record from a raw buffer, checking every bound
    /// before it is used. A buffer too short for the header or for the
    /// declared owners array is rejected.
    pub fn parse(data: &[u8]) -> (r: Result<Multisig, MultisigError>)
        ensures
            r is Ok <==> ms_wf(data@),
            r matches Err(e) ==> e == MultisigError::StructuralError,
            r matches Ok(m) ==> {
                &&& m.wf()
                &&& m.header.seed@ == data@.subrange(0, 8)
                &&& m.header.num_owners@ == data@.subrange(8, 16)
                &&& m.header.threshold@ == data@.subrange(16, 24)
                &&& m.header.nonce == data@[24]
                &&& m.header.bump == data@[25]
                &&& m.owners@.len() == ms_num_owners(data@)
                &&& forall|j: int|
                    0 <= j < m.owners@.len() ==> m.owners@[j]@ == ms_owner(data@, j)
            },
    {
        let len = data.len();
        if len < 26 {
            return Err(MultisigError::StructuralError);
        }
        let seed = copy8(data, 0);
        let num_owners = copy8(data, 8);
        let threshold = copy8(data, 16);
        let nonce = data[24];
        let bump = data[25];
        let n64 = u64_from_le(&num_owners);
        if n64 > ((len - 26) / 32) as u64 {
            return Err(MultisigError::StructuralError);
        }
        let n = n64 as usize;
        let mut owners: Vec<Pubkey> = Vec::new();
        let mut i: usize = 0;
        while i < n
            invariant
                i <= n,
                26 + 32 * n <= len,
                len == data@.len(),
                owners@.len() == i,
                forall|j: int| 0 <= j < i ==> owners@[j]@ == ms_owner(data@, j),
            decreases n - i,
        {
            let k = copy32(data, 26 + 32 * i);
            owners.push(k);
            i = i + 1;
        }
        Ok(Multisig { header: MultisigHeader { seed, num_owners, threshold, nonce, bump }, owners })
    }

    /// Total size in bytes of a group record with `num_owners` owners.
    pub fn size(num_owners: u64) -> (r: usize)
        requires
            26 + 32 * num_owners <= usize::MAX,
        ensures
            r == ms_size(num_owners as int),
    {
        26 + 32 * (num_owners as usize)
    }

    /// Serializes a group record into the front of `data`: header first,
    /// then the owner keys contiguously in declared order. Bytes past the
    /// record are left untouched; a buffer too small is rejected whole.
    pub fn write(data: &mut Vec<u8>, header: &MultisigHeader, owners: &Vec<Pubkey>) -> (r: Result<
        (),
        MultisigError,
    >)
        ensures
            r is Ok <==> ms_size(owners@.len() as int) <= old(data)@.len(),
            r matches Err(e) ==> e == MultisigError::StructuralError && final(data)@ == old(
                data,
            )@,
            r is Ok ==> {
                &&& final(data)@.len() == old(data)@.len()
                &&& final(data)@.subrange(0, ms_size(owners@.len() as int)) == enc_multisig(
                    *header,
                    owners@,
                )
                &&& forall|k: int|
                    ms_size(owners@.len() as int) <= k < old(data)@.len() ==> final(data)@[k]
                        == old(data)@[k]
            },
    {
        let len = data.len();
        let n = owners.len();
        if len < 26 || n > (len - 26) / 32 {
            proof {
                if len >= 26 && 26 + 32 * owners@.len() <= len {
                    assert(owners@.len() <= (len - 26) / 32);
                }
            }
            return Err(MultisigError::StructuralError);
        }
        let ghost orig: Seq<u8> = data@;
        put8(data, 0, &header.seed);
        put8(data, 8, &header.num_owners);
        put8(data, 16, &header.threshold);
        data.set(24, header.nonce);
        data.set(25, header.bump);
        let mut i: usize = 0;
        while i < n
            invariant
                i <= n,
                26 + 32 * n <= len,
                len == data@.len(),
                n == owners@.len(),
                data@.subrange(0, 8) == header.seed@,
                data@.subrange(8, 16) == header.num_owners@,
                data@.subrange(16, 24) == header.threshold@,
                data@[24] == header.nonce,
                data@[25] == header.bump,
                forall|j: int| 0 <= j < i ==> data@.subrange(26 + 32 * j, 26 + 32 * j + 32)
                    == owners@[j]@,
                forall|k: int| 26 + 32 * n <= k < len ==> data@[k] == orig[k],
            decreases n - i,
        {
            put32(data, 26 + 32 * i, &owners[i]);
            i = i + 1;
        }
        proof {
            let size = ms_size(owners@.len() as int);
            let written = data@.subrange(26, size);
            lemma_flat_keys_len(owners@);
            assert forall|j: int| 0 <= j < owners@.len() implies written.subrange(
                32 * j,
                32 * j + 32,
            ) == owners@[j]@ by {
                assert(written.subrange(32 * j, 32 * j + 32) =~= data@.subrange(
                    26 + 32 * j,
                    26 + 32 * j + 32,
                ));
            }
            lemma_flat_keys_eq(owners@, written);
            assert(data@.subrange(0, size) =~= enc_multisig(*header, owners@));
        }
        Ok(())
    }
}

} // verus!
