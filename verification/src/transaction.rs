//! The proposal record: a fixed 98-byte header followed by three
//! variable-length sections whose lengths the header declares.
//!
//! Layout, little-endian throughout:
//! bytes 0..32 owning group key, 32..64 target program key,
//! 64..72 account count, 72..80 signer count, 80..88 payload length,
//! 88 executed flag, 89..97 seed, 97 bump; then the accounts
//! (32-byte key, is-signer byte, is-writable byte — 34 bytes each), the
//! signer roster (32-byte key, signed byte — 33 bytes each), and the
//! opaque payload.
use vstd::prelude::*;

use crate::Pubkey;
use crate::encoding::{le_u64, u64_from_le, copy8, copy32, put8, put32, put_bytes};
use crate::error::MultisigError;

verus! {

/// The fixed-size header of a proposal record. The three 64-bit counters
/// are held as their little-endian bytes, exactly as stored.
#[derive(Clone, Copy, PartialEq, Eq, Debug)]
pub struct TransactionHeader {
    pub multisig: Pubkey,
    pub program_id: Pubkey,
    pub num_accounts: [u8; 8],
    pub num_signers: [u8; 8],
    pub data_len: [u8; 8],
    pub executed: u8,
    pub seed: [u8; 8],
    pub bump: u8,
}

/// One operand of the proposed action: a key and its access flags.
#[derive(Clone, Copy, PartialEq, Eq, Debug)]
pub struct TransactionAccount {
    pub pubkey: Pubkey,
    pub is_signer: u8,
    pub is_writable: u8,
}

/// One roster entry: an owner key and whether that owner has approved
/// (0 = not signed, 255 = signed).
#[derive(Clone, Copy, PartialEq, Eq, Debug)]
pub struct TransactionSigner {
    pub pubkey: Pubkey,
    pub signed: u8,
}

/// A decoded proposal record.
#[derive(PartialEq, Eq, Debug)]
pub struct Transaction {
    pub header: TransactionHeader,
    pub accounts: Vec<TransactionAccount>,
    pub signers: Vec<TransactionSigner>,
    pub data: Vec<u8>,
}

/// Size in bytes of the fixed proposal header.
pub const TRANSACTION_HEADER_SIZE: usize = 98;

/// Total size in bytes of a proposal record with the given section counts.
pub open spec fn tx_size(na: int, ns: int, dl: int) -> int {
    98 + 34 * na + 33 * ns + dl
}

/// The declared account count of an encoded proposal record.
pub open spec fn tx_num_accounts(data: Seq<u8>) -> int {
    le_u64(data.subrange(64, 72))
}

/// The declared signer count of an encoded proposal record.
pub open spec fn tx_num_signers(data: Seq<u8>) -> int {
    le_u64(data.subrange(72, 80))
}

/// The declared payload length of an encoded proposal record.
pub open spec fn tx_data_len(data: Seq<u8>) -> int {
    le_u64(data.subrange(80, 88))
}

/// Whether `data` is long enough for the header and for the three
/// sections the header declares.
pub open spec fn tx_wf(data: Seq<u8>) -> bool {
    &&& data.len() >= 98
    &&& tx_size(tx_num_accounts(data), tx_num_signers(data), tx_data_len(data)) <= data.len()
}

/// Byte offset of the signer roster inside an encoded proposal record.
pub open spec fn tx_signers_off(data: Seq<u8>) -> int {
    98 + 34 * tx_num_accounts(data)
}

/// Byte offset of the payload inside an encoded proposal record.
pub open spec fn tx_payload_off(data: Seq<u8>) -> int {
    tx_signers_off(data) + 33 * tx_num_signers(data)
}

/// The key of the `j`-th roster entry of an encoded proposal record.
pub open spec fn tx_signer_key(data: Seq<u8>, j: int) -> Seq<u8> {
    data.subrange(tx_signers_off(data) + 33 * j, tx_signers_off(data) + 33 * j + 32)
}

/// The signed flag of the `j`-th roster entry of an encoded proposal record.
pub open spec fn tx_signer_flag(data: Seq<u8>, j: int) -> u8 {
    data[tx_signers_off(data) + 33 * j + 32]
}

/// Whether roster entry `i` is the first entry whose key is `key`.
pub open spec fn roster_first_match(data: Seq<u8>, key: Seq<u8>, i: int) -> bool {
    &&& 0 <= i < tx_num_signers(data)
    &&& tx_signer_key(data, i) == key
    &&& forall|j: int| 0 <= j < i ==> tx_signer_key(data, j) != key
}

/// Whether some roster entry carries `key`.
pub open spec fn roster_has(data: Seq<u8>, key: Seq<u8>) -> bool {
    exists|i: int| roster_first_match(data, key, i)
}

/// The first roster entry carrying a given key is unique.
pub proof fn lemma_first_match_unique(data: Seq<u8>, key: Seq<u8>, i1: int, i2: int)
    requires
        roster_first_match(data, key, i1),
        roster_first_match(data, key, i2),
    ensures
        i1 == i2,
{
    if i1 < i2 {
        assert(tx_signer_key(data, i1) != key);
    }
    if i2 < i1 {
        assert(tx_signer_key(data, i2) != key);
    }
}

/// How many of the first `m` roster entries carry `key`.
pub open spec fn matches_up_to(data: Seq<u8>, key: Seq<u8>, m: int) -> int
    decreases m,
{
    if m <= 0 {
        0
    } else {
        matches_up_to(data, key, m - 1) + if tx_signer_key(data, m - 1) == key {
            1int
        } else {
            0int
        }
    }
}

/// How many roster entries carry `key`.
pub open spec fn roster_count(data: Seq<u8>, key: Seq<u8>) -> int {
    matches_up_to(data, key, tx_num_signers(data))
}

/// How many of the first `m` roster entries are marked signed.
pub open spec fn signed_up_to(data: Seq<u8>, m: int) -> int
    decreases m,
{
    if m <= 0 {
        0
    } else {
        signed_up_to(data, m - 1) + if tx_signer_flag(data, m - 1) == 255 {
            1int
        } else {
            0int
        }
    }
}

/// How many roster entries are marked signed: the approval count the
/// execution gate compares against the group's threshold.
pub open spec fn approvals(data: Seq<u8>) -> int {
    signed_up_to(data, tx_num_signers(data))
}

/// The byte encoding of a proposal header.
pub open spec fn enc_tx_header(h: TransactionHeader) -> Seq<u8> {
    h.multisig@ + h.program_id@ + h.num_accounts@ + h.num_signers@ + h.data_len@
        + seq![h.executed] + h.seed@ + seq![h.bump]
}

/// The byte encoding of one operand entry.
pub open spec fn enc_account(a: TransactionAccount) -> Seq<u8> {
    a.pubkey@ + seq![a.is_signer] + seq![a.is_writable]
}

/// The byte encoding of one roster entry.
pub open spec fn enc_signer(s: TransactionSigner) -> Seq<u8> {
    s.pubkey@ + seq![s.signed]
}

/// The operand section flattened to bytes, in declared order.
pub open spec fn flat_accounts(accs: Seq<TransactionAccount>) -> Seq<u8>
    decreases accs.len(),
{
    if accs.len() == 0 {
        Seq::empty()
    } else {
        enc_account(accs[0]) + flat_accounts(accs.skip(1))
    }
}

/// The roster section flattened to bytes, in declared order.
pub open spec fn flat_signers(sigs: Seq<TransactionSigner>) -> Seq<u8>
    decreases sigs.len(),
{
    if sigs.len() == 0 {
        Seq::empty()
    } else {
        enc_signer(sigs[0]) + flat_signers(sigs.skip(1))
    }
}

/// The byte encoding of a whole proposal record.
pub open spec fn enc_transaction(
    h: TransactionHeader,
    accs: Seq<TransactionAccount>,
    sigs: Seq<TransactionSigner>,
    payload: Seq<u8>,
) -> Seq<u8> {
    enc_tx_header(h) + flat_accounts(accs) + flat_signers(sigs) + payload
}

pub proof fn lemma_flat_accounts_len(accs: Seq<TransactionAccount>)
    ensures
        flat_accounts(accs).len() == 34 * accs.len(),
    decreases accs.len(),
{
    if accs.len() > 0 {
        lemma_flat_accounts_len(accs.skip(1));
    }
}

pub proof fn lemma_flat_signers_len(sigs: Seq<TransactionSigner>)
    ensures
        flat_signers(sigs).len() == 33 * sigs.len(),
    decreases sigs.len(),
{
    if sigs.len() > 0 {
        lemma_flat_signers_len(sigs.skip(1));
    }
}

/// Each 34-byte slice of the flattened operand section is the encoding of
/// the corresponding entry.
pub proof fn lemma_flat_accounts_slice(accs: Seq<TransactionAccount>, j: int)
    requires
        0 <= j < accs.len(),
    ensures
        flat_accounts(accs).subrange(34 * j, 34 * j + 34) == enc_account(accs[j]),
    decreases j,
{
    lemma_flat_accounts_len(accs);
    lemma_flat_accounts_len(accs.skip(1));
    if j == 0 {
        assert(flat_accounts(accs).subrange(0, 34) =~= enc_account(accs[0]));
    } else {
        lemma_flat_accounts_slice(accs.skip(1), j - 1);
        assert(flat_accounts(accs).subrange(34 * j, 34 * j + 34) =~= flat_accounts(
            accs.skip(1),
        ).subrange(34 * (j - 1), 34 * (j - 1) + 34));
        assert(accs.skip(1)[j - 1] == accs[j]);
    }
}

/// Each 33-byte slice of the flattened roster section is the encoding of
/// the corresponding entry.
pub proof fn lemma_flat_signers_slice(sigs: Seq<TransactionSigner>, j: int)
    requires
        0 <= j < sigs.len(),
    ensures
        flat_signers(sigs).subrange(33 * j, 33 * j + 33) == enc_signer(sigs[j]),
    decreases j,
{
    lemma_flat_signers_len(sigs);
    lemma_flat_signers_len(sigs.skip(1));
    if j == 0 {
        assert(flat_signers(sigs).subrange(0, 33) =~= enc_signer(sigs[0]));
    } else {
        lemma_flat_signers_slice(sigs.skip(1), j - 1);
        assert(flat_signers(sigs).subrange(33 * j, 33 * j + 33) =~= flat_signers(
            sigs.skip(1),
        ).subrange(33 * (j - 1), 33 * (j - 1) + 33));
        assert(sigs.skip(1)[j - 1] == sigs[j]);
    }
}

/// A byte sequence whose 34-byte slices encode the entries, in order, is
/// the flattened operand section.
pub proof fn lemma_flat_accounts_eq(accs: Seq<TransactionAccount>, s: Seq<u8>)
    requires
        s.len() == 34 * accs.len(),
        forall|j: int|
            0 <= j < accs.len() ==> s.subrange(34 * j, 34 * j + 34) == enc_account(accs[j]),
    ensures
        flat_accounts(accs) == s,
    decreases accs.len(),
{
    lemma_flat_accounts_len(accs);
    if accs.len() == 0 {
        assert(flat_accounts(accs) =~= s);
    } else {
        let rest = s.skip(34);
        assert forall|j: int| 0 <= j < accs.skip(1).len() implies rest.subrange(
            34 * j,
            34 * j + 34,
        ) == enc_account(accs.skip(1)[j]) by {
            assert(rest.subrange(34 * j, 34 * j + 34) =~= s.subrange(
                34 * (j + 1),
                34 * (j + 1) + 34,
            ));
        }
        lemma_flat_accounts_eq(accs.skip(1), rest);
        assert(s.subrange(0, 34) == enc_account(accs[0]));
        assert(flat_accounts(accs) =~= s);
    }
}

/// A byte sequence whose 33-byte slices encode the entries, in order, is
/// the flattened roster section.
pub proof fn lemma_flat_signers_eq(sigs: Seq<TransactionSigner>, s: Seq<u8>)
    requires
        s.len() == 33 * sigs.len(),
        forall|j: int|
            0 <= j < sigs.len() ==> s.subrange(33 * j, 33 * j + 33) == enc_signer(sigs[j]),
    ensures
        flat_signers(sigs) == s,
    decreases sigs.len(),
{
    lemma_flat_signers_len(sigs);
    if sigs.len() == 0 {
        assert(flat_signers(sigs) =~= s);
    } else {
        let rest = s.skip(33);
        assert forall|j: int| 0 <= j < sigs.skip(1).len() implies rest.subrange(
            33 * j,
            33 * j + 33,
        ) == enc_signer(sigs.skip(1)[j]) by {
            assert(rest.subrange(33 * j, 33 * j + 33) =~= s.subrange(
                33 * (j + 1),
                33 * (j + 1) + 33,
            ));
        }
        lemma_flat_signers_eq(sigs.skip(1), rest);
        assert(s.subrange(0, 33) == enc_signer(sigs[0]));
        assert(flat_signers(sigs) =~= s);
    }
}

/// Round trip for proposal records: decoding the encoding of a header and
/// three sections whose lengths match the header's declared counts recovers
/// exactly the encoded fields, operands, roster and payload. Together with
/// the contracts of `Transaction::write` and `Transaction::parse` this says
/// that whatever `write` stores, `parse` reads back unchanged.
pub proof fn lemma_transaction_round_trip(
    h: TransactionHeader,
    accs: Seq<TransactionAccount>,
    sigs: Seq<TransactionSigner>,
    payload: Seq<u8>,
)
    requires
        le_u64(h.num_accounts@) == accs.len(),
        le_u64(h.num_signers@) == sigs.len(),
        le_u64(h.data_len@) == payload.len(),
    ensures
        ({
            let data = enc_transaction(h, accs, sigs, payload);
            &&& data.len() == tx_size(accs.len() as int, sigs.len() as int, payload.len() as int)
            &&& tx_wf(data)
            &&& data.subrange(0, 32) == h.multisig@
            &&& data.subrange(32, 64) == h.program_id@
            &&& data.subrange(64, 72) == h.num_accounts@
            &&& data.subrange(72, 80) == h.num_signers@
            &&& data.subrange(80, 88) == h.data_len@
            &&& data[88] == h.executed
            &&& data.subrange(89, 97) == h.seed@
            &&& data[97] == h.bump
            &&& tx_num_accounts(data) == accs.len()
            &&& tx_num_signers(data) == sigs.len()
            &&& tx_data_len(data) == payload.len()
            &&& forall|j: int|
                0 <= j < accs.len() ==> data.subrange(98 + 34 * j, 98 + 34 * j + 34) == enc_account(
                    accs[j],
                )
            &&& forall|j: int|
                0 <= j < sigs.len() ==> data.subrange(
                    tx_signers_off(data) + 33 * j,
                    tx_signers_off(data) + 33 * j + 33,
                ) == enc_signer(sigs[j])
            &&& data.subrange(tx_payload_off(data), tx_payload_off(data) + payload.len()) == payload
        }),
{
    let data = enc_transaction(h, accs, sigs, payload);
    lemma_flat_accounts_len(accs);
    lemma_flat_signers_len(sigs);
    assert(data.subrange(0, 32) =~= h.multisig@);
    assert(data.subrange(32, 64) =~= h.program_id@);
    assert(data.subrange(64, 72) =~= h.num_accounts@);
    assert(data.subrange(72, 80) =~= h.num_signers@);
    assert(data.subrange(80, 88) =~= h.data_len@);
    assert(data.subrange(89, 97) =~= h.seed@);
    assert forall|j: int| 0 <= j < accs.len() implies data.subrange(98 + 34 * j, 98 + 34 * j + 34)
        == enc_account(accs[j]) by {
        lemma_flat_accounts_slice(accs, j);
        assert(data.subrange(98 + 34 * j, 98 + 34 * j + 34) =~= flat_accounts(accs).subrange(
            34 * j,
            34 * j + 34,
        ));
    }
    let so = tx_signers_off(data);
    assert forall|j: int| 0 <= j < sigs.len() implies data.subrange(so + 33 * j, so + 33 * j + 33)
        == enc_signer(sigs[j]) by {
        lemma_flat_signers_slice(sigs, j);
        assert(data.subrange(so + 33 * j, so + 33 * j + 33) =~= flat_signers(sigs).subrange(
            33 * j,
            33 * j + 33,
        ));
    }
    assert(data.subrange(tx_payload_off(data), tx_payload_off(data) + payload.len()) =~= payload);
}

impl Transaction {
    /// Whether the decoded record is internally consistent: each section
    /// has exactly the length the header declares.
    pub open spec fn wf(self) -> bool {
        &&& self.accounts@.len() == le_u64(self.header.num_accounts@)
        &&& self.signers@.len() == le_u64(self.header.num_signers@)
        &&& self.data@.len() == le_u64(self.header.data_len@)
    }

    /// Decodes a proposal record from a raw buffer, checking every bound
    /// before it is used. A buffer too short for the header or for any
    /// declared section is rejected.
    pub fn parse(data: &[u8]) -> (r: Result<Transaction, MultisigError>)
        ensures
            r is Ok <==> tx_wf(data@),
            r matches Err(e) ==> e == MultisigError::StructuralError,
            r matches Ok(t) ==> {
                &&& t.wf()
                &&& t.header.multisig@ == data@.subrange(0, 32)
                &&& t.header.program_id@ == data@.subrange(32, 64)
                &&& t.header.num_accounts@ == data@.subrange(64, 72)
                &&& t.header.num_signers@ == data@.subrange(72, 80)
                &&& t.header.data_len@ == data@.subrange(80, 88)
                &&& t.header.executed == data@[88]
                &&& t.header.seed@ == data@.subrange(89, 97)
                &&& t.header.bump == data@[97]
                &&& t.accounts@.len() == tx_num_accounts(data@)
                &&& forall|j: int|
                    0 <= j < t.accounts@.len() ==> enc_account(t.accounts@[j]) == data@.subrange(
                        98 + 34 * j,
                        98 + 34 * j + 34,
                    )
                &&& t.signers@.len() == tx_num_signers(data@)
                &&& forall|j: int|
                    0 <= j < t.signers@.len() ==> enc_signer(t.signers@[j]) == data@.subrange(
                        tx_signers_off(data@) + 33 * j,
                        tx_signers_off(data@) + 33 * j + 33,
                    )
                &&& forall|j: int|
                    0 <= j < t.signers@.len() ==> t.signers@[j].pubkey@ == tx_signer_key(data@, j)
                        && t.signers@[j].signed == tx_signer_flag(data@, j)
                &&& t.data@.len() == tx_data_len(data@)
                &&& t.data@ == data@.subrange(
                    tx_payload_off(data@),
                    tx_payload_off(data@) + tx_data_len(data@),
                )
            },
    {
        let len = data.len();
        if len < 98 {
            return Err(MultisigError::StructuralError);
        }
        let multisig = copy32(data, 0);
        let program_id = copy32(data, 32);
        let num_accounts = copy8(data, 64);
        let num_signers = copy8(data, 72);
        let data_len = copy8(data, 80);
        let executed = data[88];
        let seed = copy8(data, 89);
        let bump = data[97];
        let na64 = u64_from_le(&num_accounts);
        if na64 > ((len - 98) / 34) as u64 {
            return Err(MultisigError::StructuralError);
        }
        let na = na64 as usize;
        let rem_a = len - 98 - 34 * na;
        let ns64 = u64_from_le(&num_signers);
        if ns64 > (rem_a / 33) as u64 {
            return Err(MultisigError::StructuralError);
        }
        let ns = ns64 as usize;
        let rem_s = rem_a - 33 * ns;
        let dl64 = u64_from_le(&data_len);
        if dl64 > rem_s as u64 {
            return Err(MultisigError::StructuralError);
        }
        let dl = dl64 as usize;

        let mut accounts: Vec<TransactionAccount> = Vec::new();
        let mut i: usize = 0;
        while i < na
            invariant
                i <= na,
                98 + 34 * na <= len,
                len == data@.len(),
                accounts@.len() == i,
                forall|j: int|
                    0 <= j < i ==> enc_account(accounts@[j]) == data@.subrange(
                        98 + 34 * j,
                        98 + 34 * j + 34,
                    ),
            decreases na - i,
        {
            let off = 98 + 34 * i;
            let a = TransactionAccount {
                pubkey: copy32(data, off),
                is_signer: data[off + 32],
                is_writable: data[off + 33],
            };
            proof {
                assert(enc_account(a) =~= data@.subrange(off as int, off + 34));
            }
            accounts.push(a);
            i = i + 1;
        }

        let so = 98 + 34 * na;
        let mut signers: Vec<TransactionSigner> = Vec::new();
        let mut i2: usize = 0;
        while i2 < ns
            invariant
                i2 <= ns,
                so == 98 + 34 * na,
                so + 33 * ns <= len,
                len == data@.len(),
                signers@.len() == i2,
                forall|j: int|
                    0 <= j < i2 ==> enc_signer(signers@[j]) == data@.subrange(
                        so + 33 * j,
                        so + 33 * j + 33,
                    ),
            decreases ns - i2,
        {
            let off = so + 33 * i2;
            let s = TransactionSigner { pubkey: copy32(data, off), signed: data[off + 32] };
            proof {
                assert(enc_signer(s) =~= data@.subrange(off as int, off + 33));
            }
            signers.push(s);
            i2 = i2 + 1;
        }

        let po = so + 33 * ns;
        let mut payload: Vec<u8> = Vec::new();
        let mut i3: usize = 0;
        while i3 < dl
            invariant
                i3 <= dl,
                po + dl <= len,
                len == data@.len(),
                payload@ =~= data@.subrange(po as int, po + i3),
            decreases dl - i3,
        {
            payload.push(data[po + i3]);
            i3 = i3 + 1;
        }

        proof {
            assert forall|j: int| 0 <= j < signers@.len() implies signers@[j].pubkey@
                == tx_signer_key(data@, j) && signers@[j].signed == tx_signer_flag(data@, j) by {
                let e = data@.subrange(so + 33 * j, so + 33 * j + 33);
                assert(enc_signer(signers@[j]) == e);
                assert(signers@[j].pubkey@ =~= e.subrange(0, 32));
                assert(tx_signer_key(data@, j) =~= e.subrange(0, 32));
                assert(signers@[j].signed == e[32]);
            }
        }
        let header = TransactionHeader {
            multisig,
            program_id,
            num_accounts,
            num_signers,
            data_len,
            executed,
            seed,
            bump,
        };
        Ok(Transaction { header, accounts, signers, data: payload })
    }

    /// Serializes a proposal record into the front of `data`: header first,
    /// then the operands, the roster and the payload contiguously in
    /// declared order. Bytes past the record are left untouched; a buffer
    /// too small is rejected whole.
    pub fn write(
        data: &mut Vec<u8>,
        header: &TransactionHeader,
        accounts: &[TransactionAccount],
        signers: &[TransactionSigner],
        tx_data: &[u8],
    ) -> (r: Result<(), MultisigError>)
        ensures
            r is Ok <==> tx_size(
                accounts@.len() as int,
                signers@.len() as int,
                tx_data@.len() as int,
            ) <= old(data)@.len(),
            r matches Err(e) ==> e == MultisigError::StructuralError && final(data)@ == old(
                data,
            )@,
            r is Ok ==> {
                let size = tx_size(
                    accounts@.len() as int,
                    signers@.len() as int,
                    tx_data@.len() as int,
                );
                &&& final(data)@.len() == old(data)@.len()
                &&& final(data)@.subrange(0, size) == enc_transaction(
                    *header,
                    accounts@,
                    signers@,
                    tx_data@,
                )
                &&& forall|k: int|
                    size <= k < old(data)@.len() ==> final(data)@[k] == old(data)@[k]
            },
    {
        let len = data.len();
        let na = accounts.len();
        let ns = signers.len();
        let dl = tx_data.len();
        if len < 98 || na > (len - 98) / 34 {
            proof {
                if len >= 98 && 98 + 34 * accounts@.len() + 33 * signers@.len() + tx_data@.len()
                    <= len {
                    assert(accounts@.len() <= (len - 98) / 34);
                }
            }
            return Err(MultisigError::StructuralError);
        }
        let rem_a = len - 98 - 34 * na;
        if ns > rem_a / 33 {
            proof {
                if 98 + 34 * accounts@.len() + 33 * signers@.len() + tx_data@.len() <= len {
                    assert(signers@.len() <= rem_a / 33);
                }
            }
            return Err(MultisigError::StructuralError);
        }
        let rem_s = rem_a - 33 * ns;
        if dl > rem_s {
            return Err(MultisigError::StructuralError);
        }
        let ghost orig: Seq<u8> = data@;
        let ghost size = tx_size(accounts@.len() as int, signers@.len() as int, tx_data@.len() as int);
        put32(data, 0, &header.multisig);
        put32(data, 32, &header.program_id);
        put8(data, 64, &header.num_accounts);
        put8(data, 72, &header.num_signers);
        put8(data, 80, &header.data_len);
        data.set(88, header.executed);
        put8(data, 89, &header.seed);
        data.set(97, header.bump);
        let mut i: usize = 0;
        while i < na
            invariant
                i <= na,
                98 + 34 * na + 33 * ns + dl <= len,
                len == data@.len(),
                na == accounts@.len(),
                ns == signers@.len(),
                dl == tx_data@.len(),
                size == tx_size(na as int, ns as int, dl as int),
                data@.subrange(0, 98) == enc_tx_header(*header),
                forall|j: int|
                    0 <= j < i ==> data@.subrange(98 + 34 * j, 98 + 34 * j + 34) == enc_account(
                        accounts@[j],
                    ),
                forall|k: int| size <= k < len ==> data@[k] == orig[k],
            decreases na - i,
        {
            let off = 98 + 34 * i;
            put32(data, off, &accounts[i].pubkey);
            data.set(off + 32, accounts[i].is_signer);
            data.set(off + 33, accounts[i].is_writable);
            proof {
                assert(data@.subrange(98 + 34 * i, 98 + 34 * i + 34) =~= enc_account(
                    accounts@[i as int],
                ));
                assert(data@.subrange(0, 98) =~= enc_tx_header(*header));
            }
            i = i + 1;
        }
        let so = 98 + 34 * na;
        let mut i2: usize = 0;
        while i2 < ns
            invariant
                i2 <= ns,
                so == 98 + 34 * na,
                98 + 34 * na + 33 * ns + dl <= len,
                len == data@.len(),
                na == accounts@.len(),
                ns == signers@.len(),
                dl == tx_data@.len(),
                size == tx_size(na as int, ns as int, dl as int),
                data@.subrange(0, 98) == enc_tx_header(*header),
                forall|j: int|
                    0 <= j < na ==> data@.subrange(98 + 34 * j, 98 + 34 * j + 34) == enc_account(
                        accounts@[j],
                    ),
                forall|j: int|
                    0 <= j < i2 ==> data@.subrange(so + 33 * j, so + 33 * j + 33) == enc_signer(
                        signers@[j],
                    ),
                forall|k: int| size <= k < len ==> data@[k] == orig[k],
            decreases ns - i2,
        {
            let off = so + 33 * i2;
            put32(data, off, &signers[i2].pubkey);
            data.set(off + 32, signers[i2].signed);
            proof {
                assert(data@.subrange(so + 33 * i2, so + 33 * i2 + 33) =~= enc_signer(
                    signers@[i2 as int],
                ));
                assert(data@.subrange(0, 98) =~= enc_tx_header(*header));
                assert forall|j: int| 0 <= j < na implies data@.subrange(
                    98 + 34 * j,
                    98 + 34 * j + 34,
                ) == enc_account(accounts@[j]) by {
                    assert(data@.subrange(98 + 34 * j, 98 + 34 * j + 34) =~= enc_account(
                        accounts@[j],
                    ));
                }
            }
            i2 = i2 + 1;
        }
        let po = so + 33 * ns;
        put_bytes(data, po, tx_data);
        proof {
            assert(data@.subrange(0, 98) =~= enc_tx_header(*header));
            assert forall|j: int| 0 <= j < na implies data@.subrange(98 + 34 * j, 98 + 34 * j + 34)
                == enc_account(accounts@[j]) by {
                assert(data@.subrange(98 + 34 * j, 98 + 34 * j + 34) =~= enc_account(accounts@[j]));
            }
            assert forall|j: int| 0 <= j < ns implies data@.subrange(so + 33 * j, so + 33 * j + 33)
                == enc_signer(signers@[j]) by {
                assert(data@.subrange(so + 33 * j, so + 33 * j + 33) =~= enc_signer(signers@[j]));
            }
            lemma_flat_accounts_len(accounts@);
            lemma_flat_signers_len(signers@);
            let s_a = data@.subrange(98, so as int);
            assert forall|j: int| 0 <= j < accounts@.len() implies s_a.subrange(
                34 * j,
                34 * j + 34,
            ) == enc_account(accounts@[j]) by {
                assert(s_a.subrange(34 * j, 34 * j + 34) =~= data@.subrange(
                    98 + 34 * j,
                    98 + 34 * j + 34,
                ));
            }
            lemma_flat_accounts_eq(accounts@, s_a);
            let s_s = data@.subrange(so as int, po as int);
            assert forall|j: int| 0 <= j < signers@.len() implies s_s.subrange(
                33 * j,
                33 * j + 33,
            ) == enc_signer(signers@[j]) by {
                assert(s_s.subrange(33 * j, 33 * j + 33) =~= data@.subrange(
                    so + 33 * j,
                    so + 33 * j + 33,
                ));
            }
            lemma_flat_signers_eq(signers@, s_s);
            assert(data@.subrange(0, size) =~= enc_transaction(
                *header,
                accounts@,
                signers@,
                tx_data@,
            ));
        }
        Ok(())
    }

    /// Total size in bytes of a proposal record with the given counts.
    pub fn size(num_accounts: u64, num_signers: u64, data_len: u64) -> (r: usize)
        requires
            98 + 34 * num_accounts + 33 * num_signers + data_len <= usize::MAX,
        ensures
            r == tx_size(num_accounts as int, num_signers as int, data_len as int),
    {
        98 + 34 * (num_accounts as usize) + 33 * (num_signers as usize) + (data_len as usize)
    }
}

} // verus!
