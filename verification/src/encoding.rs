//! Byte-level primitives shared by the record codecs: the little-endian
//! reading of 64-bit counters, fixed-size copies out of a raw buffer, and
//! byte-exact key comparison.
use vstd::prelude::*;

use crate::Pubkey;

verus! {

/// The value of an 8-byte little-endian unsigned integer.
pub open spec fn le_u64(b: Seq<u8>) -> int
    recommends
        b.len() == 8,
{
    b[0] + 256 * (b[1] + 256 * (b[2] + 256 * (b[3] + 256 * (b[4] + 256 * (b[5] + 256 * (b[6]
        + 256 * b[7]))))))
}

/// Reads an 8-byte little-endian unsigned integer.
pub fn u64_from_le(b: &[u8; 8]) -> (r: u64)
    ensures
        r == le_u64(b@),
{
    let mut r: u64 = b[7] as u64;
    r = r * 256 + b[6] as u64;
    r = r * 256 + b[5] as u64;
    r = r * 256 + b[4] as u64;
    r = r * 256 + b[3] as u64;
    r = r * 256 + b[2] as u64;
    r = r * 256 + b[1] as u64;
    r = r * 256 + b[0] as u64;
    r
}

/// Copies 8 bytes out of `data` starting at `off`.
pub fn copy8(data: &[u8], off: usize) -> (r: [u8; 8])
    requires
        off + 8 <= data@.len(),
    ensures
        r@ == data@.subrange(off as int, off + 8),
{
    let mut r: [u8; 8] = [0; 8];
    let len: usize = data.len();
    let mut i: usize = 0;
    while i < 8
        invariant
            i <= 8,
            off + 8 <= len,
            len == data@.len(),
            forall|j: int| 0 <= j < i ==> r@[j] == data@[off + j],
        decreases 8 - i,
    {
        r[i] = data[off + i];
        i = i + 1;
    }
    assert(r@ =~= data@.subrange(off as int, off + 8));
    r
}

/// Copies 32 bytes out of `data` starting at `off`.
pub fn copy32(data: &[u8], off: usize) -> (r: [u8; 32])
    requires
        off + 32 <= data@.len(),
    ensures
        r@ == data@.subrange(off as int, off + 32),
{
    let mut r: [u8; 32] = [0; 32];
    let len: usize = data.len();
    let mut i: usize = 0;
    while i < 32
        invariant
            i <= 32,
            off + 32 <= len,
            len == data@.len(),
            forall|j: int| 0 <= j < i ==> r@[j] == data@[off + j],
        decreases 32 - i,
    {
        r[i] = data[off + i];
        i = i + 1;
    }
    assert(r@ =~= data@.subrange(off as int, off + 32));
    r
}

/// Whether two identity keys hold the same bytes.
pub fn key_eq(a: &Pubkey, b: &Pubkey) -> (r: bool)
    ensures
        r == (a@ == b@),
{
    let mut i: usize = 0;
    while i < 32
        invariant
            i <= 32,
            forall|j: int| 0 <= j < i ==> a@[j] == b@[j],
        decreases 32 - i,
    {
        if a[i] != b[i] {
            return false;
        }
        i = i + 1;
    }
    assert(a@ =~= b@);
    true
}

/// Copies the first `n` bytes of `data` into a fresh buffer.
pub fn bytes_prefix(data: &[u8], n: usize) -> (r: Vec<u8>)
    requires
        n <= data@.len(),
    ensures
        r@ == data@.subrange(0, n as int),
{
    let mut r: Vec<u8> = Vec::new();
    let mut i: usize = 0;
    while i < n
        invariant
            i <= n,
            n <= data@.len(),
            r@ =~= data@.subrange(0, i as int),
        decreases n - i,
    {
        r.push(data[i]);
        i = i + 1;
    }
    r
}

/// Overwrites 8 bytes of `data` starting at `off`.
pub fn put8(data: &mut Vec<u8>, off: usize, src: &[u8; 8])
    requires
        off + 8 <= old(data)@.len(),
    ensures
        final(data)@.len() == old(data)@.len(),
        final(data)@.subrange(off as int, off + 8) == src@,
        forall|k: int|
            0 <= k < old(data)@.len() && !(off <= k < off + 8) ==> final(data)@[k] == old(
                data,
            )@[k],
{
    let dlen = data.len();
    let mut i: usize = 0;
    while i < 8
        invariant
            i <= 8,
            dlen == data@.len(),
            off + 8 <= dlen,
            data@.len() == old(data)@.len(),
            forall|j: int| 0 <= j < i ==> data@[off + j] == src@[j],
            forall|k: int|
                0 <= k < old(data)@.len() && !(off <= k < off + 8) ==> data@[k] == old(data)@[k],
        decreases 8 - i,
    {
        data.set(off + i, src[i]);
        i = i + 1;
    }
    assert(data@.subrange(off as int, off + 8) =~= src@);
}

/// Overwrites 32 bytes of `data` starting at `off`.
pub fn put32(data: &mut Vec<u8>, off: usize, src: &[u8; 32])
    requires
        off + 32 <= old(data)@.len(),
    ensures
        final(data)@.len() == old(data)@.len(),
        final(data)@.subrange(off as int, off + 32) == src@,
        forall|k: int|
            0 <= k < old(data)@.len() && !(off <= k < off + 32) ==> final(data)@[k] == old(
                data,
            )@[k],
{
    let dlen = data.len();
    let mut i: usize = 0;
    while i < 32
        invariant
            i <= 32,
            dlen == data@.len(),
            off + 32 <= dlen,
            data@.len() == old(data)@.len(),
            forall|j: int| 0 <= j < i ==> data@[off + j] == src@[j],
            forall|k: int|
                0 <= k < old(data)@.len() && !(off <= k < off + 32) ==> data@[k] == old(data)@[k],
        decreases 32 - i,
    {
        data.set(off + i, src[i]);
        i = i + 1;
    }
    assert(data@.subrange(off as int, off + 32) =~= src@);
}

/// Overwrites `src.len()` bytes of `data` starting at `off`.
pub fn put_bytes(data: &mut Vec<u8>, off: usize, src: &[u8])
    requires
        off + src@.len() <= old(data)@.len(),
    ensures
        final(data)@.len() == old(data)@.len(),
        final(data)@.subrange(off as int, off + src@.len()) == src@,
        forall|k: int|
            0 <= k < old(data)@.len() && !(off <= k < off + src@.len()) ==> final(data)@[k] == old(
                data,
            )@[k],
{
    let dlen = data.len();
    let n = src.len();
    let mut i: usize = 0;
    while i < n
        invariant
            i <= n,
            dlen == data@.len(),
            n == src@.len(),
            off + n <= dlen,
            data@.len() == old(data)@.len(),
            forall|j: int| 0 <= j < i ==> data@[off + j] == src@[j],
            forall|k: int|
                0 <= k < old(data)@.len() && !(off <= k < off + n) ==> data@[k] == old(data)@[k],
        decreases n - i,
    {
        data.set(off + i, src[i]);
        i = i + 1;
    }
    assert(data@.subrange(off as int, off + src@.len()) =~= src@);
}

} // verus!
