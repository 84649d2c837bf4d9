//! Little-endian unsigned integer reads over byte buffers.
//!
//! The container format stores every multi-byte field little-endian; the
//! scanner reads them through `read_le_uint`, which treats bytes past the end
//! of the buffer as zero (a read that runs off the end contributes nothing,
//! and the scan stops at the first chunk header that does not fit).

use vstd::prelude::*;

verus! {

/// The byte at `pos`, taking positions outside the buffer as zero.
pub open spec fn byte_at(data: Seq<u8>, pos: int) -> u8 {
    if 0 <= pos < data.len() {
        data[pos]
    } else {
        0
    }
}

/// The unsigned value of the `n` bytes at `pos..pos+n`, little-endian,
/// with bytes outside the buffer taken as zero.
pub open spec fn le_bytes_at(data: Seq<u8>, pos: int, n: nat) -> nat
    decreases n,
{
    if n == 0 {
        0
    } else {
        (byte_at(data, pos) as nat) + 256 * le_bytes_at(data, pos + 1, (n - 1) as nat)
    }
}

/// 256 to the power `n`: the number of values of an `n`-byte field.
pub open spec fn pow256(n: nat) -> nat
    decreases n,
{
    if n == 0 {
        1
    } else {
        256 * pow256((n - 1) as nat)
    }
}

/// An `n`-byte little-endian value is below `pow256(n)`.
pub proof fn lemma_le_bytes_at_bound(data: Seq<u8>, pos: int, n: nat)
    ensures
        le_bytes_at(data, pos, n) < pow256(n),
    decreases n,
{
    if n > 0 {
        lemma_le_bytes_at_bound(data, pos + 1, (n - 1) as nat);
    }
}

/// A one-byte field reads as the byte itself.
pub proof fn lemma_le_bytes_at_one(data: Seq<u8>, pos: int)
    ensures
        le_bytes_at(data, pos, 1) == byte_at(data, pos),
{
    reveal_with_fuel(le_bytes_at, 2);
}

/// The values of `pow256` for field widths up to four bytes.
pub proof fn lemma_pow256_values()
    ensures
        pow256(0) == 1,
        pow256(1) == 0x100,
        pow256(2) == 0x1_0000,
        pow256(3) == 0x100_0000,
        pow256(4) == 0x1_0000_0000,
{
    assert(pow256(0) == 1);
    assert(pow256(1) == 256 * pow256(0));
    assert(pow256(2) == 256 * pow256(1));
    assert(pow256(3) == 256 * pow256(2));
    assert(pow256(4) == 256 * pow256(3));
}

/// The little-endian value of the first `bytes` bytes of `buf`.
pub fn buf_to_int(buf: &[u8], bytes: usize) -> (out: u32)
    requires
        bytes <= buf@.len(),
        bytes <= 4,
    ensures
        out == le_bytes_at(buf@, 0, bytes as nat),
{
    let mut out: u32 = 0;
    let mut k: usize = 0;
    while k < bytes
        invariant
            k <= bytes,
            bytes <= buf@.len(),
            bytes <= 4,
            out == le_bytes_at(buf@, bytes - k, k as nat),
        decreases bytes - k,
    {
        proof {
            lemma_le_bytes_at_bound(buf@, bytes - k, k as nat);
            lemma_pow256_values();
        }
        out = out * 256 + (buf[bytes - 1 - k] as u32);
        k = k + 1;
    }
    out
}

/// The little-endian value of the `nbytes` bytes of `data` at `pos`, taking
/// bytes past the end of `data` as zero. A width above four bytes reads as
/// zero, mirroring the scanner's refusal of wider integer fields.
pub fn read_le_uint(data: &[u8], pos: usize, nbytes: usize) -> (out: u32)
    ensures
        nbytes <= 4 ==> out == le_bytes_at(data@, pos as int, nbytes as nat),
        nbytes > 4 ==> out == 0,
{
    if nbytes > 4 {
        return 0;
    }
    let mut out: u32 = 0;
    let mut k: usize = 0;
    while k < nbytes
        invariant
            k <= nbytes,
            nbytes <= 4,
            out == le_bytes_at(data@, pos + nbytes - k, k as nat),
        decreases nbytes - k,
    {
        proof {
            lemma_le_bytes_at_bound(data@, pos + nbytes - k, k as nat);
            lemma_pow256_values();
        }
        let off: usize = nbytes - k;
        let b: u8 = if pos < data.len() && off - 1 < data.len() - pos {
            data[pos + off - 1]
        } else {
            0
        };
        out = out * 256 + (b as u32);
        k = k + 1;
    }
    out
}

} // verus!
