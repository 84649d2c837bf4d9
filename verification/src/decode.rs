//! Sample decoder: converts raw interleaved little-endian bytes of a declared
//! byte depth into exact sign-extended integer sample values.
//!
//! Two call shapes share one conversion rule: `decode_channels` splits the
//! buffer into one sequence per channel, and `read_data_interleaved_unchecked`
//! leaves the samples flat and interleaved.
//!
//! A two- or three-byte sample is sign-extended to 32 bits; a four-byte
//! sample is the 32-bit word itself. For IEEE-float data the same four-byte
//! word is the bit pattern of the sample, so the one four-byte rule serves
//! both; dividing by the format's fixed full-scale constant (or reinterpreting
//! the bits) is the caller's final, purely numeric step.

use vstd::prelude::*;
use crate::container::WavInfo;

verus! {

/// The sign-extended value of the `depth`-byte little-endian sample at `off`.
pub open spec fn sample_at(data: Seq<u8>, off: int, depth: int) -> int {
    if depth == 2 {
        let u = data[off] + 256 * data[off + 1];
        if u >= 0x8000 {
            u - 0x1_0000
        } else {
            u
        }
    } else if depth == 3 {
        let u = data[off] + 256 * data[off + 1] + 0x1_0000 * data[off + 2];
        if u >= 0x80_0000 {
            u - 0x100_0000
        } else {
            u
        }
    } else if depth == 4 {
        let u = data[off] + 256 * data[off + 1] + 0x1_0000 * data[off + 2] + 0x100_0000 * data[off
            + 3];
        if u >= 0x8000_0000 {
            u - 0x1_0000_0000
        } else {
            u
        }
    } else {
        0
    }
}

/// Decodes the one sample at `off`.
pub fn decode_sample(data: &[u8], off: usize, depth: usize) -> (s: i32)
    requires
        depth == 2 || depth == 3 || depth == 4,
        off + depth <= data@.len(),
    ensures
        s == sample_at(data@, off as int, depth as int),
{
    if depth == 2 {
        let u: u32 = data[off] as u32 + 256 * (data[off + 1] as u32);
        if u >= 0x8000 {
            (u as i32) - 0x1_0000
        } else {
            u as i32
        }
    } else if depth == 3 {
        let u: u32 = data[off] as u32 + 256 * (data[off + 1] as u32) + 0x1_0000 * (data[off
            + 2] as u32);
        if u >= 0x80_0000 {
            (u as i32) - 0x100_0000
        } else {
            u as i32
        }
    } else {
        let u: u32 = data[off] as u32 + 256 * (data[off + 1] as u32) + 0x1_0000 * (data[off
            + 2] as u32) + 0x100_0000 * (data[off + 3] as u32);
        if u >= 0x8000_0000 {
            ((u - 0x8000_0000) as i32) - 0x7FFF_FFFF - 1
        } else {
            u as i32
        }
    }
}

/// Decodes `data_len` flat interleaved samples from the front of `data`,
/// at the byte depth the format descriptor declares.
pub fn read_data_interleaved_unchecked(data: &[u8], file_info: &WavInfo, data_len: usize) -> (out:
    Vec<i32>)
    requires
        file_info.byte_depth == 2 || file_info.byte_depth == 3 || file_info.byte_depth == 4,
        data_len * file_info.byte_depth <= data@.len(),
    ensures
        out@.len() == data_len,
        forall|j: int|
            0 <= j < data_len ==> out@[j] == sample_at(
                data@,
                j * file_info.byte_depth,
                file_info.byte_depth as int,
            ),
{
    let depth = file_info.byte_depth as usize;
    let n = data.len();
    proof {
        assert(n == data@.len());
    }
    let mut out: Vec<i32> = Vec::new();
    let mut j: usize = 0;
    while j < data_len
        invariant
            j <= data_len,
            depth == file_info.byte_depth,
            depth == 2 || depth == 3 || depth == 4,
            data_len * depth <= data@.len(),
            data@.len() <= usize::MAX,
            out@.len() == j,
            forall|k: int|
                0 <= k < j ==> out@[k] == sample_at(data@, k * depth, depth as int),
        decreases data_len - j,
    {
        proof {
            assert((j as int) * depth + depth <= (data_len as int) * depth) by (nonlinear_arith)
                requires
                    j < data_len,
                    0 < depth,
            ;
        }
        out.push(decode_sample(data, j * depth, depth));
        j = j + 1;
    }
    out
}

/// Decodes `spc` frames of `channels` interleaved samples starting at `base`,
/// splitting them channel-major: the result holds, for each channel, that
/// channel's samples in frame order.
pub fn decode_channels(data: &[u8], base: usize, channels: usize, depth: usize, spc: usize) -> (out:
    Vec<Vec<i32>>)
    requires
        depth == 2 || depth == 3 || depth == 4,
        channels >= 1,
        base + spc * channels * depth <= data@.len(),
    ensures
        out@.len() == channels,
        forall|j: int| 0 <= j < channels ==> out@[j]@.len() == spc,
        forall|j: int, i: int|
            0 <= j < channels && 0 <= i < spc ==> out@[j]@[i] == sample_at(
                data@,
                base + i * depth * channels + j * depth,
                depth as int,
            ),
{
    let n = data.len();
    proof {
        assert(n == data@.len());
    }
    let mut out: Vec<Vec<i32>> = Vec::new();
    let mut j: usize = 0;
    while j < channels
        invariant
            j <= channels,
            depth == 2 || depth == 3 || depth == 4,
            channels >= 1,
            base + spc * channels * depth <= data@.len(),
            data@.len() <= usize::MAX,
            out@.len() == j,
            forall|jj: int| 0 <= jj < j ==> out@[jj]@.len() == spc,
            forall|jj: int, i: int|
                0 <= jj < j && 0 <= i < spc ==> out@[jj]@[i] == sample_at(
                    data@,
                    base + i * depth * channels + jj * depth,
                    depth as int,
                ),
        decreases channels - j,
    {
        let mut chan: Vec<i32> = Vec::new();
        let mut i: usize = 0;
        while i < spc
            invariant
                i <= spc,
                j < channels,
                depth == 2 || depth == 3 || depth == 4,
                channels >= 1,
                base + spc * channels * depth <= data@.len(),
                data@.len() <= usize::MAX,
                chan@.len() == i,
                forall|k: int|
                    0 <= k < i ==> chan@[k] == sample_at(
                        data@,
                        base + k * depth * channels + j * depth,
                        depth as int,
                    ),
            decreases spc - i,
        {
            proof {
                assert((i as int) * depth <= (spc as int) * channels * depth && (i as int) * depth
                    * channels + (j as int) * depth + depth <= (spc as int) * channels * depth)
                    by (nonlinear_arith)
                    requires
                        i < spc,
                        j < channels,
                        0 < depth,
                        0 < channels,
                ;
            }
            chan.push(decode_sample(data, base + i * depth * channels + j * depth, depth));
            i = i + 1;
        }
        out.push(chan);
        j = j + 1;
    }
    out
}

} // verus!
