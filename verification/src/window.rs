//! Windowed reader: extracts a bounded range of audio from the data chunk of
//! a scanned container as per-channel integer sample sequences, clamping the
//! request at the end of the chunk.
//!
//! The caller supplies the byte offset into the data chunk where the window
//! starts and the number of frames it wants per channel; the reader never
//! reads past the declared chunk boundary, and the one unsupported-format
//! path reports failure rather than failing fatally, since the container is
//! caller-supplied.

use vstd::prelude::*;
use crate::container::{DATA_CHUNK_ID, WavInfo, find_chunk};
use crate::decode::{decode_channels, sample_at};

verus! {

/// The format/bit-depth combinations the windowed reader decodes: PCM at
/// 16, 24 or 32 bits, and 32-bit IEEE float (whose raw sample is the same
/// four-byte word, reported as its bit pattern).
pub open spec fn supported_format(sample_type: u8, bit_depth: u32) -> bool {
    ||| (sample_type == 1 && (bit_depth == 16 || bit_depth == 24 || bit_depth == 32))
    ||| (sample_type == 3 && bit_depth == 32)
}

/// The per-channel sample count after clamping at the end of the data chunk:
/// the requested count, unless the requested run would pass the chunk's end,
/// in which case the count the remaining bytes hold.
pub open spec fn clamped_samples_per_channel(
    data_size: int,
    start_offset: int,
    requested: int,
    channels: int,
    size: int,
) -> int {
    if start_offset + requested * channels * size > data_size {
        ((data_size - start_offset) / channels) / size
    } else {
        requested
    }
}

/// Reads a window of `samples_per_channel` frames from the data chunk of
/// `file`, starting `start_offset` bytes into the chunk, and decodes it into
/// one sequence per channel. Returns `None` exactly on the format/bit-depth
/// combinations the decoder does not cover.
pub fn read_data(
    file: &[u8],
    file_info: &WavInfo,
    start_offset: u64,
    samples_per_channel: usize,
) -> (r: Option<Vec<Vec<i32>>>)
    requires
        file_info.wf(),
        file_info.data_chunk().pos + file_info.data_chunk().size <= file@.len(),
        start_offset <= file_info.data_chunk().size,
        file_info.channels >= 1,
        samples_per_channel * file_info.channels * (file_info.bit_depth / 8) <= usize::MAX,
    ensures
        r is Some <==> supported_format(file_info.sample_type, file_info.bit_depth),
        match r {
            Some(out) => {
                let size = file_info.bit_depth as int / 8;
                let ch = file_info.channels as int;
                let dc = file_info.data_chunk();
                let spc = clamped_samples_per_channel(
                    dc.size as int,
                    start_offset as int,
                    samples_per_channel as int,
                    ch,
                    size,
                );
                &&& out@.len() == ch
                &&& forall|j: int| 0 <= j < ch ==> out@[j]@.len() == spc
                &&& forall|j: int, i: int|
                    0 <= j < ch && 0 <= i < spc ==> out@[j]@[i] == sample_at(
                        file@,
                        dc.pos + start_offset + i * size * ch + j * size,
                        size,
                    )
            },
            None => true,
        },
{
    let st = file_info.sample_type;
    let bd = file_info.bit_depth;
    let ok = (st == 1 && (bd == 16 || bd == 24 || bd == 32)) || (st == 3 && bd == 32);
    if !ok {
        return None;
    }
    let size = file_info.byte_depth as usize;
    let channels = file_info.channels as usize;
    let (dpos, dsize) = match find_chunk(&file_info.chunks, DATA_CHUNK_ID) {
        Some(p) => p,
        None => vstd::pervasive::unreached(),
    };
    let n = file.len();
    proof {
        assert(n == file@.len());
    }

    let avail: u64 = dsize as u64 - start_offset;
    proof {
        assert((samples_per_channel as int) * channels <= (samples_per_channel as int) * channels
            * size) by (nonlinear_arith)
            requires
                0 <= samples_per_channel,
                0 <= channels,
                0 < size,
        ;
    }
    let total_bytes: usize = samples_per_channel * channels * size;
    let spc: usize = if (total_bytes as u64) > avail {
        let a = avail as usize;
        let q = (a / channels) / size;
        proof {
            vstd::arithmetic::div_mod::lemma_fundamental_div_mod(a as int, channels as int);
            vstd::arithmetic::div_mod::lemma_mod_bound(a as int, channels as int);
            vstd::arithmetic::div_mod::lemma_fundamental_div_mod(
                (a as int) / (channels as int),
                size as int,
            );
            vstd::arithmetic::div_mod::lemma_mod_bound((a as int) / (channels as int), size as int);
            assert((q as int) * channels * size <= a as int) by (nonlinear_arith)
                requires
                    (size as int) * (q as int) <= (a as int) / (channels as int),
                    (channels as int) * ((a as int) / (channels as int)) <= a as int,
                    0 <= q,
                    0 < channels,
                    0 < size,
            ;
        }
        q
    } else {
        samples_per_channel
    };

    let base: usize = (dpos + start_offset) as usize;
    Some(decode_channels(file, base, channels, size, spc))
}

} // verus!
