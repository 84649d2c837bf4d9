//! Container scanner: reads the tagged-chunk envelope of a RIFF/WAVE-style
//! byte buffer into a format descriptor (`WavInfo`) and a chunk index.
//!
//! The scanner works on an in-memory byte buffer; the caller is responsible
//! for loading the file. Multi-byte fields are little-endian; bytes past the
//! end of the buffer read as zero, and the chunk scan stops as soon as a
//! chunk header no longer fits in the buffer or the declared envelope size is
//! reached.

use vstd::prelude::*;
use crate::AudioError;
use crate::bytes::{byte_at, le_bytes_at, lemma_le_bytes_at_bound, lemma_le_bytes_at_one,
    lemma_pow256_values, read_le_uint};

verus! {

/// The identifier of the raw-sample chunk, the four bytes `data` read as a
/// little-endian word.
pub const DATA_CHUNK_ID: u32 = 0x6174_6164;

/// One entry of the chunk index: a chunk identifier (its four bytes as a
/// little-endian word), the absolute offset of the chunk body, and the body
/// length in bytes.
#[derive(Clone, Copy, Debug, PartialEq, Eq, Structural)]
pub struct ChunkEntry {
    pub id: u32,
    pub pos: u64,
    pub size: u32,
}

/// The entry for `id`, when one exists; the last occurrence wins, since
/// malformed files may repeat an identifier.
pub open spec fn find_chunk_spec(chunks: Seq<ChunkEntry>, id: u32) -> Option<ChunkEntry>
    decreases chunks.len(),
{
    if chunks.len() == 0 {
        None
    } else if chunks.last().id == id {
        Some(chunks.last())
    } else {
        find_chunk_spec(chunks.drop_last(), id)
    }
}

/// Looks `id` up in the chunk index; the last occurrence wins.
pub fn find_chunk(chunks: &Vec<ChunkEntry>, id: u32) -> (r: Option<(u64, u32)>)
    ensures
        match find_chunk_spec(chunks@, id) {
            Some(e) => r == Some((e.pos, e.size)),
            None => r is None,
        },
{
    let mut i: usize = chunks.len();
    proof {
        assert(chunks@.take(i as int) =~= chunks@);
    }
    while i > 0
        invariant
            i <= chunks@.len(),
            find_chunk_spec(chunks@, id) == find_chunk_spec(chunks@.take(i as int), id),
        decreases i,
    {
        i = i - 1;
        proof {
            assert(chunks@.take(i + 1).last() == chunks@[i as int]);
            assert(chunks@.take(i + 1).drop_last() =~= chunks@.take(i as int));
        }
        let e = chunks[i];
        if e.id == id {
            return Some((e.pos, e.size));
        }
    }
    None
}

/// The chunk entries that a scan of `data` finds, starting at `pos` and
/// stopping once `bound` (the declared envelope size) is reached or a chunk
/// header no longer fits in the buffer.
pub open spec fn scan_chunks(data: Seq<u8>, bound: int, pos: int) -> Seq<ChunkEntry>
    decreases bound - pos,
{
    if pos >= bound || pos + 8 > data.len() {
        Seq::empty()
    } else {
        let id = le_bytes_at(data, pos, 4) as u32;
        let size = le_bytes_at(data, pos + 4, 4) as u32;
        let next = pos + 8 + size;
        let entry = ChunkEntry { id, pos: (pos + 8) as u64, size };
        seq![entry] + scan_chunks(data, bound, if next > bound { bound } else { next })
    }
}

/// The format descriptor of a container. The byte depth, data rate and
/// per-frame block size are always derived from the bit depth, channel count
/// and sample rate, never settable on their own.
#[derive(Clone, Debug)]
pub struct WavInfo {
    pub sample_type: u8,
    pub channels: u8,
    pub sample_rate: u32,
    pub data_rate: u32,
    pub data_block_size: u32,
    pub bit_depth: u32,
    pub byte_depth: u32,
    pub chunks: Vec<ChunkEntry>,
    pub file_size: u32,
}

impl WavInfo {
    /// The derived fields agree with the fields they derive from, and the
    /// chunk index holds a `data` entry.
    pub open spec fn wf(self) -> bool {
        &&& self.byte_depth == self.bit_depth / 8
        &&& self.data_rate == self.sample_rate * self.byte_depth * self.channels
        &&& self.data_block_size == self.byte_depth * self.channels
        &&& find_chunk_spec(self.chunks@, DATA_CHUNK_ID) is Some
    }

    /// The `data` chunk's (offset, length), meaningful when `self.wf()`.
    pub open spec fn data_chunk(self) -> ChunkEntry {
        find_chunk_spec(self.chunks@, DATA_CHUNK_ID).unwrap()
    }

    pub fn new(
        sample_type: u8,
        channels: u8,
        sample_rate: u32,
        bit_depth: u32,
        file_size: u32,
        chunks: Vec<ChunkEntry>,
    ) -> (r: Self)
        requires
            find_chunk_spec(chunks@, DATA_CHUNK_ID) is Some,
            sample_rate * (bit_depth / 8) * channels <= u32::MAX,
            (bit_depth / 8) * channels <= u32::MAX,
        ensures
            r.wf(),
            r.sample_type == sample_type,
            r.channels == channels,
            r.sample_rate == sample_rate,
            r.bit_depth == bit_depth,
            r.byte_depth == bit_depth / 8,
            r.data_rate == sample_rate * (bit_depth / 8) * channels,
            r.data_block_size == (bit_depth / 8) * channels,
            r.file_size == file_size,
            r.chunks == chunks,
    {
        let byte_depth = bit_depth / 8;
        let block = byte_depth * (channels as u32);
        proof {
            assert(sample_rate * (byte_depth * channels) == sample_rate * byte_depth * channels)
                by (nonlinear_arith);
        }
        WavInfo {
            sample_type,
            channels,
            sample_rate,
            data_rate: sample_rate * block,
            data_block_size: block,
            bit_depth,
            byte_depth,
            chunks,
            file_size,
        }
    }
}

/// A PCM bit depth of eight or fewer uses an offset-binary encoding this
/// system does not decode; such a header is rejected outright.
pub open spec fn header_rejected_bit_depth(data: Seq<u8>) -> bool {
    byte_at(data, 20) == 1 && le_bytes_at(data, 34, 2) <= 8
}

/// The declared format code is one the scanner knows: PCM, IEEE float,
/// A-law, u-law or extensible.
pub open spec fn header_code_known(data: Seq<u8>) -> bool {
    let f = byte_at(data, 20);
    f == 1 || f == 3 || f == 6 || f == 7 || f == 254
}

/// The effective format code: a non-PCM header with a nonzero extension
/// stores the true subtype late, at offset 44.
pub open spec fn true_format_code(data: Seq<u8>) -> u8 {
    let f = byte_at(data, 20);
    if (f == 3 || f == 6 || f == 7 || f == 254) && byte_at(data, 36) != 0 {
        byte_at(data, 44)
    } else {
        f
    }
}

/// The chunk index a scan of the whole envelope yields.
pub open spec fn scanned_chunks(data: Seq<u8>) -> Seq<ChunkEntry> {
    scan_chunks(data, le_bytes_at(data, 4, 4) as int, 12)
}

/// All of the scanner's checks pass: the bit depth is decodable, the format
/// code is known, a `data` chunk exists, and the derived data rate fits.
pub open spec fn header_ok(data: Seq<u8>) -> bool {
    &&& !header_rejected_bit_depth(data)
    &&& header_code_known(data)
    &&& find_chunk_spec(scanned_chunks(data), DATA_CHUNK_ID) is Some
    &&& le_bytes_at(data, 24, 4) * (le_bytes_at(data, 34, 2) / 8) * byte_at(data, 22)
        <= u32::MAX
}

/// Scans a container held in `data`: envelope size, format sub-chunk fields
/// (with the extensible-format re-read of the true format code), then every
/// chunk header until the declared envelope size is reached.
pub fn read_wav_meta(data: &[u8]) -> (r: Result<WavInfo, AudioError>)
    ensures
        r is Ok <==> header_ok(data@),
        match r {
            Ok(info) => {
                &&& info.wf()
                &&& info.sample_type == true_format_code(data@)
                &&& info.channels == byte_at(data@, 22)
                &&& info.sample_rate == le_bytes_at(data@, 24, 4)
                &&& info.bit_depth == le_bytes_at(data@, 34, 2)
                &&& info.file_size == le_bytes_at(data@, 4, 4)
                &&& info.chunks@ == scanned_chunks(data@)
            },
            Err(e) => {
                if header_rejected_bit_depth(data@) {
                    e == AudioError::UnsupportedBitDepth
                } else if !header_code_known(data@) {
                    e == AudioError::UnknownFormatCode
                } else if find_chunk_spec(scanned_chunks(data@), DATA_CHUNK_ID) is None {
                    e == AudioError::MissingDataChunk
                } else {
                    e == AudioError::HeaderOverflow
                }
            },
        },
{
    proof {
        lemma_le_bytes_at_one(data@, 20);
        lemma_le_bytes_at_one(data@, 22);
        lemma_le_bytes_at_one(data@, 36);
        lemma_le_bytes_at_one(data@, 44);
        lemma_le_bytes_at_bound(data@, 20, 1);
        lemma_le_bytes_at_bound(data@, 22, 1);
        lemma_le_bytes_at_bound(data@, 36, 1);
        lemma_le_bytes_at_bound(data@, 44, 1);
        lemma_le_bytes_at_bound(data@, 34, 2);
        lemma_pow256_values();
    }
    let file_size = read_le_uint(data, 4, 4);
    let mut fmt_code: u8 = read_le_uint(data, 20, 1) as u8;
    let channels: u8 = read_le_uint(data, 22, 1) as u8;
    let sample_rate = read_le_uint(data, 24, 4);
    let bit_depth = read_le_uint(data, 34, 2);

    if fmt_code == 1 && bit_depth <= 8 {
        return Err(AudioError::UnsupportedBitDepth);
    }
    if fmt_code == 3 || fmt_code == 6 || fmt_code == 7 || fmt_code == 254 {
        // Non-PCM headers carry an extension-size field; a nonzero extension
        // stores the true format code late.
        let ext_size: u8 = read_le_uint(data, 36, 1) as u8;
        if ext_size > 0 {
            fmt_code = read_le_uint(data, 44, 1) as u8;
        }
    } else if fmt_code != 1 {
        return Err(AudioError::UnknownFormatCode);
    }

    let ghost bound: int = file_size as int;
    let mut chunks: Vec<ChunkEntry> = Vec::new();
    let mut pos: u64 = 12;
    while pos < file_size as u64 && pos + 8 <= data.len() as u64
        invariant
            pos >= 12,
            bound == file_size as int,
            scan_chunks(data@, bound, 12) == chunks@ + scan_chunks(
                data@,
                bound,
                if pos as int > bound { bound } else { pos as int },
            ),
        decreases
            (if pos as int > bound { 0int } else { bound - pos as int }),
    {
        let id = read_le_uint(data, pos as usize, 4);
        let size = read_le_uint(data, (pos + 4) as usize, 4);
        let entry = ChunkEntry { id, pos: pos + 8, size };
        proof {
            lemma_le_bytes_at_fits(data@, pos as int);
            let next = pos as int + 8 + size as int;
            assert(scan_chunks(data@, bound, pos as int) == seq![entry] + scan_chunks(
                data@,
                bound,
                if next > bound { bound } else { next },
            ));
            assert(chunks@.push(entry) =~= chunks@ + seq![entry]);
            assert((chunks@ + seq![entry]) + scan_chunks(
                data@,
                bound,
                if next > bound { bound } else { next },
            ) =~= chunks@ + (seq![entry] + scan_chunks(
                data@,
                bound,
                if next > bound { bound } else { next },
            )));
        }
        chunks.push(entry);
        pos = pos + 8 + size as u64;
    }
    proof {
        assert(scan_chunks(
            data@,
            bound,
            if pos as int > bound { bound } else { pos as int },
        ) =~= Seq::<ChunkEntry>::empty());
        assert(chunks@ + Seq::<ChunkEntry>::empty() =~= chunks@);
    }

    if find_chunk(&chunks, DATA_CHUNK_ID).is_none() {
        return Err(AudioError::MissingDataChunk);
    }
    let byte_depth = bit_depth / 8;
    proof {
        vstd::arithmetic::mul::lemma_mul_upper_bound(
            sample_rate as int, 0xFFFF_FFFF, byte_depth as int, 0x2000);
        vstd::arithmetic::mul::lemma_mul_upper_bound(
            sample_rate as int * byte_depth as int, 0xFFFF_FFFFint * 0x2000,
            channels as int, 0xFF);
        vstd::arithmetic::mul::lemma_mul_upper_bound(
            byte_depth as int, 0x2000, channels as int, 0xFF);
    }
    if (sample_rate as u64) * (byte_depth as u64) * (channels as u64) > 0xFFFF_FFFFu64 {
        return Err(AudioError::HeaderOverflow);
    }
    Ok(WavInfo::new(fmt_code, channels, sample_rate, bit_depth, file_size, chunks))
}

/// Both four-byte fields of a chunk header fit in a `u32`.
proof fn lemma_le_bytes_at_fits(data: Seq<u8>, pos: int)
    ensures
        le_bytes_at(data, pos, 4) < 0x1_0000_0000,
        le_bytes_at(data, pos + 4, 4) < 0x1_0000_0000,
{
    lemma_le_bytes_at_bound(data, pos, 4);
    lemma_le_bytes_at_bound(data, pos + 4, 4);
    lemma_pow256_values();
}

} // verus!
