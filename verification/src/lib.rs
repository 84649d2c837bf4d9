//! Audio ingestion core: a tagged-container (RIFF/WAVE-style) scanner, a
//! multi-bit-depth sample decoder, a windowed reader that extracts a bounded
//! time range from the data chunk, and a fixed-capacity circular sample cache
//! for live capture, with a small controller around the cache.
//!
//! Decoded samples are reported as exact sign-extended little-endian integers;
//! normalisation to floating point is left to the caller, since the scale
//! factor is a fixed constant of the sample format.

use vstd::prelude::*;

pub mod bytes;
pub mod container;
pub mod decode;
pub mod window;
pub mod cache;
pub mod rta;

verus! {

/// The closed set of failure kinds of this crate.
///
/// `UnknownFormatCode`, `UnsupportedBitDepth`, `MissingDataChunk` and
/// `HeaderOverflow` come from the container scanner; `OversizedChunk` from the
/// circular sample cache, when a single chunk is larger than the whole cache.
#[derive(Clone, Copy, Debug, PartialEq, Eq, Structural)]
pub enum AudioError {
    UnknownFormatCode,
    UnsupportedBitDepth,
    MissingDataChunk,
    HeaderOverflow,
    OversizedChunk,
}

} // verus!
