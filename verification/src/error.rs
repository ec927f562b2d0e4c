//! Error values returned by the pipeline.

use vstd::prelude::*;

verus! {

/// Why a clip could not be turned into a track. Any of these aborts the
/// construction of a combiner as a whole.
#[derive(Clone, Copy, Debug, PartialEq, Eq, Structural)]
pub enum DecodeError {
    /// The clip was refused at the intake, or no demuxer recognised its
    /// bytes.
    UnsupportedContainer,
    /// The container holds no stream that a decoder is available for.
    NoAudioTrack,
    /// A packet of the stream could not be decoded.
    DecodeError,
    /// The decoded stream holds more samples than the output container can
    /// address with its 32-bit size fields.
    TooLong,
}

/// Why a mix request was rejected.
#[derive(Clone, Copy, Debug, PartialEq, Eq, Structural)]
pub enum MixError {
    /// The gain list is shorter than the track list; `index` is the first
    /// track without a gain.
    MissingVolume { index: usize },
}

} // verus!
