//! An audio mixing engine: clips are decoded into stereo tracks, summed with
//! a gain per track, and written out as 16-bit PCM in a RIFF/WAVE container.
//! Clips in a RIFF/WAVE container and clips of MPEG audio are decoded here,
//! under the promise that every call returns. Clips in an Ogg container
//! are decoded by calls that the caller makes, whose outcomes the library
//! takes in.
//!
//! Amplitudes are fixed-point numbers throughout, so that every step has an
//! exact result. A decoded sample is an `i32` of 31 fractional bits, a gain
//! is a percentage, and a mixed sample is the exact sum of `sample * gain`
//! over the tracks. Only the encoder clamps and rounds.

pub mod combiner;
pub mod decode;
pub mod error;
pub mod file;
pub mod intake;
pub mod mix;
pub mod track;
pub mod wav;

pub use combiner::AudioCombiner;
pub use error::DecodeError;
pub use error::MixError;
pub use file::SingleAudioFile;
pub use file::SingleAudioFileType;
pub use track::DecodedTrack;
