//! The decoder adapter: turns the bytes of a clip into a stereo track.
//!
//! Demuxing and decoding are symphonia's. What is decided here is the
//! order of the calls, which failure is reported as which error, and how
//! the decoded packets become a track: [`advance`] says the last two for
//! every outcome of a request.

use crate::error::DecodeError;
use crate::file::extension_of;
use crate::file::SingleAudioFile;
use crate::intake::admitted;
use crate::intake::is_passed;
use crate::intake::leading_tag_len;
use crate::intake::passes;
use crate::intake::payload;
use crate::track::is_track;
use crate::track::stereo_of;
use crate::track::DecodedTrack;
use crate::track::MAX_TRACK_SAMPLES;
use vstd::prelude::*;

verus! {

// The types of symphonia that pass through this module. Nothing of their
// contents is known here: values are made by one call and handed to the
// next.

/// symphonia's probe result, which owns the format reader.
#[verifier::external_type_specification]
#[verifier::external_body]
pub struct ExProbeResult(symphonia::core::probe::ProbeResult);

/// symphonia's codec parameters of a track.
#[verifier::external_type_specification]
#[verifier::external_body]
pub struct ExCodecParameters(symphonia::core::codecs::CodecParameters);

/// symphonia's packet of encoded data.
#[verifier::external_type_specification]
#[verifier::external_body]
pub struct ExPacket(symphonia::core::formats::Packet);

/// symphonia's error.
#[verifier::external_type_specification]
#[verifier::external_body]
pub struct ExError(symphonia::core::errors::Error);

/// A decoder made by symphonia's codec registry. The registry hands it out
/// as a trait object, which is kept here unseen.
#[verifier::external_body]
struct PacketDecoder {
    inner: Box<dyn symphonia::core::codecs::Decoder>,
}

/// What decoding one packet gave: the samples of all channels interleaved,
/// as 32-bit fixed-point fractions, with the channel count and the sample
/// rate that the decoder reported for them. The rate is not acted upon:
/// clips are taken to be at the working rate.
#[derive(Debug)]
pub struct DecodedPacket {
    pub samples: Vec<i32>,
    pub channels: usize,
    pub rate: u32,
}

/// What one request to the reader and the decoder gave.
#[derive(Debug)]
pub enum Fetched {
    /// The reader gave no packet: the stream is over.
    End,
    /// The reader gave no packet, and not because the stream is over.
    Failed,
    /// The reader gave a packet that the decoder could not decode.
    Undecodable,
    /// The reader gave a packet, and this is what it decoded to.
    Packet(DecodedPacket),
}

/// Why the opening of a clip stopped before any packet was asked for.
#[derive(Clone, Copy, Debug, PartialEq, Eq, Structural)]
pub enum Refused {
    /// No reader was found for the clip.
    NoReader,
    /// The reader names no track.
    NoTrack,
    /// No decoder could be made for the track.
    NoDecoder,
}

/// Where the decoding of a clip stands after a request.
#[derive(Debug)]
pub enum Progress {
    /// The stream is over, and this is the track.
    Done(DecodedTrack),
    /// This is the track so far, and so many more packets may follow.
    More(DecodedTrack, usize),
}

/// What the reader gave when asked for the next packet.
enum Next {
    Packet(symphonia::core::formats::Packet),
    End,
    Failed,
}

/// Whether symphonia's default probe finds a format reader for a clip of
/// these bytes, given this file extension as a hint.
pub uninterp spec fn probe_finds_reader(bytes: Seq<u8>, extension: Seq<char>) -> bool;

/// Whether a reader is found for a clip: it is let through the intake, and
/// the probe finds a reader for what is handed to it.
pub open spec fn has_reader(clip: SingleAudioFile) -> bool {
    admitted(clip.bytes@) && probe_finds_reader(payload(clip.bytes@), extension_of(clip.file_type))
}

/// `Probe::format` of symphonia's default probe, on a `MediaSourceStream`
/// over an in-memory copy of `bytes`, with a hint of `extension` and with
/// default stream, format and metadata options.
///
/// Asked: bytes that the intake lets through. For those the probe goes
/// straight to the MPEG audio reader or to the RIFF/WAVE reader. The
/// assertions and unreachable arms on its other ways are not met: those in
/// the ID3v2 reader, in the Ogg reader, and in the forms of the format
/// chunk that the intake refuses.
///
/// Claimed: whether a reader is found depends on the bytes and the
/// extension alone. Nothing is claimed of the reader.
#[verifier::external_body]
fn probe(bytes: &[u8], extension: &str) -> (r: Result<
    symphonia::core::probe::ProbeResult,
    symphonia::core::errors::Error,
>)
    requires
        passes(bytes@),
    ensures
        r is Ok <==> probe_finds_reader(bytes@, extension@),
{
    let source = std::io::Cursor::new(bytes.to_vec());
    let options = symphonia::core::io::MediaSourceStreamOptions::default();
    let stream = symphonia::core::io::MediaSourceStream::new(Box::new(source), options);
    let mut hint = symphonia::core::probe::Hint::new();
    hint.with_extension(extension);
    symphonia::default::get_probe().format(
        &hint,
        stream,
        &symphonia::core::formats::FormatOptions::default(),
        &symphonia::core::meta::MetadataOptions::default(),
    )
}

/// `FormatReader::default_track` of the probed reader, reduced to a copy of
/// the track's codec parameters. Nothing is claimed of the outcome.
#[verifier::external_body]
fn default_track_params(reader: &symphonia::core::probe::ProbeResult) -> (params: Option<
    symphonia::core::codecs::CodecParameters,
>) {
    reader.format.default_track().map(|track| track.codec_params.clone())
}

/// `CodecRegistry::make` of symphonia's default registry, with default
/// decoder options. Nothing is claimed of the outcome.
#[verifier::external_body]
fn make_decoder(params: &symphonia::core::codecs::CodecParameters) -> (r: Result<
    PacketDecoder,
    symphonia::core::errors::Error,
>) {
    let options = symphonia::core::codecs::DecoderOptions::default();
    match symphonia::default::get_codecs().make(params, &options) {
        Ok(inner) => Ok(PacketDecoder { inner }),
        Err(e) => Err(e),
    }
}

/// `FormatReader::next_packet` of the probed reader, with its error told
/// apart: symphonia reports the end of the stream as an I/O error of the
/// kind `UnexpectedEof`. Nothing is claimed of the outcome.
#[verifier::external_body]
fn next_packet(reader: &mut symphonia::core::probe::ProbeResult) -> (next: Next) {
    match reader.format.next_packet() {
        Ok(packet) => Next::Packet(packet),
        Err(symphonia::core::errors::Error::IoError(e))
            if e.kind() == std::io::ErrorKind::UnexpectedEof => Next::End,
        Err(_) => Next::Failed,
    }
}

/// `Decoder::decode`, with the decoded buffer copied out through a
/// `SampleBuffer` of 32-bit signed samples in interleaved order: samples of
/// other formats are converted by symphonia, floating-point ones clamped
/// to `[-1, 1]` first. Nothing is claimed of the outcome.
#[verifier::external_body]
fn decode_packet(decoder: &mut PacketDecoder, packet: &symphonia::core::formats::Packet) -> (r:
    Result<DecodedPacket, symphonia::core::errors::Error>) {
    let decoded = decoder.inner.decode(packet)?;
    let spec = *decoded.spec();
    let capacity: u64 = decoded.capacity() as u64;
    let mut buffer = symphonia::core::audio::SampleBuffer::<i32>::new(capacity, spec);
    buffer.copy_interleaved_ref(decoded);
    Ok(
        DecodedPacket {
            samples: buffer.samples().to_vec(),
            channels: spec.channels.count(),
            rate: spec.rate,
        },
    )
}

/// The error that a clip fails with when its opening stops: a clip without
/// a reader is an `UnsupportedContainer`, one without a track or without a
/// decoder for it has `NoAudioTrack`.
pub open spec fn refusal_of(refused: Refused) -> DecodeError {
    match refused {
        Refused::NoReader => DecodeError::UnsupportedContainer,
        Refused::NoTrack => DecodeError::NoAudioTrack,
        Refused::NoDecoder => DecodeError::NoAudioTrack,
    }
}

/// The error that a clip fails with when its opening stops.
pub fn refusal(refused: Refused) -> (e: DecodeError)
    ensures
        e == refusal_of(refused),
{
    match refused {
        Refused::NoReader => DecodeError::UnsupportedContainer,
        Refused::NoTrack => DecodeError::NoAudioTrack,
        Refused::NoDecoder => DecodeError::NoAudioTrack,
    }
}

/// Where the decoding of a clip stands once reader and decoder are made:
/// at an empty track, with a budget of as many packets as the clip has
/// bytes. A packet is cut out of the clip's bytes, so a reader that hands
/// out more is not reading the clip.
pub fn start(clip: &SingleAudioFile) -> (progress: Progress)
    ensures
        progress matches Progress::More(track, budget) && track@.len() == 0 && is_track(track@)
            && budget == clip.bytes@.len(),
{
    Progress::More(DecodedTrack::new(), clip.bytes.len())
}

/// The track of `track` followed by the stereo rendering of `packet`.
pub open spec fn grown(track: Seq<i32>, packet: DecodedPacket) -> Seq<i32> {
    track + stereo_of(packet.samples@, packet.channels as nat)
}

/// Takes what one request gave into the decoding of a clip: `track` is the
/// track so far, `budget` the number of packets that may still follow.
///
/// The end of the stream completes the track. A reader that fails is a
/// `DecodeError`, a packet that could not be decoded is one, and so is any
/// packet once the budget is used up. A decoded packet is appended in its
/// stereo rendering and takes one off the budget; if the track would
/// exceed [`MAX_TRACK_SAMPLES`], that is `TooLong`.
pub fn advance(track: DecodedTrack, budget: usize, fetched: Fetched) -> (r: Result<
    Progress,
    DecodeError,
>)
    ensures
        fetched is End ==> (r matches Ok(Progress::Done(done)) && done@ == track@),
        fetched is Failed ==> (r matches Err(e) && e == DecodeError::DecodeError),
        fetched is Undecodable ==> (r matches Err(e) && e == DecodeError::DecodeError),
        fetched matches Fetched::Packet(packet) ==> {
            if budget == 0 {
                r matches Err(e) && e == DecodeError::DecodeError
            } else if grown(track@, packet).len() > MAX_TRACK_SAMPLES {
                r matches Err(e) && e == DecodeError::TooLong
            } else {
                r matches Ok(Progress::More(more, left)) && more@ == grown(track@, packet) && left
                    == budget - 1
            }
        },
        r matches Ok(Progress::Done(done)) ==> is_track(done@),
        r matches Ok(Progress::More(more, left)) ==> is_track(more@),
{
    match fetched {
        Fetched::End => {
            let _ = track.len();
            Ok(Progress::Done(track))
        },
        Fetched::Failed => Err(DecodeError::DecodeError),
        Fetched::Undecodable => Err(DecodeError::DecodeError),
        Fetched::Packet(packet) => {
            if budget == 0 {
                return Err(DecodeError::DecodeError);
            }
            match track.with_packet(packet.samples.as_slice(), packet.channels) {
                Ok(more) => Ok(Progress::More(more, budget - 1)),
                Err(e) => Err(e),
            }
        },
    }
}

/// Decodes a clip into a stereo track.
///
/// A leading ID3v2 tag is skipped by the length that it states, and is not
/// read: a tag that a reader of tags would refuse does not fail the clip.
/// What follows goes to the probe if the intake lets it through, with the
/// clip's format tag as a hint. The default track of the container is
/// decoded packet by packet until the reader has no more. [`start`] says
/// where the decoding begins, and [`advance`] takes each packet into the
/// track.
///
/// Errors, by the step that failed: `UnsupportedContainer` if the intake
/// refuses the clip or the probe finds no reader for it; `NoAudioTrack` if
/// the container names no track, or none that a decoder can be made for;
/// then those of [`advance`].
///
/// What the intake refuses, though symphonia's probe by itself would take
/// it or search on:
/// - every Ogg container (see [`crate::intake`] for the reason, and for the
///   way that is left to a caller);
/// - MPEG audio that does not begin at the first byte of the clip, or right
///   after one leading ID3v2 tag: the probe would search the first
///   mebibyte for a frame header;
/// - RIFF/WAVE containers in the ADPCM forms, with a `LIST` chunk of odd
///   length, with a chunk of 2 GiB or more, or with a chunk before the
///   sample data that is not whole.
///
/// Past the probe, which of the errors happens, and what the samples are,
/// is for the reader and the decoder to say from one call to the next.
/// Whatever they say, a track that is returned is made of whole stereo
/// frames and fits an output container.
pub fn decode(clip: &SingleAudioFile) -> (r: Result<DecodedTrack, DecodeError>)
    ensures
        (r matches Err(e) && e == DecodeError::UnsupportedContainer) <==> !has_reader(*clip),
        r matches Ok(track) ==> is_track(track@),
{
    let bytes: &[u8] = clip.bytes.as_slice();
    let skip: u64 = leading_tag_len(bytes);
    if skip > bytes.len() as u64 {
        return Err(refusal(Refused::NoReader));
    }
    let rest: &[u8] = vstd::slice::slice_subrange(bytes, skip as usize, bytes.len());
    assert(rest@ == payload(clip.bytes@));
    if !is_passed(rest) {
        return Err(refusal(Refused::NoReader));
    }
    let mut reader = match probe(rest, clip.file_type.extension()) {
        Ok(reader) => reader,
        Err(_) => {
            return Err(refusal(Refused::NoReader));
        },
    };
    let params = match default_track_params(&reader) {
        Some(params) => params,
        None => {
            return Err(refusal(Refused::NoTrack));
        },
    };
    let mut decoder = match make_decoder(&params) {
        Ok(decoder) => decoder,
        Err(_) => {
            return Err(refusal(Refused::NoDecoder));
        },
    };
    let mut progress = start(clip);
    loop
        invariant
            has_reader(*clip),
            progress matches Progress::Done(done) ==> is_track(done@),
        decreases
            (match progress {
                Progress::Done(_) => 0,
                Progress::More(_, budget) => budget + 1,
            }),
    {
        let (track, budget) = match progress {
            Progress::Done(done) => {
                return Ok(done);
            },
            Progress::More(track, budget) => (track, budget),
        };
        let fetched = match next_packet(&mut reader) {
            Next::End => Fetched::End,
            Next::Failed => Fetched::Failed,
            Next::Packet(packet) => match decode_packet(&mut decoder, &packet) {
                Ok(decoded) => Fetched::Packet(decoded),
                Err(_) => Fetched::Undecodable,
            },
        };
        progress = match advance(track, budget, fetched) {
            Ok(progress) => progress,
            Err(e) => {
                return Err(e);
            },
        };
    }
}

} // verus!
