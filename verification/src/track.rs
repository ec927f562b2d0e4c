//! Channel normalisation and the stereo track that it produces.
//!
//! Samples are signed 32-bit fixed-point fractions: the integer `n` stands
//! for the amplitude `n / 2^31`, so the full range of an `i32` covers
//! `[-1, 1)`.

use crate::error::DecodeError;
use vstd::prelude::*;

verus! {

/// The largest number of samples a track may hold. A container of that many
/// 16-bit samples is the longest whose chunk size (36 bytes more than the
/// sample data) still fits the 32-bit size field, with a whole last frame.
pub const MAX_TRACK_SAMPLES: usize = 2_147_483_628;

/// Whether `samples` can be a track: whole stereo frames, and no more than
/// [`MAX_TRACK_SAMPLES`] samples.
pub open spec fn is_track(samples: Seq<i32>) -> bool {
    &&& samples.len() % 2 == 0
    &&& samples.len() <= MAX_TRACK_SAMPLES
}

/// Number of whole frames in `len` interleaved samples of `channels` channels.
pub open spec fn frame_count(len: nat, channels: nat) -> nat {
    if channels == 0 {
        0
    } else {
        len / channels
    }
}

/// Left sample of frame `k`: channel 0.
pub open spec fn left_of(samples: Seq<i32>, channels: nat, k: int) -> i32 {
    samples[k * channels]
}

/// Right sample of frame `k`: channel 1, or channel 0 again for a mono source.
pub open spec fn right_of(samples: Seq<i32>, channels: nat, k: int) -> i32 {
    if channels == 1 {
        samples[k * channels]
    } else {
        samples[k * channels + 1]
    }
}

/// The stereo rendering of an interleaved stream: two samples per whole
/// frame, channels beyond the second dropped, a trailing partial frame
/// dropped.
pub open spec fn stereo_of(samples: Seq<i32>, channels: nat) -> Seq<i32> {
    Seq::new(
        2 * frame_count(samples.len(), channels),
        |i: int|
            if i % 2 == 0 {
                left_of(samples, channels, i / 2)
            } else {
                right_of(samples, channels, i / 2)
            },
    )
}

proof fn lemma_frame_bounds(len: nat, channels: nat, k: nat)
    requires
        channels > 0,
        k < frame_count(len, channels),
    ensures
        k * channels + channels <= len,
{
    let frames = len / channels;
    assert(frames * channels <= len) by (nonlinear_arith)
        requires
            channels > 0,
            frames == len / channels,
    ;
    assert(k * channels + channels <= frames * channels) by (nonlinear_arith)
        requires
            k + 1 <= frames,
    ;
}

/// A mono stream of `n` frames gives `2 * n` samples, and each frame of the
/// result holds the frame's one sample twice, left and right.
pub proof fn lemma_mono_is_duplicated(samples: Seq<i32>)
    ensures
        stereo_of(samples, 1).len() == 2 * samples.len(),
        forall|k: int|
            0 <= k < samples.len() ==> {
                &&& stereo_of(samples, 1)[2 * k] == #[trigger] samples[k]
                &&& stereo_of(samples, 1)[2 * k + 1] == samples[k]
            },
{
}

/// A stream of two or more channels gives two samples per whole frame:
/// channel 0 on the left and channel 1 on the right.
pub proof fn lemma_first_two_channels_kept(samples: Seq<i32>, channels: nat)
    requires
        channels >= 2,
    ensures
        stereo_of(samples, channels).len() == 2 * (samples.len() / channels),
        forall|i: int|
            0 <= i < stereo_of(samples, channels).len() ==> #[trigger] stereo_of(
                samples,
                channels,
            )[i] == samples[(i / 2) * channels + i % 2],
{
}

/// Appends the stereo rendering of `samples` to `out`, unless the result
/// would be longer than [`MAX_TRACK_SAMPLES`]; then `out` is left as it was.
/// Returns whether the samples were appended.
pub fn append_stereo(out: &mut Vec<i32>, samples: &[i32], channels: usize) -> (fits: bool)
    ensures
        fits <==> old(out)@.len() + stereo_of(samples@, channels as nat).len()
            <= MAX_TRACK_SAMPLES,
        fits ==> final(out)@ == old(out)@ + stereo_of(samples@, channels as nat),
        !fits ==> final(out)@ == old(out)@,
{
    let ghost before = out@;
    let ghost stereo = stereo_of(samples@, channels as nat);
    if channels == 0 {
        return out.len() <= MAX_TRACK_SAMPLES;
    }
    let frames: usize = samples.len() / channels;
    let have: usize = out.len();
    if have > MAX_TRACK_SAMPLES || frames > (MAX_TRACK_SAMPLES - have) / 2 {
        return false;
    }
    let mut k: usize = 0;
    let mut base: usize = 0;
    while k < frames
        invariant
            channels > 0,
            frames == frame_count(samples@.len(), channels as nat),
            stereo == stereo_of(samples@, channels as nat),
            k <= frames,
            base == k * channels,
            out@ == before + stereo.take(2 * k),
        decreases frames - k,
    {
        proof {
            lemma_frame_bounds(samples@.len(), channels as nat, k as nat);
        }
        let left: i32 = samples[base];
        let right: i32 = if channels == 1 {
            left
        } else {
            samples[base + 1]
        };
        out.push(left);
        out.push(right);
        proof {
            assert((k + 1) * channels == base + channels) by (nonlinear_arith)
                requires
                    base == k * channels,
            ;
        }
        base = base + channels;
        k = k + 1;
    }
    true
}

/// One clip after decoding: stereo-interleaved samples, left first.
///
/// A track always holds whole frames, and never more than
/// [`MAX_TRACK_SAMPLES`] samples.
///
/// A sample cannot stand for an amplitude beyond full scale. Where a
/// decoder gives one, as decoders of compressed audio may, it is clamped to
/// `[-1, 1)` when it is decoded, before any gain is applied: such a clip
/// mixes as if it had been clipped at full scale.
#[derive(Debug)]
pub struct DecodedTrack {
    samples: Vec<i32>,
}

impl View for DecodedTrack {
    type V = Seq<i32>;

    closed spec fn view(&self) -> Seq<i32> {
        self.samples@
    }
}

impl DecodedTrack {
    #[verifier::type_invariant]
    spec fn well_formed(self) -> bool {
        is_track(self.samples@)
    }

    /// A track without samples.
    pub fn new() -> (track: DecodedTrack)
        ensures
            track@ == Seq::<i32>::empty(),
            is_track(track@),
    {
        DecodedTrack { samples: Vec::new() }
    }

    /// The track made of the stereo rendering of one interleaved stream.
    /// Fails with `TooLong` if that is more than [`MAX_TRACK_SAMPLES`]
    /// samples.
    pub fn from_interleaved(samples: &[i32], channels: usize) -> (r: Result<
        DecodedTrack,
        DecodeError,
    >)
        ensures
            r is Ok <==> stereo_of(samples@, channels as nat).len() <= MAX_TRACK_SAMPLES,
            r matches Ok(track) ==> track@ == stereo_of(samples@, channels as nat) && is_track(
                track@,
            ),
            r matches Err(e) ==> e == DecodeError::TooLong,
    {
        DecodedTrack::new().with_packet(samples, channels)
    }

    /// The track followed by the stereo rendering of one more decoded
    /// packet. Fails with `TooLong` if that is more than
    /// [`MAX_TRACK_SAMPLES`] samples in all.
    pub fn with_packet(self, samples: &[i32], channels: usize) -> (r: Result<
        DecodedTrack,
        DecodeError,
    >)
        ensures
            r is Ok <==> self@.len() + stereo_of(samples@, channels as nat).len()
                <= MAX_TRACK_SAMPLES,
            r matches Ok(track) ==> track@ == self@ + stereo_of(samples@, channels as nat)
                && is_track(track@),
            r matches Err(e) ==> e == DecodeError::TooLong,
    {
        proof {
            use_type_invariant(&self);
        }
        let mut grown: Vec<i32> = self.samples;
        if append_stereo(&mut grown, samples, channels) {
            Ok(DecodedTrack { samples: grown })
        } else {
            Err(DecodeError::TooLong)
        }
    }

    /// Number of samples, both channels counted.
    pub fn len(&self) -> (n: usize)
        ensures
            n == self@.len(),
            is_track(self@),
    {
        proof {
            use_type_invariant(self);
        }
        self.samples.len()
    }

    /// The samples, left and right alternating.
    pub fn samples(&self) -> (s: &Vec<i32>)
        ensures
            s@ == self@,
            is_track(self@),
    {
        proof {
            use_type_invariant(self);
        }
        &self.samples
    }
}

} // verus!
