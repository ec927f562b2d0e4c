//! The container encoder: a master buffer written out as 16-bit signed
//! little-endian stereo PCM behind a 44-byte RIFF/WAVE header.

use crate::mix::lemma_single_track_at_unity;
use crate::mix::longest_prefix;
use crate::mix::mixed;
use crate::mix::mixed_prefix;
use crate::mix::values;
use crate::mix::FULL_SCALE;
use crate::mix::UNITY_GAIN;
use crate::track::lemma_mono_is_duplicated;
use crate::track::stereo_of;
use vstd::prelude::*;

verus! {

/// Length of the header in bytes.
pub const HEADER_LEN: usize = 44;

/// The largest value of an encoded sample.
pub const PCM_MAX: i16 = 32_767;

/// A mixed sample held to the range `[-1, 1]`.
pub open spec fn clamped(m: int) -> int {
    if m < -FULL_SCALE {
        -FULL_SCALE
    } else if m > FULL_SCALE {
        FULL_SCALE as int
    } else {
        m
    }
}

/// The 16-bit value of a mixed sample: its amplitude clamped to `[-1, 1]`,
/// multiplied by 32767, and cut off toward zero.
pub open spec fn quantized(m: int) -> int {
    let c = clamped(m);
    if c >= 0 {
        (c * PCM_MAX) / (FULL_SCALE as int)
    } else {
        -((-c * PCM_MAX) / (FULL_SCALE as int))
    }
}

/// The unsigned 16-bit pattern of a signed 16-bit value (two's complement).
pub open spec fn pattern16(q: int) -> int {
    if q < 0 {
        q + 0x1_0000
    } else {
        q
    }
}

/// The two bytes of a 16-bit value, low byte first.
pub open spec fn le16(x: int) -> Seq<u8> {
    seq![(x % 0x100) as u8, (x / 0x100 % 0x100) as u8]
}

/// The four bytes of a 32-bit value, low byte first.
pub open spec fn le32(x: int) -> Seq<u8> {
    seq![
        (x % 0x100) as u8,
        (x / 0x100 % 0x100) as u8,
        (x / 0x1_0000 % 0x100) as u8,
        (x / 0x100_0000 % 0x100) as u8,
    ]
}

/// The bytes of `RIFF`.
pub open spec fn tag_riff() -> Seq<u8> {
    seq![0x52u8, 0x49u8, 0x46u8, 0x46u8]
}

/// The bytes of `WAVE`.
pub open spec fn tag_wave() -> Seq<u8> {
    seq![0x57u8, 0x41u8, 0x56u8, 0x45u8]
}

/// The bytes of `fmt ` (the fourth is a space).
pub open spec fn tag_fmt() -> Seq<u8> {
    seq![0x66u8, 0x6du8, 0x74u8, 0x20u8]
}

/// The bytes of `data`.
pub open spec fn tag_data() -> Seq<u8> {
    seq![0x64u8, 0x61u8, 0x74u8, 0x61u8]
}

/// The header of a container of `count` samples at `sample_rate`.
pub open spec fn header(count: int, sample_rate: u32) -> Seq<u8> {
    tag_riff() + le32(36 + 2 * count) + tag_wave() + tag_fmt() + le32(16) + le16(1) + le16(2)
        + le32(sample_rate as int) + le32(sample_rate * 4) + le16(4) + le16(16) + tag_data()
        + le32(2 * count)
}

/// The sample data: two bytes for each mixed sample, in order.
pub open spec fn pcm(samples: Seq<int>) -> Seq<u8> {
    Seq::new(2 * samples.len(), |i: int| le16(pattern16(quantized(samples[i / 2])))[i % 2])
}

/// The whole container.
pub open spec fn wav_bytes(samples: Seq<int>, sample_rate: u32) -> Seq<u8> {
    header(samples.len() as int, sample_rate) + pcm(samples)
}

/// The 16-bit value of a track sample taken by itself: its amplitude
/// multiplied by 32767 and cut off toward zero.
pub open spec fn quantized_sample(s: i32) -> int {
    if s >= 0 {
        (s * PCM_MAX) / 0x8000_0000
    } else {
        -((-s * PCM_MAX) / 0x8000_0000)
    }
}

/// Quantizing clamps: a mixed sample gives what its clamped value gives,
/// samples at or beyond full scale give the largest value of their sign,
/// and no sample gives a value outside `[-32767, 32767]`.
pub proof fn lemma_quantized_clamps(m: int)
    ensures
        quantized(m) == quantized(clamped(m)),
        -PCM_MAX <= quantized(m) <= PCM_MAX,
        m >= FULL_SCALE ==> quantized(m) == PCM_MAX,
        m <= -FULL_SCALE ==> quantized(m) == -PCM_MAX,
{
}

/// Quantizing keeps the order of mixed samples.
pub proof fn lemma_quantized_monotonic(a: int, b: int)
    requires
        a <= b,
    ensures
        quantized(a) <= quantized(b),
{
}

/// A track sample at unity gain is quantized to its own 16-bit value.
pub proof fn lemma_quantized_at_unity(s: i32)
    ensures
        quantized(s * UNITY_GAIN) == quantized_sample(s),
{
}

/// A single track mixed at unity gain is encoded as the 16-bit values of
/// its own samples.
pub proof fn lemma_single_track_encoding(tracks: Seq<Seq<i32>>, volumes: Seq<u8>)
    requires
        tracks.len() == 1,
        volumes.len() >= 1,
        volumes[0] == UNITY_GAIN,
    ensures
        pcm(mixed(tracks, volumes)).len() == 2 * tracks[0].len(),
        forall|j: int|
            0 <= j < tracks[0].len() ==> quantized(#[trigger] mixed(tracks, volumes)[j])
                == quantized_sample(tracks[0][j]),
{
    lemma_single_track_at_unity(tracks, volumes);
    assert forall|j: int| 0 <= j < tracks[0].len() implies quantized(
        #[trigger] mixed(tracks, volumes)[j],
    ) == quantized_sample(tracks[0][j]) by {
        lemma_quantized_at_unity(tracks[0][j]);
    }
}

/// A single mono clip of `n` frames, whatever its gain, is encoded as a
/// container of `44 + 4 * n` bytes, and left and right of every frame hold
/// the same value: that of the frame's one sample scaled by the gain.
pub proof fn lemma_mono_clip_encoding(
    mono: Seq<i32>,
    tracks: Seq<Seq<i32>>,
    volumes: Seq<u8>,
    sample_rate: u32,
)
    requires
        tracks.len() == 1,
        tracks[0] == stereo_of(mono, 1),
    ensures
        mixed(tracks, volumes).len() == 2 * mono.len(),
        wav_bytes(mixed(tracks, volumes), sample_rate).len() == HEADER_LEN + 4 * mono.len(),
        forall|k: int|
            0 <= k < mono.len() ==> {
                &&& mixed(tracks, volumes)[2 * k] == #[trigger] mono[k] * volumes[0]
                &&& mixed(tracks, volumes)[2 * k + 1] == mono[k] * volumes[0]
                &&& quantized(mixed(tracks, volumes)[2 * k]) == quantized(
                    mixed(tracks, volumes)[2 * k + 1],
                )
            },
{
    reveal_with_fuel(longest_prefix, 2);
    reveal_with_fuel(mixed_prefix, 2);
    lemma_mono_is_duplicated(mono);
}

/// The container of no samples is the header alone: 44 bytes, with a chunk
/// size of 36 and a data size of 0.
pub proof fn lemma_empty_container(sample_rate: u32)
    ensures
        wav_bytes(Seq::<int>::empty(), sample_rate).len() == HEADER_LEN,
        wav_bytes(Seq::<int>::empty(), sample_rate) == header(0, sample_rate),
        header(0, sample_rate).subrange(4, 8) == seq![36u8, 0u8, 0u8, 0u8],
        header(0, sample_rate).subrange(40, 44) == seq![0u8, 0u8, 0u8, 0u8],
{
}

/// Quantizes one mixed sample. Values beyond full scale give the largest
/// value of their sign; none wraps around.
pub fn quantize(m: i128) -> (q: i16)
    ensures
        q == quantized(m as int),
        -PCM_MAX <= q <= PCM_MAX,
{
    let c: i128 = if m < -FULL_SCALE {
        -FULL_SCALE
    } else if m > FULL_SCALE {
        FULL_SCALE
    } else {
        m
    };
    let magnitude: i128 = if c >= 0 {
        c
    } else {
        -c
    };
    let cut: i16 = ((magnitude * (PCM_MAX as i128)) / FULL_SCALE) as i16;
    if c >= 0 {
        cut
    } else {
        -cut
    }
}

fn push_tag(out: &mut Vec<u8>, a: u8, b: u8, c: u8, d: u8)
    ensures
        final(out)@ == old(out)@ + seq![a, b, c, d],
{
    out.push(a);
    out.push(b);
    out.push(c);
    out.push(d);
}

fn push_u16(out: &mut Vec<u8>, x: u16)
    ensures
        final(out)@ == old(out)@ + le16(x as int),
{
    out.push((x % 0x100) as u8);
    out.push((x / 0x100) as u8);
}

fn push_u32(out: &mut Vec<u8>, x: u32)
    ensures
        final(out)@ == old(out)@ + le32(x as int),
{
    out.push((x % 0x100) as u8);
    out.push((x / 0x100 % 0x100) as u8);
    out.push((x / 0x1_0000 % 0x100) as u8);
    out.push((x / 0x100_0000) as u8);
}

fn push_i16(out: &mut Vec<u8>, q: i16)
    ensures
        final(out)@ == old(out)@ + le16(pattern16(q as int)),
{
    let pattern: u16 = if q < 0 {
        ((q as i32) + 0x1_0000) as u16
    } else {
        q as u16
    };
    push_u16(out, pattern);
}

/// Writes `samples` as a container at `sample_rate`.
///
/// The size fields of the header are 32 bits wide: the container must not
/// be longer than they can say, nor the sample rate higher than a quarter
/// of what the byte-rate field can hold.
pub fn create_wav_container(samples: &[i128], sample_rate: u32) -> (wav: Vec<u8>)
    requires
        36 + 2 * samples@.len() <= u32::MAX,
        sample_rate * 4 <= u32::MAX,
    ensures
        wav@ == wav_bytes(values(samples@), sample_rate),
        wav@.len() == HEADER_LEN + 2 * samples@.len(),
{
    let count: usize = samples.len();
    let data_size: u32 = (count * 2) as u32;
    let mut wav: Vec<u8> = Vec::new();
    push_tag(&mut wav, 0x52, 0x49, 0x46, 0x46);
    push_u32(&mut wav, 36 + data_size);
    push_tag(&mut wav, 0x57, 0x41, 0x56, 0x45);
    push_tag(&mut wav, 0x66, 0x6d, 0x74, 0x20);
    push_u32(&mut wav, 16);
    push_u16(&mut wav, 1);
    push_u16(&mut wav, 2);
    push_u32(&mut wav, sample_rate);
    push_u32(&mut wav, sample_rate * 4);
    push_u16(&mut wav, 4);
    push_u16(&mut wav, 16);
    push_tag(&mut wav, 0x64, 0x61, 0x74, 0x61);
    push_u32(&mut wav, data_size);
    let ghost head = header(count as int, sample_rate);
    let ghost data = pcm(values(samples@));
    let mut i: usize = 0;
    while i < count
        invariant
            count == samples@.len(),
            head.len() == HEADER_LEN,
            data == pcm(values(samples@)),
            i <= count,
            wav@ == head + data.take(2 * i),
        decreases count - i,
    {
        let q: i16 = quantize(samples[i]);
        push_i16(&mut wav, q);
        i = i + 1;
    }
    wav
}

} // verus!
