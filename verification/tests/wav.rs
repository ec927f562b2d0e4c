use audio_combiner::mix::FULL_SCALE;
use audio_combiner::wav::{create_wav_container, quantize, HEADER_LEN, PCM_MAX};

fn u32_at(bytes: &[u8], at: usize) -> u32 {
    u32::from_le_bytes([bytes[at], bytes[at + 1], bytes[at + 2], bytes[at + 3]])
}

fn u16_at(bytes: &[u8], at: usize) -> u16 {
    u16::from_le_bytes([bytes[at], bytes[at + 1]])
}

fn i16_at(bytes: &[u8], at: usize) -> i16 {
    i16::from_le_bytes([bytes[at], bytes[at + 1]])
}

/// The amplitude formula in floating point: clamp, scale, cut off.
fn reference(amplitude: f64) -> i16 {
    (amplitude.clamp(-1.0, 1.0) * 32767.0) as i16
}

#[test]
fn empty_samples_give_the_bare_header() {
    let wav = create_wav_container(&[], 44_100);
    let expected: Vec<u8> = vec![
        b'R', b'I', b'F', b'F', 36, 0, 0, 0, b'W', b'A', b'V', b'E', b'f', b'm', b't', b' ', 16, 0,
        0, 0, 1, 0, 2, 0, 0x44, 0xac, 0, 0, 0x10, 0xb1, 0x02, 0, 4, 0, 16, 0, b'd', b'a', b't',
        b'a', 0, 0, 0, 0,
    ];
    assert_eq!(wav.len(), 44);
    assert_eq!(HEADER_LEN, 44);
    assert_eq!(wav, expected);
    assert_eq!(u32_at(&wav, 4), 36);
    assert_eq!(u32_at(&wav, 40), 0);
}

#[test]
fn header_fields_follow_the_sample_count_and_rate() {
    let samples: Vec<i128> = vec![0; 70_000];
    let wav = create_wav_container(&samples, 48_000);
    assert_eq!(wav.len(), 44 + 140_000);
    assert_eq!(&wav[0..4], b"RIFF");
    assert_eq!(u32_at(&wav, 4), 36 + 140_000);
    assert_eq!(&wav[8..12], b"WAVE");
    assert_eq!(&wav[12..16], b"fmt ");
    assert_eq!(u32_at(&wav, 16), 16);
    assert_eq!(u16_at(&wav, 20), 1);
    assert_eq!(u16_at(&wav, 22), 2);
    assert_eq!(u32_at(&wav, 24), 48_000);
    assert_eq!(u32_at(&wav, 28), 192_000);
    assert_eq!(u16_at(&wav, 32), 4);
    assert_eq!(u16_at(&wav, 34), 16);
    assert_eq!(&wav[36..40], b"data");
    assert_eq!(u32_at(&wav, 40), 140_000);
    assert!(wav[44..].iter().all(|&b| b == 0));
}

#[test]
fn largest_sample_rate_is_written_whole() {
    let rate: u32 = u32::MAX / 4;
    let wav = create_wav_container(&[], rate);
    assert_eq!(u32_at(&wav, 24), 1_073_741_823);
    assert_eq!(u32_at(&wav, 28), 4_294_967_292);
}

#[test]
fn samples_are_written_little_endian_in_order() {
    let samples: Vec<i128> = vec![FULL_SCALE, -FULL_SCALE, 0, FULL_SCALE / 2, -FULL_SCALE / 2, 1];
    let wav = create_wav_container(&samples, 44_100);
    assert_eq!(wav.len(), 44 + 12);
    assert_eq!(u32_at(&wav, 40), 12);
    assert_eq!(&wav[44..46], &[0xff, 0x7f]);
    assert_eq!(&wav[46..48], &[0x01, 0x80]);
    assert_eq!(&wav[48..50], &[0x00, 0x00]);
    assert_eq!(&wav[50..52], &[0xff, 0x3f]);
    assert_eq!(&wav[52..54], &[0x01, 0xc0]);
    assert_eq!(&wav[54..56], &[0x00, 0x00]);
    assert_eq!(i16_at(&wav, 44), 32_767);
    assert_eq!(i16_at(&wav, 46), -32_767);
    assert_eq!(i16_at(&wav, 50), 16_383);
    assert_eq!(i16_at(&wav, 52), -16_383);
}

#[test]
fn quantize_clamps_and_never_wraps() {
    assert_eq!(PCM_MAX, 32_767);
    assert_eq!(quantize(FULL_SCALE), 32_767);
    assert_eq!(quantize(FULL_SCALE + 1), 32_767);
    assert_eq!(quantize(2 * FULL_SCALE), 32_767);
    assert_eq!(quantize(1000 * FULL_SCALE), 32_767);
    assert_eq!(quantize(i128::MAX), 32_767);
    assert_eq!(quantize(-FULL_SCALE), -32_767);
    assert_eq!(quantize(-FULL_SCALE - 1), -32_767);
    assert_eq!(quantize(-3 * FULL_SCALE), -32_767);
    assert_eq!(quantize(i128::MIN), -32_767);
}

#[test]
fn quantize_cuts_off_toward_zero() {
    // One step of the output is FULL_SCALE / 32767 = 6553800.006...
    assert_eq!(quantize(0), 0);
    assert_eq!(quantize(6_553_800), 0);
    assert_eq!(quantize(6_553_801), 1);
    assert_eq!(quantize(-6_553_800), 0);
    assert_eq!(quantize(-6_553_801), -1);
    assert_eq!(quantize(FULL_SCALE - 1), 32_766);
    assert_eq!(quantize(-FULL_SCALE + 1), -32_766);
    assert_eq!(quantize(FULL_SCALE / 2), 16_383);
    assert_eq!(quantize(-FULL_SCALE / 2), -16_383);
}

#[test]
fn quantize_agrees_with_the_amplitude_formula() {
    let mut m: i128 = -3 * FULL_SCALE;
    while m <= 3 * FULL_SCALE {
        let amplitude = m as f64 / FULL_SCALE as f64;
        assert_eq!(quantize(m), reference(amplitude), "at {}", m);
        m += 1_234_567_891;
    }
}

#[test]
fn quantize_keeps_the_order_of_samples() {
    let mut last = quantize(-2 * FULL_SCALE);
    let mut m: i128 = -2 * FULL_SCALE;
    while m <= 2 * FULL_SCALE {
        let q = quantize(m);
        assert!(q >= last);
        last = q;
        m += 987_654_321;
    }
}
