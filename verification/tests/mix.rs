use audio_combiner::mix::{mix, FULL_SCALE, UNITY_GAIN};
use audio_combiner::wav::quantize;
use audio_combiner::{DecodedTrack, MixError};

fn track(samples: &[i32]) -> DecodedTrack {
    DecodedTrack::from_interleaved(samples, 2).unwrap()
}

/// The fixed-point sample of a 16-bit sample: the same amplitude.
fn wide(x: i16) -> i32 {
    (x as i32) << 16
}

#[test]
fn a_single_track_at_unity_gain_is_reproduced() {
    let pcm: Vec<i16> = vec![0, 1, -1, 100, -100, 16_384, -16_384, 32_767, -32_768, 12_345];
    let samples: Vec<i32> = pcm.iter().map(|&x| wide(x)).collect();
    let master = mix(&vec![track(&samples)], &vec![UNITY_GAIN]).unwrap();
    assert_eq!(master.len(), samples.len());
    for j in 0..samples.len() {
        assert_eq!(master[j], samples[j] as i128 * 100);
        let amplitude = pcm[j] as f64 / 32768.0;
        assert_eq!(quantize(master[j]), (amplitude * 32767.0) as i16);
        assert!((quantize(master[j]) as i32 - pcm[j] as i32).abs() <= 1);
    }
}

#[test]
fn the_longer_track_fills_the_tail_alone() {
    let short = track(&[1000, 2000, 3000, 4000]);
    let long = track(&[10, 20, 30, 40, 50, 60, 70, 80]);
    let master = mix(&vec![short, long], &vec![50, 200]).unwrap();
    assert_eq!(master.len(), 8);
    assert_eq!(master[0], 1000 * 50 + 10 * 200);
    assert_eq!(master[3], 4000 * 50 + 40 * 200);
    for j in 4..8 {
        assert_eq!(master[j], (j as i128 + 1) * 10 * 200);
    }
}

#[test]
fn the_order_of_long_and_short_does_not_matter_for_the_length() {
    let short = track(&[1, 2]);
    let long = track(&[5, 6, 7, 8, 9, 10]);
    let master = mix(&vec![long, short], &vec![100, 100]).unwrap();
    assert_eq!(master, vec![600, 800, 700, 800, 900, 1000]);
}

#[test]
fn no_tracks_give_an_empty_master() {
    let master = mix(&vec![], &vec![]).unwrap();
    assert!(master.is_empty());
    let master = mix(&vec![], &vec![1, 2, 3]).unwrap();
    assert!(master.is_empty());
}

#[test]
fn empty_tracks_give_an_empty_master() {
    let master = mix(&vec![track(&[]), track(&[])], &vec![100, 100]).unwrap();
    assert!(master.is_empty());
}

#[test]
fn a_missing_gain_is_rejected_whichever_track_lacks_it() {
    let tracks = vec![track(&[1, 2]), track(&[3, 4]), track(&[5, 6])];
    assert_eq!(mix(&tracks, &vec![]), Err(MixError::MissingVolume { index: 0 }));
    assert_eq!(mix(&tracks, &vec![100]), Err(MixError::MissingVolume { index: 1 }));
    assert_eq!(mix(&tracks, &vec![100, 100]), Err(MixError::MissingVolume { index: 2 }));
    assert!(mix(&tracks, &vec![100, 100, 100]).is_ok());
}

#[test]
fn gains_beyond_the_last_track_are_ignored() {
    let tracks = vec![track(&[1, 2])];
    assert_eq!(mix(&tracks, &vec![100, 7, 9]), Ok(vec![100, 200]));
}

#[test]
fn gain_is_linear() {
    let samples = [wide(1000), wide(-1000)];
    let tracks = vec![track(&samples)];
    for gain in [0u8, 1, 50, 99, 100, 101, 200, 255] {
        let master = mix(&tracks, &vec![gain]).unwrap();
        assert_eq!(master[0], samples[0] as i128 * gain as i128);
        assert_eq!(master[1], samples[1] as i128 * gain as i128);
    }
    assert_eq!(mix(&tracks, &vec![0]).unwrap(), vec![0, 0]);
}

#[test]
fn sums_are_not_clamped_while_mixing() {
    let loud = [i32::MAX, i32::MIN];
    let tracks = vec![track(&loud), track(&loud), track(&loud)];
    let master = mix(&tracks, &vec![255, 255, 255]).unwrap();
    assert_eq!(master[0], 3 * 255 * i32::MAX as i128);
    assert_eq!(master[1], 3 * 255 * i32::MIN as i128);
    assert!(master[0] > FULL_SCALE);
    assert!(master[1] < -FULL_SCALE);
    assert_eq!(quantize(master[0]), 32_767);
    assert_eq!(quantize(master[1]), -32_767);
}

#[test]
fn opposite_tracks_cancel_even_beyond_full_scale() {
    let up = track(&[i32::MAX, i32::MAX]);
    let also_up = track(&[i32::MAX, i32::MAX]);
    let down = track(&[-i32::MAX, -i32::MAX]);
    let master = mix(&vec![up, also_up, down], &vec![100, 100, 100]).unwrap();
    assert_eq!(master[0], 100 * i32::MAX as i128);
    assert_eq!(quantize(master[0]), 32_766);
}
