//! The mixing engine: tracks are summed sample by sample, each scaled by its
//! gain.
//!
//! A gain is a percentage, 100 being unity. A mixed sample is kept as the
//! exact sum of `sample * gain` over the tracks, so it counts hundredths of a
//! sample step: the integer `m` stands for the amplitude `m / (100 * 2^31)`.
//! Nothing is rounded or clamped while the sum is formed.

use crate::error::MixError;
use crate::track::DecodedTrack;
use crate::track::MAX_TRACK_SAMPLES;
use vstd::prelude::*;

verus! {

/// The gain that leaves a track as it is.
pub const UNITY_GAIN: u8 = 100;

/// The mixed sample that stands for the amplitude 1: `100 * 2^31`.
pub const FULL_SCALE: i128 = 214_748_364_800;

/// The sample sequences of a list of tracks.
pub open spec fn samples_of(tracks: Seq<DecodedTrack>) -> Seq<Seq<i32>> {
    Seq::new(tracks.len(), |i: int| tracks[i]@)
}

/// What one track adds to the mixed sample at index `j`: its sample scaled
/// by its gain, or silence beyond its end.
pub open spec fn contribution(track: Seq<i32>, volume: u8, j: int) -> int {
    if 0 <= j < track.len() {
        track[j] * volume
    } else {
        0
    }
}

/// The sum at index `j` of what the first `n` tracks add.
pub open spec fn mixed_prefix(tracks: Seq<Seq<i32>>, volumes: Seq<u8>, n: nat, j: int) -> int
    decreases n,
{
    if n == 0 {
        0
    } else {
        mixed_prefix(tracks, volumes, (n - 1) as nat, j) + contribution(
            tracks[n - 1],
            volumes[n - 1],
            j,
        )
    }
}

/// The mixed sample at index `j`.
pub open spec fn mixed_at(tracks: Seq<Seq<i32>>, volumes: Seq<u8>, j: int) -> int {
    mixed_prefix(tracks, volumes, tracks.len(), j)
}

/// The length of the longest of the first `n` tracks.
pub open spec fn longest_prefix(tracks: Seq<Seq<i32>>, n: nat) -> nat
    decreases n,
{
    if n == 0 {
        0
    } else {
        let rest = longest_prefix(tracks, (n - 1) as nat);
        if tracks[n - 1].len() > rest {
            tracks[n - 1].len()
        } else {
            rest
        }
    }
}

/// The length of the master buffer: that of the longest track, 0 without
/// tracks.
pub open spec fn master_len(tracks: Seq<Seq<i32>>) -> nat {
    longest_prefix(tracks, tracks.len())
}

/// The mixed samples that a master buffer holds, as numbers.
pub open spec fn values(master: Seq<i128>) -> Seq<int> {
    Seq::new(master.len(), |j: int| master[j] as int)
}

/// The master buffer of a mix.
pub open spec fn mixed(tracks: Seq<Seq<i32>>, volumes: Seq<u8>) -> Seq<int> {
    Seq::new(master_len(tracks), |j: int| mixed_at(tracks, volumes, j))
}

/// Whether `volumes` holds a gain for track `i`.
pub open spec fn has_gain(volumes: Seq<u8>, i: int) -> bool {
    0 <= i < volumes.len()
}

/// Whether every one of `n` tracks has a gain in `volumes`.
pub open spec fn covers(volumes: Seq<u8>, n: nat) -> bool {
    forall|i: int| 0 <= i < n ==> #[trigger] has_gain(volumes, i)
}

/// A gain list covers `n` tracks exactly when it holds at least `n` gains.
pub proof fn lemma_covers(volumes: Seq<u8>, n: nat)
    ensures
        covers(volumes, n) <==> n <= volumes.len(),
{
    if n > volumes.len() {
        assert(!has_gain(volumes, volumes.len() as int));
    }
}

/// The most that one track can add to a mixed sample, in either direction.
pub open spec fn contribution_limit() -> int {
    255int * 0x8000_0000
}

/// What one track adds to a mixed sample lies within the limit.
pub proof fn lemma_contribution_bounded(track: Seq<i32>, volume: u8, j: int)
    ensures
        -contribution_limit() <= contribution(track, volume, j) <= contribution_limit(),
{
    if 0 <= j < track.len() {
        let s: int = track[j] as int;
        let v: int = volume as int;
        assert(-(255 * 0x8000_0000) <= s * v <= 255 * 0x8000_0000) by (nonlinear_arith)
            requires
                -0x8000_0000 <= s < 0x8000_0000,
                0 <= v <= 255,
        ;
    }
}

/// A mixed sample of `n` tracks lies within `n` times the limit of one.
pub proof fn lemma_mixed_prefix_bounded(
    tracks: Seq<Seq<i32>>,
    volumes: Seq<u8>,
    n: nat,
    j: int,
)
    ensures
        -(n * contribution_limit()) <= mixed_prefix(tracks, volumes, n, j) <= n
            * contribution_limit(),
    decreases n,
{
    if n > 0 {
        lemma_mixed_prefix_bounded(tracks, volumes, (n - 1) as nat, j);
        lemma_contribution_bounded(tracks[n - 1], volumes[n - 1], j);
        assert(n * contribution_limit() == (n - 1) * contribution_limit() + contribution_limit())
            by (nonlinear_arith);
    }
}

/// No track among the first `n` is longer than the longest of them, and
/// the longest is as long as one of them.
pub proof fn lemma_longest_prefix(tracks: Seq<Seq<i32>>, n: nat)
    ensures
        forall|i: int| 0 <= i < n ==> (#[trigger] tracks[i]).len() <= longest_prefix(tracks, n),
        n > 0 ==> exists|i: int|
            0 <= i < n && (#[trigger] tracks[i]).len() == longest_prefix(tracks, n),
        n == 0 ==> longest_prefix(tracks, n) == 0,
    decreases n,
{
    if n > 0 {
        lemma_longest_prefix(tracks, (n - 1) as nat);
    }
}

/// The master buffer is as long as the longest track, and holds the mixed
/// sample of each index.
pub proof fn lemma_mixed(tracks: Seq<Seq<i32>>, volumes: Seq<u8>)
    ensures
        mixed(tracks, volumes).len() == master_len(tracks),
        forall|i: int| 0 <= i < tracks.len() ==> (#[trigger] tracks[i]).len() <= master_len(tracks),
        tracks.len() > 0 ==> exists|i: int|
            0 <= i < tracks.len() && (#[trigger] tracks[i]).len() == master_len(tracks),
        tracks.len() == 0 ==> master_len(tracks) == 0,
        forall|j: int|
            0 <= j < master_len(tracks) ==> #[trigger] mixed(tracks, volumes)[j] == mixed_at(
                tracks,
                volumes,
                j,
            ),
{
    lemma_longest_prefix(tracks, tracks.len());
}

/// A single track mixed at unity gain keeps its length, and every mixed
/// sample stands for the amplitude of the track's own sample.
pub proof fn lemma_single_track_at_unity(tracks: Seq<Seq<i32>>, volumes: Seq<u8>)
    requires
        tracks.len() == 1,
        volumes.len() >= 1,
        volumes[0] == UNITY_GAIN,
    ensures
        mixed(tracks, volumes).len() == tracks[0].len(),
        forall|j: int|
            0 <= j < tracks[0].len() ==> #[trigger] mixed(tracks, volumes)[j] == tracks[0][j]
                * UNITY_GAIN,
{
    reveal_with_fuel(longest_prefix, 2);
    reveal_with_fuel(mixed_prefix, 2);
}

/// Two tracks, the first the shorter: the master buffer is as long as the
/// second, and from the end of the first on it holds the second track's
/// samples scaled by the second track's gain alone.
pub proof fn lemma_longer_track_tail(tracks: Seq<Seq<i32>>, volumes: Seq<u8>)
    requires
        tracks.len() == 2,
        tracks[0].len() < tracks[1].len(),
    ensures
        mixed(tracks, volumes).len() == tracks[1].len(),
        forall|j: int|
            tracks[0].len() <= j < tracks[1].len() ==> #[trigger] mixed(tracks, volumes)[j]
                == tracks[1][j] * volumes[1],
        forall|j: int|
            0 <= j < tracks[0].len() ==> #[trigger] mixed(tracks, volumes)[j] == tracks[0][j]
                * volumes[0] + tracks[1][j] * volumes[1],
{
    reveal_with_fuel(longest_prefix, 3);
    reveal_with_fuel(mixed_prefix, 3);
}

/// One track without a gain is enough for a gain list not to cover the
/// tracks, whichever track it is.
pub proof fn lemma_any_missing_gain(volumes: Seq<u8>, n: nat, i: int)
    requires
        0 <= i < n,
        !has_gain(volumes, i),
    ensures
        !covers(volumes, n),
{
}

fn longest(tracks: &[DecodedTrack]) -> (len: usize)
    ensures
        len == master_len(samples_of(tracks@)),
        len % 2 == 0,
        len <= MAX_TRACK_SAMPLES,
{
    let ghost ts = samples_of(tracks@);
    let mut len: usize = 0;
    let mut i: usize = 0;
    while i < tracks.len()
        invariant
            ts == samples_of(tracks@),
            i <= tracks.len(),
            len == longest_prefix(ts, i as nat),
            len % 2 == 0,
            len <= MAX_TRACK_SAMPLES,
        decreases tracks.len() - i,
    {
        let n: usize = tracks[i].len();
        if n > len {
            len = n;
        }
        i = i + 1;
    }
    len
}

fn silence(len: usize) -> (master: Vec<i128>)
    ensures
        master@.len() == len,
        forall|j: int| 0 <= j < len ==> master@[j] == 0,
{
    let mut master: Vec<i128> = Vec::new();
    let mut j: usize = 0;
    while j < len
        invariant
            j <= len,
            master@.len() == j,
            forall|k: int| 0 <= k < j ==> master@[k] == 0,
        decreases len - j,
    {
        master.push(0);
        j = j + 1;
    }
    master
}

/// Mixes the tracks into a master buffer, track `i` at gain `volumes[i]`.
///
/// A gain list shorter than the track list is rejected, whichever track it
/// is that lacks a gain; gains beyond the last track are ignored. The
/// master buffer is as long as the longest track, and shorter tracks count
/// as silence beyond their end.
pub fn mix(tracks: &[DecodedTrack], volumes: &[u8]) -> (r: Result<Vec<i128>, MixError>)
    ensures
        r is Ok <==> covers(volumes@, tracks@.len()),
        r matches Err(e) ==> e == (MixError::MissingVolume { index: volumes@.len() as usize }),
        r matches Ok(master) ==> {
            &&& values(master@) == mixed(samples_of(tracks@), volumes@)
            &&& master@.len() % 2 == 0
            &&& master@.len() <= MAX_TRACK_SAMPLES
        },
{
    proof {
        lemma_covers(volumes@, tracks@.len());
    }
    if volumes.len() < tracks.len() {
        return Err(MixError::MissingVolume { index: volumes.len() });
    }
    let ghost ts = samples_of(tracks@);
    let len: usize = longest(tracks);
    let mut master: Vec<i128> = silence(len);
    let mut i: usize = 0;
    while i < tracks.len()
        invariant
            ts == samples_of(tracks@),
            tracks@.len() <= volumes@.len(),
            i <= tracks@.len(),
            len == master_len(ts),
            master@.len() == len,
            forall|j: int| 0 <= j < len ==> master@[j] == mixed_prefix(ts, volumes@, i as nat, j),
        decreases tracks.len() - i,
    {
        let samples: &Vec<i32> = tracks[i].samples();
        let volume: u8 = volumes[i];
        let n: usize = samples.len();
        proof {
            lemma_longest_prefix(ts, ts.len());
            assert(ts[i as int].len() <= len);
        }
        let mut j: usize = 0;
        while j < n
            invariant
                ts == samples_of(tracks@),
                i < tracks@.len(),
                i < volumes@.len(),
                volume == volumes@[i as int],
                samples@ == ts[i as int],
                n == samples@.len(),
                n <= len,
                j <= n,
                master@.len() == len,
                forall|k: int|
                    0 <= k < j ==> master@[k] == mixed_prefix(ts, volumes@, (i + 1) as nat, k),
                forall|k: int|
                    j <= k < len ==> master@[k] == mixed_prefix(ts, volumes@, i as nat, k),
            decreases n - j,
        {
            proof {
                lemma_mixed_prefix_bounded(ts, volumes@, i as nat, j as int);
                lemma_contribution_bounded(samples@, volume, j as int);
                assert(i * contribution_limit() <= 0xffff_ffff_ffff_ffff * contribution_limit())
                    by (nonlinear_arith)
                    requires
                        0 <= i <= 0xffff_ffff_ffff_ffff,
                        contribution_limit() >= 0,
                ;
            }
            let scaled: i128 = (samples[j] as i128) * (volume as i128);
            let sum: i128 = master[j] + scaled;
            master.set(j, sum);
            j = j + 1;
        }
        i = i + 1;
    }
    Ok(master)
}

} // verus!
