//! The combiner: tracks decoded once, mixed on request.

use crate::decode::decode;
use crate::decode::has_reader;
use crate::error::DecodeError;
use crate::error::MixError;
use crate::file::SingleAudioFile;
use crate::file::SingleAudioFileType;
use crate::mix::covers;
use crate::mix::mix;
use crate::mix::mixed;
use crate::mix::samples_of;
use crate::track::is_track;
use crate::track::DecodedTrack;
use crate::wav::create_wav_container;
use crate::wav::wav_bytes;
use vstd::prelude::*;

verus! {

/// The sample rate that every output is written at. Clips are taken to be
/// at this rate; none is resampled.
pub const SAMPLE_RATE: u32 = 44_100;

/// Whether `size` is the largest of `sizes`: one of them, and no smaller
/// than any.
pub open spec fn is_largest(sizes: Seq<usize>, size: usize) -> bool {
    &&& exists|i: int| 0 <= i < sizes.len() && #[trigger] sizes[i] == size
    &&& forall|i: int| 0 <= i < sizes.len() ==> #[trigger] sizes[i] <= size
}

/// The byte lengths of a list of clips.
pub open spec fn sizes_of(files: Seq<SingleAudioFile>) -> Seq<usize> {
    Seq::new(files.len(), |i: int| files[i].bytes@.len() as usize)
}

/// Takes the outcome of decoding one more clip, of `size` bytes, into the
/// tracks and clip sizes gathered so far: a track is added at the end with
/// its clip's size, and an error is handed on as it is.
pub fn gather(
    tracks: Vec<DecodedTrack>,
    clip_sizes: Vec<usize>,
    size: usize,
    outcome: Result<DecodedTrack, DecodeError>,
) -> (r: Result<(Vec<DecodedTrack>, Vec<usize>), DecodeError>)
    ensures
        outcome matches Err(e) ==> (r matches Err(handed) && handed == e),
        outcome matches Ok(track) ==> (r matches Ok(next) && samples_of(next.0@) == samples_of(
            tracks@,
        ).push(track@) && next.1@ == clip_sizes@.push(size)),
{
    match outcome {
        Err(e) => Err(e),
        Ok(track) => {
            let mut tracks = tracks;
            let mut clip_sizes = clip_sizes;
            let ghost before = samples_of(tracks@);
            tracks.push(track);
            clip_sizes.push(size);
            assert(samples_of(tracks@) == before.push(track@));
            Ok((tracks, clip_sizes))
        },
    }
}

/// A set of clips, decoded and ready to be mixed any number of times.
#[derive(Debug)]
pub struct AudioCombiner {
    tracks: Vec<DecodedTrack>,
    clip_sizes: Vec<usize>,
}

impl View for AudioCombiner {
    type V = Seq<Seq<i32>>;

    /// The samples of the tracks, in the order of the clips.
    closed spec fn view(&self) -> Seq<Seq<i32>> {
        samples_of(self.tracks@)
    }
}

impl AudioCombiner {
    #[verifier::type_invariant]
    spec fn well_formed(self) -> bool {
        self.tracks@.len() == self.clip_sizes@.len()
    }

    /// The byte length of each clip that the combiner was made from.
    pub closed spec fn clip_sizes(&self) -> Seq<usize> {
        self.clip_sizes@
    }

    /// The combiner of tracks that were decoded beforehand, each with the
    /// byte length of the clip that it was decoded from.
    pub fn from_tracks(tracks: Vec<DecodedTrack>, clip_sizes: Vec<usize>) -> (combiner:
        AudioCombiner)
        requires
            tracks@.len() == clip_sizes@.len(),
        ensures
            combiner@ == samples_of(tracks@),
            combiner.clip_sizes() == clip_sizes@,
    {
        AudioCombiner { tracks, clip_sizes }
    }

    /// Decodes every clip, in order, and [`gather`]s each outcome. The first
    /// clip that fails to decode fails the construction with its error; no
    /// combiner is made of the others.
    ///
    /// So a combiner is made only if a reader is found for every clip, and
    /// `UnsupportedContainer` names the first clip for which none is found.
    /// Any other error comes from a clip for which a reader was found, as
    /// it was for all clips before it.
    pub fn new(files: Vec<SingleAudioFile>) -> (r: Result<AudioCombiner, DecodeError>)
        ensures
            files@.len() == 0 ==> r is Ok,
            r matches Ok(combiner) ==> {
                &&& combiner@.len() == files@.len()
                &&& combiner.clip_sizes() == sizes_of(files@)
                &&& forall|i: int| 0 <= i < files@.len() ==> has_reader(#[trigger] files@[i])
                &&& forall|i: int| 0 <= i < files@.len() ==> is_track(#[trigger] combiner@[i])
            },
            r matches Err(e) ==> exists|i: int|
                {
                    &&& 0 <= i < files@.len()
                    &&& has_reader(#[trigger] files@[i]) <==> e != DecodeError::UnsupportedContainer
                    &&& forall|j: int| 0 <= j < i ==> has_reader(#[trigger] files@[j])
                },
    {
        let mut tracks: Vec<DecodedTrack> = Vec::new();
        let mut clip_sizes: Vec<usize> = Vec::new();
        let mut i: usize = 0;
        while i < files.len()
            invariant
                i <= files@.len(),
                tracks@.len() == i,
                samples_of(tracks@).len() == i,
                clip_sizes@ == sizes_of(files@).take(i as int),
                forall|j: int| 0 <= j < i ==> has_reader(#[trigger] files@[j]),
                forall|j: int| 0 <= j < i ==> is_track(#[trigger] samples_of(tracks@)[j]),
            decreases files.len() - i,
        {
            let size: usize = files[i].bytes.len();
            let outcome = decode(&files[i]);
            match gather(tracks, clip_sizes, size, outcome) {
                Ok(next) => {
                    tracks = next.0;
                    clip_sizes = next.1;
                    assert(samples_of(tracks@).len() == tracks@.len());
                },
                Err(e) => {
                    return Err(e);
                },
            }
            assert(clip_sizes@ == sizes_of(files@).take(i + 1));
            i = i + 1;
        }
        assert(sizes_of(files@).take(i as int) == sizes_of(files@));
        Ok(AudioCombiner::from_tracks(tracks, clip_sizes))
    }

    /// Mixes the tracks, track `i` at gain `volumes[i]` percent, and writes
    /// the result as a container at [`SAMPLE_RATE`].
    ///
    /// A gain list shorter than the track list is rejected with
    /// `MissingVolume`, whichever track it is that lacks a gain. The
    /// combiner is left as it is: it can be asked again with other gains.
    pub fn combine(&self, volumes: Vec<u8>) -> (r: Result<SingleAudioFile, MixError>)
        ensures
            r is Ok <==> covers(volumes@, self@.len()),
            r matches Err(e) ==> e == (MixError::MissingVolume { index: volumes@.len() as usize }),
            r matches Ok(file) ==> {
                &&& file.file_type == SingleAudioFileType::Wav
                &&& file.bytes@ == wav_bytes(mixed(self@, volumes@), SAMPLE_RATE)
            },
    {
        let master = match mix(self.tracks.as_slice(), volumes.as_slice()) {
            Ok(master) => master,
            Err(e) => {
                return Err(e);
            },
        };
        let bytes = create_wav_container(master.as_slice(), SAMPLE_RATE);
        Ok(SingleAudioFile { bytes, file_type: SingleAudioFileType::Wav })
    }

    /// The tracks, in the order of the clips.
    pub fn tracks(&self) -> (tracks: &Vec<DecodedTrack>)
        ensures
            samples_of(tracks@) == self@,
    {
        &self.tracks
    }

    /// Number of tracks.
    pub fn track_count(&self) -> (n: usize)
        ensures
            n == self@.len(),
            n == self.clip_sizes().len(),
    {
        proof {
            use_type_invariant(self);
        }
        self.tracks.len()
    }

    /// The byte length of the largest clip that the combiner was made from,
    /// or `None` if it was made from none.
    pub fn largest_clip(&self) -> (r: Option<usize>)
        ensures
            r is None <==> self.clip_sizes().len() == 0,
            r matches Some(size) ==> is_largest(self.clip_sizes(), size),
    {
        if self.clip_sizes.len() == 0 {
            return None;
        }
        let mut largest: usize = self.clip_sizes[0];
        let mut i: usize = 1;
        assert(self.clip_sizes@.take(1)[0] == largest);
        while i < self.clip_sizes.len()
            invariant
                1 <= i <= self.clip_sizes@.len(),
                is_largest(self.clip_sizes@.take(i as int), largest),
            decreases self.clip_sizes.len() - i,
        {
            let ghost seen = self.clip_sizes@.take(i as int);
            let ghost next = self.clip_sizes@.take(i + 1);
            let ghost at = choose|k: int| 0 <= k < seen.len() && #[trigger] seen[k] == largest;
            if self.clip_sizes[i] > largest {
                largest = self.clip_sizes[i];
                assert(next[i as int] == largest);
            } else {
                assert(next[at] == largest);
            }
            assert forall|k: int| 0 <= k < next.len() implies #[trigger] next[k] <= largest by {
                if k < i {
                    assert(next[k] == seen[k]);
                }
            }
            i = i + 1;
        }
        assert(self.clip_sizes@.take(i as int) == self.clip_sizes@);
        Some(largest)
    }
}

} // verus!
