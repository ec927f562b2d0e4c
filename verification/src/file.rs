//! Audio clips as they enter and leave the pipeline: bytes with a format tag.

use vstd::prelude::*;

verus! {

/// The container format of a clip.
#[derive(Clone, Copy, Debug, PartialEq, Eq, Structural)]
pub enum SingleAudioFileType {
    /// Uncompressed PCM in a RIFF/WAVE container.
    Wav,
    /// MPEG audio (MP3).
    Mpeg,
    /// Vorbis in an Ogg container. `decode` refuses clips in this
    /// container: the promise that a call returns cannot be given for
    /// symphonia's Ogg reader. A caller who will go without it decodes such
    /// a clip by its own calls, as `intake` describes.
    Ogg,
}

/// The file extension that the format is known by.
pub open spec fn extension_of(file_type: SingleAudioFileType) -> Seq<char> {
    match file_type {
        SingleAudioFileType::Wav => "wav"@,
        SingleAudioFileType::Mpeg => "mp3"@,
        SingleAudioFileType::Ogg => "ogg"@,
    }
}

impl SingleAudioFileType {
    /// The file extension that the format is known by, handed to the
    /// demuxer probe as a hint.
    pub fn extension(self) -> (ext: &'static str)
        ensures
            ext@ == extension_of(self),
    {
        match self {
            SingleAudioFileType::Wav => "wav",
            SingleAudioFileType::Mpeg => "mp3",
            SingleAudioFileType::Ogg => "ogg",
        }
    }
}

/// An encoded clip: its bytes and the format they are declared to be in.
#[derive(Debug)]
pub struct SingleAudioFile {
    pub bytes: Vec<u8>,
    pub file_type: SingleAudioFileType,
}

impl SingleAudioFile {
    pub fn new(bytes: Vec<u8>, file_type: SingleAudioFileType) -> (file: Self)
        ensures
            file.bytes == bytes,
            file.file_type == file_type,
    {
        Self { bytes, file_type }
    }
}

} // verus!
