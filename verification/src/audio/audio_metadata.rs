//! Metadata of an audio file and the size of the file, as far as a look at
//! the file system gave it.

use vstd::prelude::*;
use vstd::string::StringExecFns;

verus! {

/// What is known of an audio file: where it lies, its samples per second
/// and its channels.
#[derive(Debug, PartialEq, Eq)]
pub struct AudioMetadata {
    pub path: String,
    pub sample_rate: u32,
    pub channels: u16,
}

/// Why the size of an audio file could not be told.
#[derive(Debug, PartialEq, Eq)]
pub enum AudioMetadataError {
    /// Nothing lies at the path.
    FileNotFound(String),
    /// The file at the path could not be read; with the reason.
    IoError(String, String),
}

/// The message for a file that was not found.
pub open spec fn not_found_text(path: Seq<char>) -> Seq<char> {
    "File not found: "@ + path
}

/// The message for a file that could not be read.
pub open spec fn io_error_text(path: Seq<char>, reason: Seq<char>) -> Seq<char> {
    "IO error while reading "@ + path + ": "@ + reason
}

impl AudioMetadataError {
    /// The message shown to a user.
    pub fn message(&self) -> (m: String)
        ensures
            m@ == match *self {
                AudioMetadataError::FileNotFound(path) => not_found_text(path@),
                AudioMetadataError::IoError(path, reason) => io_error_text(path@, reason@),
            },
    {
        match self {
            AudioMetadataError::FileNotFound(path) => {
                let mut m = "File not found: ".to_string();
                m.append(path.as_str());
                m
            },
            AudioMetadataError::IoError(path, reason) => {
                let mut m = "IO error while reading ".to_string();
                m.append(path.as_str());
                m.append(": ");
                m.append(reason.as_str());
                m
            },
        }
    }
}

impl AudioMetadata {
    /// The metadata of the file at `path`.
    pub fn new(path: &str, sample_rate: u32, channels: u16) -> (metadata: Self)
        ensures
            metadata.path@ == path@,
            metadata.sample_rate == sample_rate,
            metadata.channels == channels,
    {
        AudioMetadata { path: path.to_string(), sample_rate, channels }
    }

    /// The size of the file in bytes, from what a look at the file system
    /// gave: whether something lies at the path and, if so, the size that
    /// was read or the reason why none was. A missing file is reported
    /// before anything else.
    pub fn file_size_bytes(&self, exists: bool, probed: Result<u64, String>) -> (r: Result<
        u64,
        AudioMetadataError,
    >)
        ensures
            match r {
                Ok(size) => exists && probed == Ok::<u64, String>(size),
                Err(AudioMetadataError::FileNotFound(p)) => !exists && p@ == self.path@,
                Err(AudioMetadataError::IoError(p, why)) => exists && p@ == self.path@ && (
                match probed {
                    Ok(_) => false,
                    Err(reason) => why@ == reason@,
                }),
            },
    {
        if !exists {
            return Err(AudioMetadataError::FileNotFound(self.path.clone()));
        }
        match probed {
            Ok(size) => Ok(size),
            Err(reason) => Err(AudioMetadataError::IoError(self.path.clone(), reason)),
        }
    }
}

} // verus!
