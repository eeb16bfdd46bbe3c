//! Error types for the organizer.
//!
//! Setup-fatal conditions propagate to the caller; per-file conditions
//! are carried in results and never abort a run.

use vstd::prelude::*;

verus! {

/// Main error type of the library.
#[derive(Debug, Clone)]
pub enum Error {
    /// An underlying I/O failure, with its message.
    Io(String),
    /// Image metadata could not supply a timestamp.
    ExifRead { path: String, message: String },
    /// A timestamp string could not be parsed.
    TimestampParse { source_info: String, message: String },
    /// Video metadata could not supply a timestamp.
    VideoMetadata { path: String, message: String },
    /// Content hashing failed for a file.
    HashComputation { path: String, message: String },
    /// The persisted state could not be read or written.
    StateFile(String),
    /// The configuration is unusable.
    Config(String),
    /// A duplicate file was detected.
    DuplicateFile { original: String, duplicate: String },
    /// The file's format is not recognized.
    UnsupportedFormat { path: String },
    /// The external video metadata probe is not installed.
    FfprobeNotFound,
}

impl Error {
    /// The human-readable text of this error.
    pub open spec fn message_spec(self) -> Seq<char> {
        match self {
            Error::Io(m) => "IO error: "@ + m@,
            Error::ExifRead { path, message } => "Failed to read EXIF data from "@ + path@ + ": "@
                + message@,
            Error::TimestampParse { source_info, message } => "Failed to parse timestamp from "@
                + source_info@ + ": "@ + message@,
            Error::VideoMetadata { path, message } => "Failed to extract video metadata from "@
                + path@ + ": "@ + message@,
            Error::HashComputation { path, message } => "File hash computation failed for "@
                + path@ + ": "@ + message@,
            Error::StateFile(m) => "State file error: "@ + m@,
            Error::Config(m) => "Configuration error: "@ + m@,
            Error::DuplicateFile { original, duplicate } => "Duplicate file detected: "@
                + original@ + " and "@ + duplicate@,
            Error::UnsupportedFormat { path } => "Unsupported file format: "@ + path@,
            Error::FfprobeNotFound
                => "FFprobe not found. Please install FFmpeg and ensure ffprobe is in PATH"@,
        }
    }

    /// Render the error as text.
    pub fn message(&self) -> (r: String)
        ensures
            r@ == self.message_spec(),
    {
        match self {
            Error::Io(m) => String::from_str("IO error: ").concat(m.as_str()),
            Error::ExifRead { path, message } => String::from_str("Failed to read EXIF data from ")
                .concat(path.as_str()).concat(": ").concat(message.as_str()),
            Error::TimestampParse { source_info, message } => String::from_str(
                "Failed to parse timestamp from ",
            ).concat(source_info.as_str()).concat(": ").concat(message.as_str()),
            Error::VideoMetadata { path, message } => String::from_str(
                "Failed to extract video metadata from ",
            ).concat(path.as_str()).concat(": ").concat(message.as_str()),
            Error::HashComputation { path, message } => String::from_str(
                "File hash computation failed for ",
            ).concat(path.as_str()).concat(": ").concat(message.as_str()),
            Error::StateFile(m) => String::from_str("State file error: ").concat(m.as_str()),
            Error::Config(m) => String::from_str("Configuration error: ").concat(m.as_str()),
            Error::DuplicateFile { original, duplicate } => String::from_str(
                "Duplicate file detected: ",
            ).concat(original.as_str()).concat(" and ").concat(duplicate.as_str()),
            Error::UnsupportedFormat { path } => String::from_str("Unsupported file format: ")
                .concat(path.as_str()),
            Error::FfprobeNotFound => String::from_str(
                "FFprobe not found. Please install FFmpeg and ensure ffprobe is in PATH",
            ),
        }
    }
}

} // verus!
