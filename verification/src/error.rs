//! The error taxonomy of the pipeline.  Every error is fatal only to the job
//! it arose in; the dispatcher recovers at the job boundary.

use vstd::prelude::*;

verus! {

/// Everything that can go wrong while producing a contact sheet.
#[derive(Debug, Clone)]
pub enum Error {
    /// An I/O operation failed; the message is the reporting layer's text.
    Io { msg: String },
    /// A configuration file could not be read or parsed.
    Config { msg: String },
    /// The given path exists but is not a regular file.
    NotAFile { path: String },
    /// The container has no usable video track.
    NoVideoStream { path: String },
    /// The media engine has no filter under this name.
    NoSuchFilter { filter_name: String },
    /// Constructing a decoder from the stream parameters failed.
    CorruptStream { path: String },
    /// Seeking or decoding failed mid-extraction; no partial output is kept.
    DecodeFailure { path: String, timestamp: i64 },
    /// The input file vanished between discovery and processing.
    MissingFile { path: String },
    /// The filter chain could not be built or validated.
    FilterGraph { msg: String },
    /// The schedule for this video is empty (no usable duration), so there is
    /// nothing to capture.
    EmptySchedule { path: String },
    /// A failure reported by the media engine, carried as its message.
    Ffmpeg { msg: String },
    /// Any other failure, carried as a message.
    Other { msg: String },
}

} // verus!
