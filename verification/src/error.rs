//! The library's error taxonomy. Errors carried by outside crates are mapped
//! to these kinds, with their text where a caller shows it.
use vstd::prelude::*;

verus! {

/// Every way loading or playing can fail.
#[derive(Debug)]
pub enum Error {
    /// A transport or file error ended the stream.
    Io(String),
    /// The initial request for a remote object failed.
    Http(String),
    /// A line of extractor output was not the JSON object expected.
    Parse(String),
    /// The media extractor reported an error for the request.
    Extractor(String),
    /// The URL cannot be played: it does not resolve, or its host is on the
    /// blocklist.
    UnsupportedUrl,
    /// The extractor produced no output at all.
    NoDataProvided,
    /// The media had no playable track.
    NoTracks,
    /// Probing the container did not finish within the scan timeout.
    ScanTimedOut,
    /// The resampler could not be built for the track's rates.
    ResamplerConstruction,
    /// Resampling failed mid-track.
    Resample,
    /// A packet could not be decoded.
    Decode(String),
    /// A background task failed or was torn down.
    Runtime(String),
    /// Joining the voice room failed.
    VoiceJoin(String),
    /// Controlling playback in the voice room failed.
    VoiceControl(String),
}

} // verus!
