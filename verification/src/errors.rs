//! The error taxonomy of a synchronization run. Every variant is fatal to
//! the run; the rate-limit signal from the content service is not an error
//! and is handled by the backoff policy instead.

use vstd::prelude::*;

verus! {

/// A fatal error of a synchronization run, carrying the plain values a
/// caller needs to report it.
#[derive(Debug)]
pub enum SyncError {
    /// The metadata service could not be reached for a stream, or answered
    /// with a non-2xx status.
    StreamFetch { stream: String },
    /// The metadata service answered 2xx for a stream, but the response
    /// carried no data payload.
    StreamDataMissing { stream: String },
    /// A record's timestamp was not a valid RFC 3339 instant, or its year
    /// does not fit a four-digit filename prefix.
    TimestampParse { input: String },
    /// The target directory did not exist and could not be created.
    DirectoryCreate { path: String },
    /// The content service answered a non-429, non-2xx status for a replay.
    DownloadHttp { id: String, status: u16 },
    /// A network-level failure while downloading a replay.
    DownloadTransport { id: String },
    /// A stale replay file could not be deleted.
    Prune { path: String },
}

} // verus!
