//! Failures of the downloader's operations.

use vstd::prelude::*;

verus! {

/// Why an operation of the downloader failed.
#[derive(Debug)]
pub enum DownloaderError {
    /// The user closed the save dialog without choosing a file.
    SaveCanceled,
    /// The release service could not be reached or answered unexpectedly.
    ReleaseCheckFailed(String),
    /// The downloader tool could not be run or reported a failure.
    ProcessFailed(String),
}

} // verus!
