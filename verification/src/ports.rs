//! What the use cases need from the outside world: installed tools, a save dialog and the
//! release service. The application supplies the implementations.

use vstd::prelude::*;
use crate::entities::{DownloadMode, DownloadPreset, ReleaseInfo};
use crate::errors::DownloaderError;

verus! {

/// Makes sure the external tools are present and tells where they are.
pub trait DependencyPort: Send + Sync {
    fn ensure_yt_dlp(&self) -> Result<String, DownloaderError>;

    fn ensure_ffmpeg(&self) -> Result<String, DownloaderError>;

    fn ensure_ffprobe(&self) -> Result<String, DownloaderError>;

    fn ensure_js_runtime(&self) -> Result<String, DownloaderError>;
}

/// Asks the user where to save a download; `None` when the user cancels.
pub trait SaveDialogPort: Send + Sync {
    fn choose_output_file(&self, mode: DownloadMode, preset: DownloadPreset, url: &str) -> Option<
        String,
    >;
}

/// Looks up the newest published release.
pub trait ReleasePort: Send + Sync {
    fn fetch_latest_release(&self) -> Result<ReleaseInfo, DownloaderError>;
}

} // verus!
