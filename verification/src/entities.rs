//! The values that the downloader's use cases exchange.

use vstd::prelude::*;

verus! {

/// The site a download comes from.
#[derive(Debug, Clone, Copy, PartialEq, Eq, Structural)]
pub enum Provider {
    YouTube,
}

/// What a download keeps: the video with its audio, or the audio alone as MP3.
#[derive(Debug, Clone, Copy, PartialEq, Eq, Structural)]
pub enum DownloadMode {
    VideoWithAudio,
    AudioOnlyMp3,
}

/// How formats are chosen: widely playable MP4/M4A first, or the best available.
#[derive(Debug, Clone, Copy, PartialEq, Eq, Structural)]
pub enum DownloadPreset {
    Compatibility,
    MaxQuality,
}

impl Default for DownloadPreset {
    fn default() -> (r: Self)
        ensures
            r == DownloadPreset::Compatibility,
    {
        DownloadPreset::Compatibility
    }
}

/// The highest video resolution wanted.
#[derive(Debug, Clone, Copy, PartialEq, Eq, Structural)]
pub enum VideoQuality {
    Best,
    P1080,
    P720,
    P480,
}

/// The highest audio bit rate wanted.
#[derive(Debug, Clone, Copy, PartialEq, Eq, Structural)]
pub enum AudioQuality {
    Best,
    K320,
    K192,
    K128,
}

/// A download as the user asked for it.
#[derive(Debug, Clone)]
pub struct DownloadRequest {
    pub provider: Provider,
    pub mode: DownloadMode,
    pub preset: DownloadPreset,
    pub video_quality: VideoQuality,
    pub audio_quality: AudioQuality,
    pub url: String,
    pub output_path: String,
    pub cookies_from_browser: Option<String>,
}

/// The newest published release of the application.
#[derive(Debug, Clone)]
pub struct ReleaseInfo {
    pub version: String,
    pub url: String,
}

/// The outcome of an update check.
#[derive(Debug, Clone)]
pub enum UpdateStatus {
    UpToDate,
    UpdateAvailable(ReleaseInfo),
}

} // verus!
