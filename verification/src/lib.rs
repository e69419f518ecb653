//! Decisions and text handling of a desktop media downloader: the bounded
//! debug log, release-version comparison, the command lines handed to the
//! downloader tool, and the validation of requests coming from the interface.

pub mod debug_logs;
pub mod entities;
pub mod errors;
pub mod payload;
pub mod ports;
pub mod releases;
pub mod text;
pub mod use_cases;
pub mod version;
pub mod yt_dlp;
