use std::sync::{Arc, Mutex};

use pullyt::debug_logs::{read_since, DebugLog};
use pullyt::entities::{
    AudioQuality, DownloadMode, DownloadPreset, DownloadRequest, Provider, ReleaseInfo, UpdateStatus, VideoQuality,
};
use pullyt::errors::DownloaderError;
use pullyt::ports::{DependencyPort, ReleasePort};
use pullyt::releases::release_from_tag;
use pullyt::use_cases::{apply_save_choice, decide_update, BootstrapDependenciesUseCase, CheckForUpdatesUseCase};

struct FixedRelease(Option<&'static str>);

impl ReleasePort for FixedRelease {
    fn fetch_latest_release(&self) -> Result<ReleaseInfo, DownloaderError> {
        match self.0 {
            Some(v) => Ok(ReleaseInfo { version: v.to_string(), url: "https://example.org/r".to_string() }),
            None => Err(DownloaderError::ReleaseCheckFailed("offline".to_string())),
        }
    }
}

fn check(current: &str, latest: Option<&'static str>) -> UpdateStatus {
    let port: Arc<dyn ReleasePort> = Arc::new(FixedRelease(latest));
    CheckForUpdatesUseCase::new(port, current.to_string()).execute()
}

#[test]
fn newer_release_is_offered() {
    match check("1.1.0", Some("1.2.0")) {
        UpdateStatus::UpdateAvailable(r) => {
            assert_eq!(r.version, "1.2.0");
            assert_eq!(r.url, "https://example.org/r");
        }
        other => panic!("unexpected {other:?}"),
    }
    assert!(matches!(check("1.9.0", Some("1.10.0")), UpdateStatus::UpdateAvailable(_)));
    assert!(matches!(check("v1.1", Some("1.1.1")), UpdateStatus::UpdateAvailable(_)));
}

#[test]
fn same_or_older_release_is_up_to_date() {
    assert!(matches!(check("1.1.0", Some("1.1.0")), UpdateStatus::UpToDate));
    assert!(matches!(check("v1.1.0", Some("1.1.0")), UpdateStatus::UpToDate));
    assert!(matches!(check("1.2.0", Some("1.1.9")), UpdateStatus::UpToDate));
    assert!(matches!(check("1.10.0", Some("1.9.0")), UpdateStatus::UpToDate));
}

#[test]
fn no_update_back_after_upgrading() {
    assert!(matches!(check("1.1.0", Some("1.2.0")), UpdateStatus::UpdateAvailable(_)));
    assert!(matches!(check("1.2.0", Some("1.1.0")), UpdateStatus::UpToDate));
}

#[test]
fn failed_lookup_is_up_to_date() {
    assert!(matches!(check("1.0.0", None), UpdateStatus::UpToDate));
    assert!(matches!(
        decide_update("0.1", Err(DownloaderError::ProcessFailed("x".to_string()))),
        UpdateStatus::UpToDate
    ));
}

#[test]
fn release_tag_loses_one_leading_v() {
    let r = release_from_tag("v1.2.3", "https://example.org/tag".to_string());
    assert_eq!(r.version, "1.2.3");
    assert_eq!(r.url, "https://example.org/tag");
    assert_eq!(release_from_tag("1.2.3", String::new()).version, "1.2.3");
    assert_eq!(release_from_tag("vv2", String::new()).version, "v2");
    assert_eq!(release_from_tag("", String::new()).version, "");
}

struct Tools {
    fail_at: Option<usize>,
    asked: Mutex<Vec<&'static str>>,
}

impl Tools {
    fn answer(&self, name: &'static str) -> Result<String, DownloaderError> {
        let mut asked = self.asked.lock().unwrap();
        asked.push(name);
        if self.fail_at == Some(asked.len()) {
            Err(DownloaderError::ProcessFailed(format!("{name} missing")))
        } else {
            Ok(format!("/opt/{name}"))
        }
    }
}

impl DependencyPort for Tools {
    fn ensure_yt_dlp(&self) -> Result<String, DownloaderError> {
        self.answer("yt-dlp")
    }
    fn ensure_ffmpeg(&self) -> Result<String, DownloaderError> {
        self.answer("ffmpeg")
    }
    fn ensure_ffprobe(&self) -> Result<String, DownloaderError> {
        self.answer("ffprobe")
    }
    fn ensure_js_runtime(&self) -> Result<String, DownloaderError> {
        self.answer("deno")
    }
}

#[test]
fn bootstrap_reports_all_three_tools() {
    let tools = Arc::new(Tools { fail_at: None, asked: Mutex::new(Vec::new()) });
    let mut log = DebugLog::new();
    pullyt::debug_logs::write(&mut log, "before");
    let report = BootstrapDependenciesUseCase::new(tools.clone()).execute(&mut log).unwrap();
    assert_eq!(report.yt_dlp, "/opt/yt-dlp");
    assert_eq!(report.ffmpeg, "/opt/ffmpeg");
    assert_eq!(report.ffprobe, "/opt/ffprobe");
    assert_eq!(*tools.asked.lock().unwrap(), vec!["yt-dlp", "ffmpeg", "ffprobe"]);
    let lines: Vec<(u64, String)> = read_since(&log, 1).into_iter().map(|e| (e.id, e.message)).collect();
    assert_eq!(
        lines,
        vec![
            (2, "[deps] bootstrap: ensure yt-dlp".to_string()),
            (3, "[deps] bootstrap: yt-dlp ready at /opt/yt-dlp".to_string()),
            (4, "[deps] bootstrap: ensure ffmpeg".to_string()),
            (5, "[deps] bootstrap: ffmpeg ready at /opt/ffmpeg".to_string()),
            (6, "[deps] bootstrap: ensure ffprobe".to_string()),
            (7, "[deps] bootstrap: ffprobe ready at /opt/ffprobe".to_string()),
        ]
    );
}

#[test]
fn bootstrap_stops_at_first_failure() {
    let tools = Arc::new(Tools { fail_at: Some(2), asked: Mutex::new(Vec::new()) });
    let mut log = DebugLog::new();
    match BootstrapDependenciesUseCase::new(tools.clone()).execute(&mut log) {
        Err(DownloaderError::ProcessFailed(m)) => assert_eq!(m, "ffmpeg missing"),
        other => panic!("unexpected {other:?}"),
    }
    assert_eq!(*tools.asked.lock().unwrap(), vec!["yt-dlp", "ffmpeg"]);
    let lines: Vec<String> = read_since(&log, 0).into_iter().map(|e| e.message).collect();
    assert_eq!(
        lines,
        vec![
            "[deps] bootstrap: ensure yt-dlp",
            "[deps] bootstrap: yt-dlp ready at /opt/yt-dlp",
            "[deps] bootstrap: ensure ffmpeg",
        ]
    );
}

#[test]
fn bootstrap_failing_first_logs_one_line() {
    let tools = Arc::new(Tools { fail_at: Some(1), asked: Mutex::new(Vec::new()) });
    let mut log = DebugLog::new();
    assert!(BootstrapDependenciesUseCase::new(tools).execute(&mut log).is_err());
    let lines: Vec<String> = read_since(&log, 0).into_iter().map(|e| e.message).collect();
    assert_eq!(lines, vec!["[deps] bootstrap: ensure yt-dlp"]);
}

#[test]
fn cloned_values_keep_their_fields() {
    let r = ReleaseInfo { version: "1.2".to_string(), url: "u".to_string() };
    let c = r.clone();
    assert_eq!(c.version, "1.2");
    assert!(matches!(UpdateStatus::UpdateAvailable(c).clone(), UpdateStatus::UpdateAvailable(x) if x.url == "u"));
}

#[test]
fn save_choice_sets_output_or_cancels() {
    let req = DownloadRequest {
        provider: Provider::YouTube,
        mode: DownloadMode::VideoWithAudio,
        preset: DownloadPreset::default(),
        video_quality: VideoQuality::Best,
        audio_quality: AudioQuality::Best,
        url: "u".to_string(),
        output_path: String::new(),
        cookies_from_browser: None,
    };
    assert_eq!(req.preset, DownloadPreset::Compatibility);
    let chosen = apply_save_choice(req, Some("/home/me/v.mp4".to_string())).unwrap();
    assert_eq!(chosen.output_path, "/home/me/v.mp4");
    assert_eq!(chosen.url, "u");
    let again = DownloadRequest { output_path: String::new(), ..chosen };
    assert!(matches!(apply_save_choice(again, None), Err(DownloaderError::SaveCanceled)));
}
