use pullyt::entities::{AudioQuality, DownloadMode, DownloadPreset, DownloadRequest, Provider, VideoQuality};
use pullyt::errors::DownloaderError;
use pullyt::yt_dlp::{
    audio_quality_value, cookies_from_browser_args, download_args, download_failure_message,
    js_runtime_args, merge_format, progress_number, title_args, title_from_output,
    video_audio_format,
};

fn request(mode: DownloadMode, preset: DownloadPreset, cookies: Option<&str>) -> DownloadRequest {
    DownloadRequest {
        provider: Provider::YouTube,
        mode,
        preset,
        video_quality: VideoQuality::P720,
        audio_quality: AudioQuality::K192,
        url: "https://www.youtube.com/watch?v=abc".to_string(),
        output_path: "/tmp/out.mp4".to_string(),
        cookies_from_browser: cookies.map(|c| c.to_string()),
    }
}

#[test]
fn format_max_quality() {
    assert_eq!(
        video_audio_format(VideoQuality::Best, AudioQuality::Best, DownloadPreset::MaxQuality),
        "bestvideo+bestaudio/best"
    );
    assert_eq!(
        video_audio_format(VideoQuality::P480, AudioQuality::K128, DownloadPreset::MaxQuality),
        "bestvideo[height<=480]+bestaudio[abr<=128]/best"
    );
}

#[test]
fn format_compatibility() {
    assert_eq!(
        video_audio_format(VideoQuality::P1080, AudioQuality::K320, DownloadPreset::Compatibility),
        "bestvideo[ext=mp4][vcodec^=avc1][height<=1080]+bestaudio[ext=m4a][abr<=320]/bestvideo[height<=1080]+bestaudio[abr<=320]/best[ext=mp4]/best"
    );
    assert_eq!(
        video_audio_format(VideoQuality::Best, AudioQuality::Best, DownloadPreset::Compatibility),
        "bestvideo[ext=mp4][vcodec^=avc1]+bestaudio[ext=m4a]/bestvideo+bestaudio/best[ext=mp4]/best"
    );
}

#[test]
fn merge_and_audio_values() {
    assert_eq!(merge_format(DownloadPreset::Compatibility), "mp4");
    assert_eq!(merge_format(DownloadPreset::MaxQuality), "mkv");
    assert_eq!(audio_quality_value(AudioQuality::Best), "0");
    assert_eq!(audio_quality_value(AudioQuality::K320), "320K");
    assert_eq!(audio_quality_value(AudioQuality::K192), "192K");
    assert_eq!(audio_quality_value(AudioQuality::K128), "128K");
}

#[test]
fn cookies_and_runtime_args() {
    assert_eq!(cookies_from_browser_args(None), Vec::<String>::new());
    assert_eq!(cookies_from_browser_args(Some("  \t")), Vec::<String>::new());
    assert_eq!(cookies_from_browser_args(Some(" firefox")), vec!["--cookies-from-browser", " firefox"]);
    assert_eq!(js_runtime_args(""), Vec::<String>::new());
    assert_eq!(js_runtime_args("\u{3000}"), Vec::<String>::new());
    assert_eq!(js_runtime_args("node"), vec!["--js-runtimes", "node"]);
}

#[test]
fn title_lookup_args() {
    assert_eq!(
        title_args("URL", Some("chrome"), "deno"),
        vec!["--ignore-config", "--flat-playlist", "--print", "%(title)s", "--cookies-from-browser", "chrome", "--js-runtimes", "deno", "URL"]
    );
    assert_eq!(title_args("URL", None, " "), vec!["--ignore-config", "--flat-playlist", "--print", "%(title)s", "URL"]);
}

#[test]
fn audio_download_args() {
    let r = request(DownloadMode::AudioOnlyMp3, DownloadPreset::Compatibility, None);
    assert_eq!(
        download_args(&r, "/opt/ffmpeg", ""),
        vec![
            "--newline", "--ignore-config", "--progress", "--ffmpeg-location", "/opt/ffmpeg", "-o", "/tmp/out.mp4",
            "https://www.youtube.com/watch?v=abc", "-x", "--audio-format", "mp3", "--audio-quality", "192K",
        ]
    );
}

#[test]
fn video_download_args() {
    let r = request(DownloadMode::VideoWithAudio, DownloadPreset::MaxQuality, Some("brave"));
    assert_eq!(
        download_args(&r, "ff", "node"),
        vec![
            "--newline", "--ignore-config", "--progress", "--ffmpeg-location", "ff", "-o", "/tmp/out.mp4",
            "--cookies-from-browser", "brave", "--js-runtimes", "node",
            "https://www.youtube.com/watch?v=abc", "-f", "bestvideo[height<=720]+bestaudio[abr<=192]/best",
            "--merge-output-format", "mkv",
        ]
    );
}

#[test]
fn title_output_handling() {
    match title_from_output(true, "  My Video \n", "") {
        Ok(t) => assert_eq!(t, "My Video"),
        Err(e) => panic!("unexpected {e:?}"),
    }
    match title_from_output(true, " \n ", "") {
        Err(DownloaderError::ProcessFailed(m)) => assert_eq!(m, "empty title"),
        other => panic!("unexpected {other:?}"),
    }
    match title_from_output(false, "ignored", " ERROR: private video\n") {
        Err(DownloaderError::ProcessFailed(m)) => assert_eq!(m, " ERROR: private video\n"),
        other => panic!("unexpected {other:?}"),
    }
}

#[test]
fn failure_messages() {
    assert_eq!(download_failure_message("exit status: 1", "  \n"), "yt-dlp exited with exit status: 1");
    assert_eq!(
        download_failure_message("exit status: 2", "\nERROR: no such format\n"),
        "yt-dlp exited with exit status: 2: ERROR: no such format"
    );
}

#[test]
fn progress_lines() {
    assert_eq!(progress_number("[download]  42.5% of 10.00MiB at 1.00MiB/s ETA 00:05").as_deref(), Some("42.5"));
    assert_eq!(progress_number("[download] 100% of 3.2MiB").as_deref(), Some("100"));
    assert_eq!(progress_number("[download] Destination: file.mp4"), None);
    assert_eq!(progress_number("[info] 50% done"), None);
    assert_eq!(progress_number("[download] % weird").as_deref(), Some("[download]"));
    assert_eq!(progress_number("[download]   %"), Some("[download]".to_string()));
    assert_eq!(progress_number("   % [download]"), None);
    assert_eq!(progress_number("[download]5%"), Some("[download]5".to_string()));
    assert_eq!(progress_number("x 7% then [download]"), Some("7".to_string()));
}
