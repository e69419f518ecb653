use pullyt::entities::{AudioQuality, DownloadMode, DownloadPreset, Provider, VideoQuality};
use pullyt::payload::{
    choose_browser, parse_audio_quality, parse_cookies_from_browser, parse_mode, parse_preset,
    parse_video_quality, DownloadRequestPayload,
};

fn payload(mode: &str, preset: &str, video: &str, audio: &str, cookies: &str) -> DownloadRequestPayload {
    DownloadRequestPayload {
        url: "https://youtu.be/xyz".to_string(),
        mode: mode.to_string(),
        preset: preset.to_string(),
        video_quality: video.to_string(),
        audio_quality: audio.to_string(),
        cookies_from_browser: cookies.to_string(),
    }
}

#[test]
fn modes_and_presets() {
    assert_eq!(parse_mode("video_with_audio"), Ok(DownloadMode::VideoWithAudio));
    assert_eq!(parse_mode("audio_only_mp3"), Ok(DownloadMode::AudioOnlyMp3));
    assert_eq!(parse_mode("Video_with_audio"), Err("invalid mode: Video_with_audio".to_string()));
    assert_eq!(parse_preset("compatibility"), Ok(DownloadPreset::Compatibility));
    assert_eq!(parse_preset("max_quality"), Ok(DownloadPreset::MaxQuality));
    assert_eq!(parse_preset(""), Err("invalid preset: ".to_string()));
}

#[test]
fn qualities() {
    assert_eq!(parse_video_quality("best"), Ok(VideoQuality::Best));
    assert_eq!(parse_video_quality("p1080"), Ok(VideoQuality::P1080));
    assert_eq!(parse_video_quality("p720"), Ok(VideoQuality::P720));
    assert_eq!(parse_video_quality("p480"), Ok(VideoQuality::P480));
    assert_eq!(parse_video_quality("p360"), Err("invalid video quality: p360".to_string()));
    assert_eq!(parse_audio_quality("best"), Ok(AudioQuality::Best));
    assert_eq!(parse_audio_quality("k320"), Ok(AudioQuality::K320));
    assert_eq!(parse_audio_quality("k192"), Ok(AudioQuality::K192));
    assert_eq!(parse_audio_quality("k128"), Ok(AudioQuality::K128));
    assert_eq!(parse_audio_quality("k64"), Err("invalid audio quality: k64".to_string()));
}

#[test]
fn cookie_browser_is_trimmed_and_lowercased() {
    assert_eq!(parse_cookies_from_browser("  Chrome \n"), Some("chrome".to_string()));
    assert_eq!(parse_cookies_from_browser("FIREFOX"), Some("firefox".to_string()));
    assert_eq!(parse_cookies_from_browser(" NoNe "), None);
    assert_eq!(parse_cookies_from_browser("   "), None);
    assert_eq!(parse_cookies_from_browser(""), None);
    assert_eq!(choose_browser("none".to_string()), None);
    assert_eq!(choose_browser("None".to_string()), Some("None".to_string()));
    assert_eq!(choose_browser(String::new()), None);
}

#[test]
fn into_domain_builds_the_request() {
    let req = payload("audio_only_mp3", "max_quality", "p480", "k320", " Edge ").into_domain().unwrap();
    assert_eq!(req.provider, Provider::YouTube);
    assert_eq!(req.mode, DownloadMode::AudioOnlyMp3);
    assert_eq!(req.preset, DownloadPreset::MaxQuality);
    assert_eq!(req.video_quality, VideoQuality::P480);
    assert_eq!(req.audio_quality, AudioQuality::K320);
    assert_eq!(req.url, "https://youtu.be/xyz");
    assert_eq!(req.output_path, "");
    assert_eq!(req.cookies_from_browser.as_deref(), Some("edge"));
}

#[test]
fn into_domain_reports_the_first_bad_choice() {
    let e = payload("bad", "bad", "bad", "bad", "").into_domain().unwrap_err();
    assert_eq!(e, "invalid mode: bad");
    let e = payload("video_with_audio", "bad", "bad", "bad", "").into_domain().unwrap_err();
    assert_eq!(e, "invalid preset: bad");
    let e = payload("video_with_audio", "compatibility", "bad", "bad", "").into_domain().unwrap_err();
    assert_eq!(e, "invalid video quality: bad");
    let e = payload("video_with_audio", "compatibility", "best", "bad", "").into_domain().unwrap_err();
    assert_eq!(e, "invalid audio quality: bad");
    let ok = payload("video_with_audio", "compatibility", "best", "best", "none").into_domain().unwrap();
    assert_eq!(ok.cookies_from_browser, None);
}
