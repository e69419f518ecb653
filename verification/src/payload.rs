//! Requests as the interface sends them, checked and turned into `DownloadRequest`s.

use vstd::prelude::*;
use crate::entities::{AudioQuality, DownloadMode, DownloadPreset, DownloadRequest, Provider, VideoQuality};
use crate::text::{join_text, str_eq, trim, trimmed};
use crate::yt_dlp::opt_view;

verus! {

/// A download request with every choice still spelled as text.
#[derive(Debug)]
pub struct DownloadRequestPayload {
    pub url: String,
    pub mode: String,
    pub preset: String,
    pub video_quality: String,
    pub audio_quality: String,
    pub cookies_from_browser: String,
}

/// A result whose error text is taken by its view.
pub open spec fn text_err<T>(r: Result<T, String>) -> Result<T, Seq<char>> {
    match r {
        Ok(t) => Ok(t),
        Err(e) => Err(e@),
    }
}

/// The mode that `v` names, or the message that rejects it.
pub open spec fn mode_named(v: Seq<char>) -> Result<DownloadMode, Seq<char>> {
    if v == "video_with_audio"@ {
        Ok(DownloadMode::VideoWithAudio)
    } else if v == "audio_only_mp3"@ {
        Ok(DownloadMode::AudioOnlyMp3)
    } else {
        Err("invalid mode: "@ + v)
    }
}

/// The preset that `v` names, or the message that rejects it.
pub open spec fn preset_named(v: Seq<char>) -> Result<DownloadPreset, Seq<char>> {
    if v == "compatibility"@ {
        Ok(DownloadPreset::Compatibility)
    } else if v == "max_quality"@ {
        Ok(DownloadPreset::MaxQuality)
    } else {
        Err("invalid preset: "@ + v)
    }
}

/// The video quality that `v` names, or the message that rejects it.
pub open spec fn video_quality_named(v: Seq<char>) -> Result<VideoQuality, Seq<char>> {
    if v == "best"@ {
        Ok(VideoQuality::Best)
    } else if v == "p1080"@ {
        Ok(VideoQuality::P1080)
    } else if v == "p720"@ {
        Ok(VideoQuality::P720)
    } else if v == "p480"@ {
        Ok(VideoQuality::P480)
    } else {
        Err("invalid video quality: "@ + v)
    }
}

/// The audio quality that `v` names, or the message that rejects it.
pub open spec fn audio_quality_named(v: Seq<char>) -> Result<AudioQuality, Seq<char>> {
    if v == "best"@ {
        Ok(AudioQuality::Best)
    } else if v == "k320"@ {
        Ok(AudioQuality::K320)
    } else if v == "k192"@ {
        Ok(AudioQuality::K192)
    } else if v == "k128"@ {
        Ok(AudioQuality::K128)
    } else {
        Err("invalid audio quality: "@ + v)
    }
}

/// The lowercase form of `s` in the sense of `str::to_lowercase` (Unicode's
/// `Lowercase` mapping).
pub uninterp spec fn lowercase(s: Seq<char>) -> Seq<char>;

/// `str::to_lowercase`. The contract only names the result: the Unicode case tables it
/// applies are not written out here.
#[verifier::external_body]
fn to_lowercase(s: &str) -> (r: String)
    ensures
        r@ == lowercase(s@),
{
    s.to_lowercase()
}

/// The browser to take cookies from, given the normalized choice: none when it is empty or
/// `none`.
pub open spec fn browser_choice(normalized: Seq<char>) -> Option<Seq<char>> {
    if normalized.len() == 0 || normalized == "none"@ {
        None
    } else {
        Some(normalized)
    }
}

/// The browser to take cookies from, given the already normalized choice.
pub fn choose_browser(normalized: String) -> (r: Option<String>)
    ensures
        opt_view(r) == browser_choice(normalized@),
{
    if normalized.as_str().is_empty() || str_eq(normalized.as_str(), "none") {
        None
    } else {
        Some(normalized)
    }
}

/// The browser to take cookies from: the choice without surrounding white space, in
/// lowercase; none when that is empty or `none`.
pub fn parse_cookies_from_browser(value: &str) -> (r: Option<String>)
    ensures
        opt_view(r) == browser_choice(lowercase(trimmed(value@))),
{
    let t = trim(value);
    let normalized = to_lowercase(t.as_str());
    choose_browser(normalized)
}

/// The download mode named by `value`.
pub fn parse_mode(value: &str) -> (r: Result<DownloadMode, String>)
    ensures
        text_err(r) == mode_named(value@),
{
    if str_eq(value, "video_with_audio") {
        Ok(DownloadMode::VideoWithAudio)
    } else if str_eq(value, "audio_only_mp3") {
        Ok(DownloadMode::AudioOnlyMp3)
    } else {
        Err(join_text("invalid mode: ", value))
    }
}

/// The preset named by `value`.
pub fn parse_preset(value: &str) -> (r: Result<DownloadPreset, String>)
    ensures
        text_err(r) == preset_named(value@),
{
    if str_eq(value, "compatibility") {
        Ok(DownloadPreset::Compatibility)
    } else if str_eq(value, "max_quality") {
        Ok(DownloadPreset::MaxQuality)
    } else {
        Err(join_text("invalid preset: ", value))
    }
}

/// The video quality named by `value`.
pub fn parse_video_quality(value: &str) -> (r: Result<VideoQuality, String>)
    ensures
        text_err(r) == video_quality_named(value@),
{
    if str_eq(value, "best") {
        Ok(VideoQuality::Best)
    } else if str_eq(value, "p1080") {
        Ok(VideoQuality::P1080)
    } else if str_eq(value, "p720") {
        Ok(VideoQuality::P720)
    } else if str_eq(value, "p480") {
        Ok(VideoQuality::P480)
    } else {
        Err(join_text("invalid video quality: ", value))
    }
}

/// The audio quality named by `value`.
pub fn parse_audio_quality(value: &str) -> (r: Result<AudioQuality, String>)
    ensures
        text_err(r) == audio_quality_named(value@),
{
    if str_eq(value, "best") {
        Ok(AudioQuality::Best)
    } else if str_eq(value, "k320") {
        Ok(AudioQuality::K320)
    } else if str_eq(value, "k192") {
        Ok(AudioQuality::K192)
    } else if str_eq(value, "k128") {
        Ok(AudioQuality::K128)
    } else {
        Err(join_text("invalid audio quality: ", value))
    }
}

/// The first rejected choice of a payload, checked in the order mode, preset, video
/// quality, audio quality.
pub open spec fn first_error(p: DownloadRequestPayload) -> Option<Seq<char>> {
    match mode_named(p.mode@) {
        Err(e) => Some(e),
        Ok(_) => match preset_named(p.preset@) {
            Err(e) => Some(e),
            Ok(_) => match video_quality_named(p.video_quality@) {
                Err(e) => Some(e),
                Ok(_) => match audio_quality_named(p.audio_quality@) {
                    Err(e) => Some(e),
                    Ok(_) => None,
                },
            },
        },
    }
}

impl DownloadRequestPayload {
    /// The request the payload describes: a YouTube download of `url` with the named mode,
    /// preset and qualities, no output file yet, and the normalized cookie browser; or the
    /// message of the first rejected choice.
    pub fn into_domain(self) -> (r: Result<DownloadRequest, String>)
        ensures
            match r {
                Err(e) => first_error(self) == Some(e@),
                Ok(req) => {
                    &&& first_error(self) is None
                    &&& req.provider == Provider::YouTube
                    &&& mode_named(self.mode@) == Ok::<DownloadMode, Seq<char>>(req.mode)
                    &&& preset_named(self.preset@) == Ok::<DownloadPreset, Seq<char>>(req.preset)
                    &&& video_quality_named(self.video_quality@) == Ok::<VideoQuality, Seq<char>>(
                        req.video_quality,
                    )
                    &&& audio_quality_named(self.audio_quality@) == Ok::<AudioQuality, Seq<char>>(
                        req.audio_quality,
                    )
                    &&& req.url@ == self.url@
                    &&& req.output_path@ == Seq::<char>::empty()
                    &&& opt_view(req.cookies_from_browser) == browser_choice(
                        lowercase(trimmed(self.cookies_from_browser@)),
                    )
                },
            },
    {
        let mode = match parse_mode(self.mode.as_str()) {
            Ok(m) => m,
            Err(e) => return Err(e),
        };
        let preset = match parse_preset(self.preset.as_str()) {
            Ok(p) => p,
            Err(e) => return Err(e),
        };
        let video_quality = match parse_video_quality(self.video_quality.as_str()) {
            Ok(v) => v,
            Err(e) => return Err(e),
        };
        let audio_quality = match parse_audio_quality(self.audio_quality.as_str()) {
            Ok(a) => a,
            Err(e) => return Err(e),
        };
        let cookies_from_browser = parse_cookies_from_browser(self.cookies_from_browser.as_str());
        Ok(DownloadRequest {
            provider: Provider::YouTube,
            mode,
            preset,
            video_quality,
            audio_quality,
            url: self.url,
            output_path: String::new(),
            cookies_from_browser,
        })
    }
}


/// Cookie law: every normalized choice other than the empty one and `none` is kept as it is,
/// whatever its length or letters; only those two give no browser.
pub proof fn lemma_browser_kept_unless_empty_or_none(normalized: Seq<char>)
    ensures
        normalized.len() > 0 && normalized != "none"@ ==> browser_choice(normalized) == Some(normalized),
        browser_choice(normalized) is None ==> normalized.len() == 0 || normalized == "none"@,
        browser_choice(normalized) matches Some(b) ==> b == normalized,
        browser_choice(Seq::empty()) is None,
        browser_choice("none"@) is None,
{
}


/// Choice law: each mode, preset and quality is named by exactly one text, and a rejected
/// text is quoted in full at the end of its message.
pub proof fn lemma_choice_names_are_unique(v1: Seq<char>, v2: Seq<char>)
    ensures
        mode_named(v1) is Ok && mode_named(v1) == mode_named(v2) ==> v1 == v2,
        preset_named(v1) is Ok && preset_named(v1) == preset_named(v2) ==> v1 == v2,
        video_quality_named(v1) is Ok && video_quality_named(v1) == video_quality_named(v2) ==> v1 == v2,
        audio_quality_named(v1) is Ok && audio_quality_named(v1) == audio_quality_named(v2) ==> v1 == v2,
        mode_named(v1) matches Err(e) ==> e.len() > v1.len() && e.skip(e.len() - v1.len()) == v1,
        preset_named(v1) matches Err(e) ==> e.len() > v1.len() && e.skip(e.len() - v1.len()) == v1,
        video_quality_named(v1) matches Err(e) ==> e.len() > v1.len() && e.skip(e.len() - v1.len())
            == v1,
        audio_quality_named(v1) matches Err(e) ==> e.len() > v1.len() && e.skip(e.len() - v1.len())
            == v1,
{
    reveal_strlit("invalid mode: ");
    reveal_strlit("invalid preset: ");
    reveal_strlit("invalid video quality: ");
    reveal_strlit("invalid audio quality: ");
    if let Err(e) = mode_named(v1) {
        assert(e.skip(e.len() - v1.len()) =~= v1);
    }
    if let Err(e) = preset_named(v1) {
        assert(e.skip(e.len() - v1.len()) =~= v1);
    }
    if let Err(e) = video_quality_named(v1) {
        assert(e.skip(e.len() - v1.len()) =~= v1);
    }
    if let Err(e) = audio_quality_named(v1) {
        assert(e.skip(e.len() - v1.len()) =~= v1);
    }
}

/// Choice law: every mode, preset and quality has a name that the interface can send.
pub proof fn lemma_every_choice_has_a_name(m: DownloadMode, p: DownloadPreset, v: VideoQuality, a: AudioQuality)
    ensures
        exists|t: Seq<char>| #[trigger] mode_named(t) == Ok::<DownloadMode, Seq<char>>(m),
        exists|t: Seq<char>| #[trigger] preset_named(t) == Ok::<DownloadPreset, Seq<char>>(p),
        exists|t: Seq<char>| #[trigger] video_quality_named(t) == Ok::<VideoQuality, Seq<char>>(v),
        exists|t: Seq<char>| #[trigger] audio_quality_named(t) == Ok::<AudioQuality, Seq<char>>(a),
{
    reveal_strlit("video_with_audio");
    reveal_strlit("audio_only_mp3");
    reveal_strlit("compatibility");
    reveal_strlit("max_quality");
    reveal_strlit("best");
    reveal_strlit("p1080");
    reveal_strlit("p720");
    reveal_strlit("p480");
    reveal_strlit("k320");
    reveal_strlit("k192");
    reveal_strlit("k128");
    assert("audio_only_mp3"@[0] != "video_with_audio"@[0]);
    assert("max_quality"@[0] != "compatibility"@[0]);
    assert("p1080"@[0] != "best"@[0]);
    assert("p720"@.len() != "p1080"@.len());
    assert("p480"@[0] != "best"@[0]);
    assert("p480"@.len() != "p1080"@.len());
    assert("p480"@[1] != "p720"@[1]);
    assert("k320"@[0] != "best"@[0]);
    assert("k192"@[0] != "best"@[0]);
    assert("k192"@[1] != "k320"@[1]);
    assert("k128"@[0] != "best"@[0]);
    assert("k128"@[1] != "k320"@[1]);
    assert("k128"@[2] != "k192"@[2]);
    match m {
        DownloadMode::VideoWithAudio => assert(mode_named("video_with_audio"@) == Ok::<DownloadMode, Seq<char>>(m)),
        DownloadMode::AudioOnlyMp3 => assert(mode_named("audio_only_mp3"@) == Ok::<DownloadMode, Seq<char>>(m)),
    }
    match p {
        DownloadPreset::Compatibility => assert(preset_named("compatibility"@) == Ok::<DownloadPreset, Seq<char>>(p)),
        DownloadPreset::MaxQuality => assert(preset_named("max_quality"@) == Ok::<DownloadPreset, Seq<char>>(p)),
    }
    match v {
        VideoQuality::Best => assert(video_quality_named("best"@) == Ok::<VideoQuality, Seq<char>>(v)),
        VideoQuality::P1080 => assert(video_quality_named("p1080"@) == Ok::<VideoQuality, Seq<char>>(v)),
        VideoQuality::P720 => assert(video_quality_named("p720"@) == Ok::<VideoQuality, Seq<char>>(v)),
        VideoQuality::P480 => assert(video_quality_named("p480"@) == Ok::<VideoQuality, Seq<char>>(v)),
    }
    match a {
        AudioQuality::Best => assert(audio_quality_named("best"@) == Ok::<AudioQuality, Seq<char>>(a)),
        AudioQuality::K320 => assert(audio_quality_named("k320"@) == Ok::<AudioQuality, Seq<char>>(a)),
        AudioQuality::K192 => assert(audio_quality_named("k192"@) == Ok::<AudioQuality, Seq<char>>(a)),
        AudioQuality::K128 => assert(audio_quality_named("k128"@) == Ok::<AudioQuality, Seq<char>>(a)),
    }
}

} // verus!
