//! The command lines handed to yt-dlp and the reading of what it prints.

use vstd::prelude::*;
use crate::entities::{AudioQuality, DownloadMode, DownloadPreset, DownloadRequest, VideoQuality};
use crate::errors::DownloaderError;
use crate::text::{
    chars_of, char_is_space, is_space, lemma_trim_end_cut, owned, push_arg, push_args, same_chars,
    string_from, trim, trim_end, trimmed, views,
};

verus! {

/// yt-dlp's selector for the video stream of a given quality.
pub open spec fn video_selector(video: VideoQuality) -> Seq<char> {
    match video {
        VideoQuality::Best => "bestvideo"@,
        VideoQuality::P1080 => "bestvideo[height<=1080]"@,
        VideoQuality::P720 => "bestvideo[height<=720]"@,
        VideoQuality::P480 => "bestvideo[height<=480]"@,
    }
}

/// yt-dlp's selector for the audio stream of a given quality.
pub open spec fn audio_selector(audio: AudioQuality) -> Seq<char> {
    match audio {
        AudioQuality::Best => "bestaudio"@,
        AudioQuality::K320 => "bestaudio[abr<=320]"@,
        AudioQuality::K192 => "bestaudio[abr<=192]"@,
        AudioQuality::K128 => "bestaudio[abr<=128]"@,
    }
}

/// The video selector restricted to H.264 in MP4.
pub open spec fn compat_video_selector(video: VideoQuality) -> Seq<char> {
    match video {
        VideoQuality::Best => "bestvideo[ext=mp4][vcodec^=avc1]"@,
        VideoQuality::P1080 => "bestvideo[ext=mp4][vcodec^=avc1][height<=1080]"@,
        VideoQuality::P720 => "bestvideo[ext=mp4][vcodec^=avc1][height<=720]"@,
        VideoQuality::P480 => "bestvideo[ext=mp4][vcodec^=avc1][height<=480]"@,
    }
}

/// The audio selector restricted to M4A.
pub open spec fn compat_audio_selector(audio: AudioQuality) -> Seq<char> {
    match audio {
        AudioQuality::Best => "bestaudio[ext=m4a]"@,
        AudioQuality::K320 => "bestaudio[ext=m4a][abr<=320]"@,
        AudioQuality::K192 => "bestaudio[ext=m4a][abr<=192]"@,
        AudioQuality::K128 => "bestaudio[ext=m4a][abr<=128]"@,
    }
}

/// The `-f` format of a video download: with the compatibility preset, MP4/M4A first, then
/// any streams of the quality, then the best MP4, then the best of all; with the
/// max-quality preset, the streams of the quality, then the best of all.
pub open spec fn format_selector(video: VideoQuality, audio: AudioQuality, preset: DownloadPreset) -> Seq<char> {
    match preset {
        DownloadPreset::Compatibility => compat_video_selector(video) + "+"@ + compat_audio_selector(
            audio,
        ) + "/"@ + video_selector(video) + "+"@ + audio_selector(audio) + "/best[ext=mp4]/best"@,
        DownloadPreset::MaxQuality => video_selector(video) + "+"@ + audio_selector(audio)
            + "/best"@,
    }
}

/// The container that video and audio are merged into.
pub open spec fn merge_container(preset: DownloadPreset) -> Seq<char> {
    match preset {
        DownloadPreset::Compatibility => "mp4"@,
        DownloadPreset::MaxQuality => "mkv"@,
    }
}

/// yt-dlp's `--audio-quality` value for an MP3 download.
pub open spec fn audio_quality_text(audio: AudioQuality) -> Seq<char> {
    match audio {
        AudioQuality::Best => "0"@,
        AudioQuality::K320 => "320K"@,
        AudioQuality::K192 => "192K"@,
        AudioQuality::K128 => "128K"@,
    }
}

/// The `-f` format of a video download (see `format_selector`).
pub fn video_audio_format(video: VideoQuality, audio: AudioQuality, preset: DownloadPreset) -> (r:
    String)
    ensures
        r@ == format_selector(video, audio, preset),
{
    let v: &str = match video {
        VideoQuality::Best => "bestvideo",
        VideoQuality::P1080 => "bestvideo[height<=1080]",
        VideoQuality::P720 => "bestvideo[height<=720]",
        VideoQuality::P480 => "bestvideo[height<=480]",
    };
    let a: &str = match audio {
        AudioQuality::Best => "bestaudio",
        AudioQuality::K320 => "bestaudio[abr<=320]",
        AudioQuality::K192 => "bestaudio[abr<=192]",
        AudioQuality::K128 => "bestaudio[abr<=128]",
    };
    match preset {
        DownloadPreset::Compatibility => {
            let v_compat: &str = match video {
                VideoQuality::Best => "bestvideo[ext=mp4][vcodec^=avc1]",
                VideoQuality::P1080 => "bestvideo[ext=mp4][vcodec^=avc1][height<=1080]",
                VideoQuality::P720 => "bestvideo[ext=mp4][vcodec^=avc1][height<=720]",
                VideoQuality::P480 => "bestvideo[ext=mp4][vcodec^=avc1][height<=480]",
            };
            let a_compat: &str = match audio {
                AudioQuality::Best => "bestaudio[ext=m4a]",
                AudioQuality::K320 => "bestaudio[ext=m4a][abr<=320]",
                AudioQuality::K192 => "bestaudio[ext=m4a][abr<=192]",
                AudioQuality::K128 => "bestaudio[ext=m4a][abr<=128]",
            };
            let mut r = owned(v_compat);
            r.append("+");
            r.append(a_compat);
            r.append("/");
            r.append(v);
            r.append("+");
            r.append(a);
            r.append("/best[ext=mp4]/best");
            r
        },
        DownloadPreset::MaxQuality => {
            let mut r = owned(v);
            r.append("+");
            r.append(a);
            r.append("/best");
            r
        },
    }
}

/// The container that video and audio are merged into.
pub fn merge_format(preset: DownloadPreset) -> (r: &'static str)
    ensures
        r@ == merge_container(preset),
{
    match preset {
        DownloadPreset::Compatibility => "mp4",
        DownloadPreset::MaxQuality => "mkv",
    }
}

/// yt-dlp's `--audio-quality` value for an MP3 download.
pub fn audio_quality_value(audio: AudioQuality) -> (r: &'static str)
    ensures
        r@ == audio_quality_text(audio),
{
    match audio {
        AudioQuality::Best => "0",
        AudioQuality::K320 => "320K",
        AudioQuality::K192 => "192K",
        AudioQuality::K128 => "128K",
    }
}

/// Whether `s` is empty once white space is removed from both ends.
pub open spec fn is_blank(s: Seq<char>) -> bool {
    trimmed(s).len() == 0
}

/// The arguments that take the browser's cookies: none when no browser, or only white
/// space, is given.
pub open spec fn cookies_arguments(cookies_from_browser: Option<Seq<char>>) -> Seq<Seq<char>> {
    match cookies_from_browser {
        Some(browser) => if is_blank(browser) {
            Seq::empty()
        } else {
            seq!["--cookies-from-browser"@, browser]
        },
        None => Seq::empty(),
    }
}

/// The arguments that name a JavaScript runtime: none when it is blank.
pub open spec fn js_runtime_arguments(js_runtime: Seq<char>) -> Seq<Seq<char>> {
    if is_blank(js_runtime) {
        Seq::empty()
    } else {
        seq!["--js-runtimes"@, js_runtime]
    }
}

/// The arguments of a title lookup.
pub open spec fn title_arguments(url: Seq<char>, cookies_from_browser: Option<Seq<char>>, js_runtime: Seq<char>) -> Seq<Seq<char>> {
    seq!["--ignore-config"@, "--flat-playlist"@, "--print"@, "%(title)s"@] + cookies_arguments(
        cookies_from_browser,
    ) + js_runtime_arguments(js_runtime) + seq![url]
}

/// The arguments that choose what is kept of the media.
pub open spec fn mode_arguments(request: DownloadRequest) -> Seq<Seq<char>> {
    match request.mode {
        DownloadMode::AudioOnlyMp3 => seq![
            "-x"@,
            "--audio-format"@,
            "mp3"@,
            "--audio-quality"@,
            audio_quality_text(request.audio_quality),
        ],
        DownloadMode::VideoWithAudio => seq![
            "-f"@,
            format_selector(request.video_quality, request.audio_quality, request.preset),
            "--merge-output-format"@,
            merge_container(request.preset),
        ],
    }
}

/// The view of an optional string.
pub open spec fn opt_view(s: Option<String>) -> Option<Seq<char>> {
    match s {
        Some(t) => Some(t@),
        None => None,
    }
}

/// The arguments of a download.
pub open spec fn download_arguments(request: DownloadRequest, ffmpeg_path: Seq<char>, js_runtime: Seq<char>) -> Seq<Seq<char>> {
    seq![
        "--newline"@,
        "--ignore-config"@,
        "--progress"@,
        "--ffmpeg-location"@,
        ffmpeg_path,
        "-o"@,
        request.output_path@,
    ] + cookies_arguments(opt_view(request.cookies_from_browser)) + js_runtime_arguments(js_runtime)
        + seq![request.url@] + mode_arguments(request)
}

/// Whether `s` is blank (`s.trim().is_empty()`).
pub fn blank(s: &str) -> (r: bool)
    ensures
        r == is_blank(s@),
{
    let t = trim(s);
    t.as_str().is_empty()
}

/// The arguments that take the browser's cookies (see `cookies_arguments`).
pub fn cookies_from_browser_args(cookies_from_browser: Option<&str>) -> (r: Vec<String>)
    ensures
        views(r@) == cookies_arguments(
            match cookies_from_browser {
                Some(b) => Some(b@),
                None => None,
            },
        ),
{
    let mut r: Vec<String> = Vec::new();
    if let Some(browser) = cookies_from_browser {
        if !blank(browser) {
            push_arg(&mut r, "--cookies-from-browser");
            push_arg(&mut r, browser);
        }
    }
    assert(views(r@) =~= cookies_arguments(
        match cookies_from_browser {
            Some(b) => Some(b@),
            None => None,
        },
    ));
    r
}

/// The arguments that name a JavaScript runtime (see `js_runtime_arguments`).
pub fn js_runtime_args(js_runtime: &str) -> (r: Vec<String>)
    ensures
        views(r@) == js_runtime_arguments(js_runtime@),
{
    let mut r: Vec<String> = Vec::new();
    if !blank(js_runtime) {
        push_arg(&mut r, "--js-runtimes");
        push_arg(&mut r, js_runtime);
    }
    assert(views(r@) =~= js_runtime_arguments(js_runtime@));
    r
}

/// The arguments of a title lookup: print the title only, with the browser's cookies and
/// the JavaScript runtime when given, for `url`.
pub fn title_args(url: &str, cookies_from_browser: Option<&str>, js_runtime: &str) -> (r: Vec<
    String,
>)
    ensures
        views(r@) == title_arguments(
            url@,
            match cookies_from_browser {
                Some(b) => Some(b@),
                None => None,
            },
            js_runtime@,
        ),
{
    let mut r: Vec<String> = Vec::new();
    push_arg(&mut r, "--ignore-config");
    push_arg(&mut r, "--flat-playlist");
    push_arg(&mut r, "--print");
    push_arg(&mut r, "%(title)s");
    let c = cookies_from_browser_args(cookies_from_browser);
    push_args(&mut r, &c);
    let j = js_runtime_args(js_runtime);
    push_args(&mut r, &j);
    push_arg(&mut r, url);
    r
}

/// The arguments of a download: line-by-line progress, the FFmpeg location and the output
/// file, the cookies and JavaScript runtime when given, the URL, then either MP3 extraction
/// at the chosen quality or the format selection and merge container of the preset.
pub fn download_args(request: &DownloadRequest, ffmpeg_path: &str, js_runtime: &str) -> (r: Vec<
    String,
>)
    ensures
        views(r@) == download_arguments(*request, ffmpeg_path@, js_runtime@),
{
    let mut r: Vec<String> = Vec::new();
    push_arg(&mut r, "--newline");
    push_arg(&mut r, "--ignore-config");
    push_arg(&mut r, "--progress");
    push_arg(&mut r, "--ffmpeg-location");
    push_arg(&mut r, ffmpeg_path);
    push_arg(&mut r, "-o");
    push_arg(&mut r, request.output_path.as_str());
    let cookies: Option<&str> = match &request.cookies_from_browser {
        Some(b) => Some(b.as_str()),
        None => None,
    };
    let c = cookies_from_browser_args(cookies);
    push_args(&mut r, &c);
    let j = js_runtime_args(js_runtime);
    push_args(&mut r, &j);
    push_arg(&mut r, request.url.as_str());
    match request.mode {
        DownloadMode::AudioOnlyMp3 => {
            push_arg(&mut r, "-x");
            push_arg(&mut r, "--audio-format");
            push_arg(&mut r, "mp3");
            push_arg(&mut r, "--audio-quality");
            push_arg(&mut r, audio_quality_value(request.audio_quality));
        },
        DownloadMode::VideoWithAudio => {
            push_arg(&mut r, "-f");
            let f = video_audio_format(request.video_quality, request.audio_quality, request.preset);
            push_arg(&mut r, f.as_str());
            push_arg(&mut r, "--merge-output-format");
            push_arg(&mut r, merge_format(request.preset));
        },
    }
    assert(views(r@) =~= download_arguments(*request, ffmpeg_path@, js_runtime@));
    r
}


/// The title printed by a title lookup: the failure output when the tool failed, otherwise
/// the printed text without surrounding white space, which must not be empty.
pub fn title_from_output(success: bool, stdout: &str, stderr: &str) -> (r: Result<
    String,
    DownloaderError,
>)
    ensures
        !success ==> (r matches Err(DownloaderError::ProcessFailed(m)) && m@ == stderr@),
        success && is_blank(stdout@) ==> (r matches Err(DownloaderError::ProcessFailed(m)) && m@
            == "empty title"@),
        success && !is_blank(stdout@) ==> (r matches Ok(t) && t@ == trimmed(stdout@)),
{
    if !success {
        return Err(DownloaderError::ProcessFailed(owned(stderr)));
    }
    let title = trim(stdout);
    if title.as_str().is_empty() {
        return Err(DownloaderError::ProcessFailed(owned("empty title")));
    }
    Ok(title)
}

/// The message for a download whose tool exited with `status`: the failure output, without
/// surrounding white space, is added after a colon when there is any.
pub open spec fn failure_message(status: Seq<char>, stderr: Seq<char>) -> Seq<char> {
    if is_blank(stderr) {
        "yt-dlp exited with "@ + status
    } else {
        "yt-dlp exited with "@ + status + ": "@ + trimmed(stderr)
    }
}

/// The message for a failed download (see `failure_message`).
pub fn download_failure_message(status: &str, stderr: &str) -> (r: String)
    ensures
        r@ == failure_message(status@, stderr@),
{
    let trimmed_err = trim(stderr);
    let mut r = owned("yt-dlp exited with ");
    r.append(status);
    if !trimmed_err.as_str().is_empty() {
        r.append(": ");
        r.append(trimmed_err.as_str());
    }
    r
}

/// Whether `pat` occurs in `s`.
pub open spec fn contains_text(s: Seq<char>, pat: Seq<char>) -> bool {
    exists|i: int| 0 <= i <= s.len() - pat.len() && #[trigger] s.subrange(i, i + pat.len()) == pat
}

/// The characters of `s` before the first `c` (all of `s` when there is none).
pub open spec fn before_char(s: Seq<char>, c: char) -> Seq<char>
    decreases s.len(),
{
    if s.len() == 0 {
        s
    } else if s[0] == c {
        Seq::empty()
    } else {
        seq![s[0]] + before_char(s.drop_first(), c)
    }
}

/// The trailing run of non-space characters of `q`.
pub open spec fn word_end(q: Seq<char>) -> Seq<char>
    decreases q.len(),
{
    if q.len() > 0 && !is_space(q.last()) {
        word_end(q.drop_last()).push(q.last())
    } else {
        Seq::empty()
    }
}

/// The last white-space separated word of `p`, if any.
pub open spec fn last_word(p: Seq<char>) -> Option<Seq<char>> {
    let q = trim_end(p);
    if q.len() == 0 {
        None
    } else {
        Some(word_end(q))
    }
}

/// The text of the percentage on a yt-dlp progress line: on a line that holds `[download]`
/// and a `%`, the last word before the first `%`.
pub open spec fn progress_text(line: Seq<char>) -> Option<Seq<char>> {
    if contains_text(line, "[download]"@) && line.contains('%') {
        last_word(before_char(line, '%'))
    } else {
        None
    }
}

/// Whether `pat` occurs in `s`.
pub fn find_text(s: &[char], pat: &[char]) -> (r: bool)
    ensures
        r == contains_text(s@, pat@),
{
    let n = s.len();
    let m = pat.len();
    if m > n {
        return false;
    }
    if m == 0 {
        assert(s@.subrange(0int, 0int + pat@.len()) =~= pat@);
        return true;
    }
    let mut i: usize = 0;
    while i <= n - m
        invariant
            n == s@.len(),
            m == pat@.len(),
            0 < m <= n,
            i <= n - m + 1,
            forall|j: int| 0 <= j < i ==> #[trigger] s@.subrange(j, j + m) != pat@,
        decreases n - m + 1 - i,
    {
        let window = &s[i..i + m];
        assert(window@ == s@.subrange(i as int, i + m));
        if same_chars(window, pat) {
            return true;
        }
        i = i + 1;
    }
    false
}

proof fn lemma_before_char(s: Seq<char>, c: char, i: int)
    requires
        0 <= i <= s.len(),
        forall|j: int| 0 <= j < i ==> s[j] != c,
        i == s.len() || s[i] == c,
    ensures
        before_char(s, c) == s.take(i),
    decreases i,
{
    if i > 0 {
        lemma_before_char(s.drop_first(), c, i - 1);
        assert(seq![s[0]] + s.drop_first().take(i - 1) =~= s.take(i));
    } else if s.len() == 0 {
        assert(s.take(0) =~= s);
    } else {
        assert(s.take(0) =~= Seq::<char>::empty());
    }
}

proof fn lemma_word_end(q: Seq<char>, k: int)
    requires
        0 <= k <= q.len(),
        forall|j: int| k <= j < q.len() ==> !is_space(q[j]),
        k == 0 || is_space(q[k - 1]),
    ensures
        word_end(q) == q.subrange(k, q.len() as int),
    decreases q.len() - k,
{
    if k < q.len() {
        lemma_word_end(q.drop_last(), k);
        assert(q.drop_last().subrange(k, q.len() - 1).push(q.last()) =~= q.subrange(k, q.len() as int));
    } else if k == 0 {
        assert(q.subrange(0, 0) =~= q);
    } else {
        assert(q.subrange(k, k) =~= Seq::<char>::empty());
    }
}

/// The last word of `p` (see `last_word`).
pub fn last_word_of(p: &[char]) -> (r: Option<String>)
    ensures
        match r {
            Some(w) => last_word(p@) == Some(w@),
            None => last_word(p@) is None,
        },
{
    let mut j: usize = p.len();
    while j > 0 && char_is_space(p[j - 1])
        invariant
            j <= p@.len(),
            forall|k: int| j <= k < p@.len() ==> is_space(p@[k]),
        decreases j,
    {
        j = j - 1;
    }
    proof {
        lemma_trim_end_cut(p@, j as int);
        if j > 0 {
            assert(trim_end(p@.subrange(0, j as int)) == p@.subrange(0, j as int));
        } else {
            assert(p@.subrange(0, 0) =~= Seq::<char>::empty());
        }
    }
    if j == 0 {
        return None;
    }
    let mut k: usize = j;
    while k > 0 && !char_is_space(p[k - 1])
        invariant
            k <= j <= p@.len(),
            forall|i: int| k <= i < j ==> !is_space(p@[i]),
        decreases k,
    {
        k = k - 1;
    }
    proof {
        let q = p@.subrange(0, j as int);
        lemma_word_end(q, k as int);
        assert(q.subrange(k as int, j as int) =~= p@.subrange(k as int, j as int));
    }
    Some(string_from(&p[k..j]))
}

/// The text of the percentage on a progress line (see `progress_text`).
pub fn progress_number(line: &str) -> (r: Option<String>)
    ensures
        match r {
            Some(t) => progress_text(line@) == Some(t@),
            None => progress_text(line@) is None,
        },
{
    let s = chars_of(line);
    let marker = chars_of("[download]");
    let n = s.len();
    let mut i: usize = 0;
    while i < n && s[i] != '%'
        invariant
            n == s@.len(),
            i <= n,
            forall|j: int| 0 <= j < i ==> s@[j] != '%',
        decreases n - i,
    {
        i = i + 1;
    }
    let has_marker = find_text(s.as_slice(), marker.as_slice());
    if !has_marker || i == n {
        proof {
            if i == n {
                assert(!s@.contains('%'));
            }
        }
        return None;
    }
    proof {
        lemma_before_char(s@, '%', i as int);
        assert(s@.contains('%'));
    }
    last_word_of(&s.as_slice()[0..i])
}


/// Format law: each compatibility video selector is the plain selector of the same quality
/// with `[ext=mp4][vcodec^=avc1]` inserted after `bestvideo`, and each compatibility audio
/// selector is the plain one with `[ext=m4a]` inserted after `bestaudio`.
pub proof fn lemma_compat_selectors_insert_filters(video: VideoQuality, audio: AudioQuality)
    ensures
        video_selector(video).take(9) == "bestvideo"@,
        compat_video_selector(video) == "bestvideo[ext=mp4][vcodec^=avc1]"@ + video_selector(video).skip(9),
        audio_selector(audio).take(9) == "bestaudio"@,
        compat_audio_selector(audio) == "bestaudio[ext=m4a]"@ + audio_selector(audio).skip(9),
{
    reveal_strlit("bestvideo");
    reveal_strlit("bestvideo[ext=mp4][vcodec^=avc1]");
    reveal_strlit("bestvideo[height<=1080]");
    reveal_strlit("bestvideo[height<=720]");
    reveal_strlit("bestvideo[height<=480]");
    reveal_strlit("bestvideo[ext=mp4][vcodec^=avc1][height<=1080]");
    reveal_strlit("bestvideo[ext=mp4][vcodec^=avc1][height<=720]");
    reveal_strlit("bestvideo[ext=mp4][vcodec^=avc1][height<=480]");
    reveal_strlit("bestaudio");
    reveal_strlit("bestaudio[ext=m4a]");
    reveal_strlit("bestaudio[abr<=320]");
    reveal_strlit("bestaudio[abr<=192]");
    reveal_strlit("bestaudio[abr<=128]");
    reveal_strlit("bestaudio[ext=m4a][abr<=320]");
    reveal_strlit("bestaudio[ext=m4a][abr<=192]");
    reveal_strlit("bestaudio[ext=m4a][abr<=128]");
    assert(video_selector(video).take(9) =~= "bestvideo"@);
    assert(compat_video_selector(video) =~= "bestvideo[ext=mp4][vcodec^=avc1]"@ + video_selector(video).skip(9));
    assert(audio_selector(audio).take(9) =~= "bestaudio"@);
    assert(compat_audio_selector(audio) =~= "bestaudio[ext=m4a]"@ + audio_selector(audio).skip(9));
}


/// Format law: the height limit of a video selector is the chosen quality's, and the bit
/// rate limit of an audio selector is the chosen quality's; `Best` sets no limit.
pub proof fn lemma_selectors_carry_the_chosen_limit(video: VideoQuality, audio: AudioQuality)
    ensures
        video == VideoQuality::Best ==> video_selector(video) == "bestvideo"@,
        video == VideoQuality::P1080 ==> video_selector(video) == "bestvideo"@ + "[height<="@ + "1080"@ + "]"@,
        video == VideoQuality::P720 ==> video_selector(video) == "bestvideo"@ + "[height<="@ + "720"@ + "]"@,
        video == VideoQuality::P480 ==> video_selector(video) == "bestvideo"@ + "[height<="@ + "480"@ + "]"@,
        audio == AudioQuality::Best ==> audio_selector(audio) == "bestaudio"@,
        audio == AudioQuality::K320 ==> audio_selector(audio) == "bestaudio"@ + "[abr<="@ + "320"@ + "]"@,
        audio == AudioQuality::K192 ==> audio_selector(audio) == "bestaudio"@ + "[abr<="@ + "192"@ + "]"@,
        audio == AudioQuality::K128 ==> audio_selector(audio) == "bestaudio"@ + "[abr<="@ + "128"@ + "]"@,
{
    reveal_strlit("bestvideo");
    reveal_strlit("[height<=");
    reveal_strlit("]");
    reveal_strlit("1080");
    reveal_strlit("720");
    reveal_strlit("480");
    reveal_strlit("bestvideo[height<=1080]");
    reveal_strlit("bestvideo[height<=720]");
    reveal_strlit("bestvideo[height<=480]");
    reveal_strlit("bestaudio");
    reveal_strlit("[abr<=");
    reveal_strlit("320");
    reveal_strlit("192");
    reveal_strlit("128");
    reveal_strlit("bestaudio[abr<=320]");
    reveal_strlit("bestaudio[abr<=192]");
    reveal_strlit("bestaudio[abr<=128]");
    assert(video == VideoQuality::P1080 ==> video_selector(video) =~= "bestvideo"@ + "[height<="@ + "1080"@ + "]"@);
    assert(video == VideoQuality::P720 ==> video_selector(video) =~= "bestvideo"@ + "[height<="@ + "720"@ + "]"@);
    assert(video == VideoQuality::P480 ==> video_selector(video) =~= "bestvideo"@ + "[height<="@ + "480"@ + "]"@);
    assert(audio == AudioQuality::K320 ==> audio_selector(audio) =~= "bestaudio"@ + "[abr<="@ + "320"@ + "]"@);
    assert(audio == AudioQuality::K192 ==> audio_selector(audio) =~= "bestaudio"@ + "[abr<="@ + "192"@ + "]"@);
    assert(audio == AudioQuality::K128 ==> audio_selector(audio) =~= "bestaudio"@ + "[abr<="@ + "128"@ + "]"@);
}

/// Format law: the compatibility format first tries the compatibility selectors, then the
/// max-quality format's pair of streams, then the best MP4; the max-quality format is the
/// pair of streams, then the best of all.
pub proof fn lemma_compat_format_extends_max_quality(video: VideoQuality, audio: AudioQuality)
    ensures
        ({
            let m = format_selector(video, audio, DownloadPreset::MaxQuality);
            let c = format_selector(video, audio, DownloadPreset::Compatibility);
            &&& m == video_selector(video) + "+"@ + audio_selector(audio) + "/best"@
            &&& c == compat_video_selector(video) + "+"@ + compat_audio_selector(audio) + "/"@
                + m.take(m.len() - 5) + "/best[ext=mp4]/best"@
        }),
{
    reveal_strlit("/best");
    let pair = video_selector(video) + "+"@ + audio_selector(audio);
    let m = format_selector(video, audio, DownloadPreset::MaxQuality);
    assert(m.take(m.len() - 5) =~= pair);
}

/// Download law: a video download ends with `-f` and the format of the request's own preset
/// and qualities, then `--merge-output-format` and the preset's container (`mp4` for the
/// compatibility preset, `mkv` for max quality), right after the URL; an MP3 download ends
/// with the URL, `-x --audio-format mp3 --audio-quality` and the quality's value (`0` for
/// the best, else the bit rate with `K`).
pub proof fn lemma_download_args_end_with_mode(request: DownloadRequest, ffmpeg_path: Seq<char>, js_runtime: Seq<char>)
    ensures
        ({
            let a = download_arguments(request, ffmpeg_path, js_runtime);
            let n = a.len();
            &&& request.mode == DownloadMode::VideoWithAudio ==> {
                &&& n >= 12
                &&& a[n - 5] == request.url@
                &&& a[n - 4] == "-f"@
                &&& a[n - 3] == format_selector(request.video_quality, request.audio_quality, request.preset)
                &&& a[n - 2] == "--merge-output-format"@
                &&& a[n - 1] == (if request.preset == DownloadPreset::Compatibility { "mp4"@ } else { "mkv"@ })
            }
            &&& request.mode == DownloadMode::AudioOnlyMp3 ==> {
                &&& n >= 13
                &&& a[n - 6] == request.url@
                &&& a.subrange(n - 5, n - 1) == seq!["-x"@, "--audio-format"@, "mp3"@, "--audio-quality"@]
                &&& a[n - 1] == (match request.audio_quality {
                    AudioQuality::Best => "0"@,
                    AudioQuality::K320 => "320K"@,
                    AudioQuality::K192 => "192K"@,
                    AudioQuality::K128 => "128K"@,
                })
            }
        }),
{
    let a = download_arguments(request, ffmpeg_path, js_runtime);
    let n = a.len();
    if request.mode == DownloadMode::AudioOnlyMp3 {
        assert(a.subrange(n - 5, n - 1) =~= seq!["-x"@, "--audio-format"@, "mp3"@, "--audio-quality"@]);
    }
}

/// Download law: the cookie arguments stand right after the seven leading arguments, and the
/// JavaScript runtime is passed, right before the URL, exactly when it is not blank, whatever
/// the cookie choice.
pub proof fn lemma_download_args_runtime_and_cookies(request: DownloadRequest, ffmpeg_path: Seq<char>, js_runtime: Seq<char>)
    ensures
        ({
            let a = download_arguments(request, ffmpeg_path, js_runtime);
            let c = cookies_arguments(opt_view(request.cookies_from_browser));
            let k: int = 7 + c.len() as int;
            &&& a.take(7) == seq!["--newline"@, "--ignore-config"@, "--progress"@, "--ffmpeg-location"@, ffmpeg_path, "-o"@, request.output_path@]
            &&& a.subrange(7, k) == c
            &&& !is_blank(js_runtime) ==> a.subrange(k, k + 3) == seq!["--js-runtimes"@, js_runtime, request.url@]
            &&& is_blank(js_runtime) ==> a[k] == request.url@
        }),
{
    let a = download_arguments(request, ffmpeg_path, js_runtime);
    let c = cookies_arguments(opt_view(request.cookies_from_browser));
    let k: int = 7 + c.len() as int;
    assert(a.take(7) =~= seq!["--newline"@, "--ignore-config"@, "--progress"@, "--ffmpeg-location"@, ffmpeg_path, "-o"@, request.output_path@]);
    assert(a.subrange(7, k) =~= c);
    if !is_blank(js_runtime) {
        assert(a.subrange(k, k + 3) =~= seq!["--js-runtimes"@, js_runtime, request.url@]);
    }
}

/// Title law: a title lookup passes the four printing options, then the cookie arguments,
/// then `--js-runtimes` and the runtime exactly when the runtime is not blank, whatever the
/// cookie choice, then the URL last.
pub proof fn lemma_title_args_runtime_independent_of_cookies(url: Seq<char>, cookies_from_browser: Option<Seq<char>>, js_runtime: Seq<char>)
    ensures
        ({
            let a = title_arguments(url, cookies_from_browser, js_runtime);
            let c = cookies_arguments(cookies_from_browser);
            let k: int = 4 + c.len() as int;
            &&& a.take(4) == seq!["--ignore-config"@, "--flat-playlist"@, "--print"@, "%(title)s"@]
            &&& a.subrange(4, k) == c
            &&& !is_blank(js_runtime) ==> a.skip(k) == seq!["--js-runtimes"@, js_runtime, url]
            &&& is_blank(js_runtime) ==> a.skip(k) == seq![url]
        }),
{
    let a = title_arguments(url, cookies_from_browser, js_runtime);
    let c = cookies_arguments(cookies_from_browser);
    let k: int = 4 + c.len() as int;
    assert(a.take(4) =~= seq!["--ignore-config"@, "--flat-playlist"@, "--print"@, "%(title)s"@]);
    assert(a.subrange(4, k) =~= c);
    if !is_blank(js_runtime) {
        assert(a.skip(k) =~= seq!["--js-runtimes"@, js_runtime, url]);
    } else {
        assert(a.skip(k) =~= seq![url]);
    }
}

/// Cookie law: a browser is passed, with `--cookies-from-browser` before it and untouched,
/// exactly when one is given and it is not blank.
pub proof fn lemma_cookie_args_pass_browser_unchanged(cookies_from_browser: Option<Seq<char>>)
    ensures
        match cookies_from_browser {
            Some(b) => if is_blank(b) {
                cookies_arguments(cookies_from_browser).len() == 0
            } else {
                cookies_arguments(cookies_from_browser) == seq!["--cookies-from-browser"@, b]
            },
            None => cookies_arguments(cookies_from_browser).len() == 0,
        },
{
}

} // verus!
