//! The application's use cases: preparing the external tools and checking for updates.

use std::sync::Arc;
use vstd::prelude::*;
use crate::debug_logs::{logged, DebugLog};
use crate::entities::{DownloadRequest, ReleaseInfo, UpdateStatus};
use crate::text::join_text;
use crate::errors::DownloaderError;
use crate::ports::{DependencyPort, ReleasePort};
use crate::version::{
    is_newer, lemma_newer_asymmetric, lemma_newer_is_first_difference, lemma_newer_irreflexive, newer, parse_version, version_numbers,
};

verus! {

/// Where the external tools were found.
#[derive(Debug, Clone)]
pub struct DependencyReport {
    pub yt_dlp: String,
    pub ffmpeg: String,
    pub ffprobe: String,
}

/// Makes sure yt-dlp, FFmpeg and FFprobe are present, in that order.
pub struct BootstrapDependenciesUseCase<D: DependencyPort + ?Sized> {
    dependency_port: Arc<D>,
}

impl<D: DependencyPort + ?Sized> BootstrapDependenciesUseCase<D> {
    /// The port that the use case asks.
    pub closed spec fn port(&self) -> Arc<D> {
        self.dependency_port
    }

    pub fn new(dependency_port: Arc<D>) -> (r: Self)
        ensures
            r.port() == dependency_port,
    {
        BootstrapDependenciesUseCase { dependency_port }
    }

    /// Asks the port for yt-dlp, then FFmpeg, then FFprobe, stopping at the first failure,
    /// which it returns; otherwise returns the three locations. Each location, and the
    /// failure, is an answer that the port gave to the question asked at that point. Before
    /// each question the debug log gets an `ensure` line, and after each success a `ready at`
    /// line with the location.
    pub fn execute(&self, log: &mut DebugLog) -> (r: Result<DependencyReport, DownloaderError>)
        requires
            old(log).last_id() <= u64::MAX - 6,
        ensures
            match r {
                Ok(report) => {
                    &&& yt_dlp_answer(&*self.port(), Ok(report.yt_dlp))
                    &&& ffmpeg_answer(&*self.port(), Ok(report.ffmpeg))
                    &&& ffprobe_answer(&*self.port(), Ok(report.ffprobe))
                    &&& logged(
                        *old(log),
                        *final(log),
                        seq![
                            ensure_line("yt-dlp"@),
                            ready_line("yt-dlp"@, report.yt_dlp@),
                            ensure_line("ffmpeg"@),
                            ready_line("ffmpeg"@, report.ffmpeg@),
                            ensure_line("ffprobe"@),
                            ready_line("ffprobe"@, report.ffprobe@),
                        ],
                    )
                },
                Err(e) => {
                    ||| (yt_dlp_answer(&*self.port(), Err(e)) && logged(
                        *old(log),
                        *final(log),
                        seq![ensure_line("yt-dlp"@)],
                    ))
                    ||| (exists|a: String|
                        #[trigger] yt_dlp_answer(&*self.port(), Ok(a)) && ffmpeg_answer(
                            &*self.port(),
                            Err(e),
                        ) && logged(
                            *old(log),
                            *final(log),
                            seq![ensure_line("yt-dlp"@), ready_line("yt-dlp"@, a@), ensure_line("ffmpeg"@)],
                        ))
                    ||| (exists|a: String, b: String|
                        #[trigger] yt_dlp_answer(&*self.port(), Ok(a)) && #[trigger] ffmpeg_answer(
                            &*self.port(),
                            Ok(b),
                        ) && ffprobe_answer(&*self.port(), Err(e)) && logged(
                            *old(log),
                            *final(log),
                            seq![
                                ensure_line("yt-dlp"@),
                                ready_line("yt-dlp"@, a@),
                                ensure_line("ffmpeg"@),
                                ready_line("ffmpeg"@, b@),
                                ensure_line("ffprobe"@),
                            ],
                        ))
                },
            },
    {
        let ghost start = *log;
        assert(logged(start, *log, Seq::empty()));
        note(log, &ensure_text("yt-dlp"), Ghost(start), Ghost(Seq::empty()));
        let ghost msgs1 = seq![ensure_line("yt-dlp"@)];
        assert(Seq::<Seq<char>>::empty().push(ensure_line("yt-dlp"@)) =~= msgs1);
        let yt_dlp = match self.dependency_port.ensure_yt_dlp() {
            Ok(p) => p,
            Err(e) => return Err(e),
        };
        note(log, &ready_text("yt-dlp", &yt_dlp), Ghost(start), Ghost(msgs1));
        note(log, &ensure_text("ffmpeg"), Ghost(start), Ghost(msgs1.push(ready_line("yt-dlp"@, yt_dlp@))));
        let ghost msgs2 = seq![ensure_line("yt-dlp"@), ready_line("yt-dlp"@, yt_dlp@), ensure_line("ffmpeg"@)];
        assert(msgs1.push(ready_line("yt-dlp"@, yt_dlp@)).push(ensure_line("ffmpeg"@)) =~= msgs2);
        let ffmpeg = match self.dependency_port.ensure_ffmpeg() {
            Ok(p) => p,
            Err(e) => {
                assert(yt_dlp_answer(&*self.port(), Ok(yt_dlp)));
                return Err(e);
            },
        };
        note(log, &ready_text("ffmpeg", &ffmpeg), Ghost(start), Ghost(msgs2));
        note(log, &ensure_text("ffprobe"), Ghost(start), Ghost(msgs2.push(ready_line("ffmpeg"@, ffmpeg@))));
        let ghost msgs3 = seq![
            ensure_line("yt-dlp"@),
            ready_line("yt-dlp"@, yt_dlp@),
            ensure_line("ffmpeg"@),
            ready_line("ffmpeg"@, ffmpeg@),
            ensure_line("ffprobe"@),
        ];
        assert(msgs2.push(ready_line("ffmpeg"@, ffmpeg@)).push(ensure_line("ffprobe"@)) =~= msgs3);
        let ffprobe = match self.dependency_port.ensure_ffprobe() {
            Ok(p) => p,
            Err(e) => {
                assert(yt_dlp_answer(&*self.port(), Ok(yt_dlp)));
                assert(ffmpeg_answer(&*self.port(), Ok(ffmpeg)));
                return Err(e);
            },
        };
        note(log, &ready_text("ffprobe", &ffprobe), Ghost(start), Ghost(msgs3));
        assert(msgs3.push(ready_line("ffprobe"@, ffprobe@)) =~= seq![
            ensure_line("yt-dlp"@),
            ready_line("yt-dlp"@, yt_dlp@),
            ensure_line("ffmpeg"@),
            ready_line("ffmpeg"@, ffmpeg@),
            ensure_line("ffprobe"@),
            ready_line("ffprobe"@, ffprobe@),
        ]);
        Ok(DependencyReport { yt_dlp, ffmpeg, ffprobe })
    }
}

/// The debug line written before a tool is looked for.
pub open spec fn ensure_line(tool: Seq<char>) -> Seq<char> {
    "[deps] bootstrap: ensure "@ + tool
}

/// The debug line written once a tool has been found at `path`.
pub open spec fn ready_line(tool: Seq<char>, path: Seq<char>) -> Seq<char> {
    "[deps] bootstrap: "@ + tool + " ready at "@ + path
}

fn ensure_text(tool: &str) -> (r: String)
    ensures
        r@ == ensure_line(tool@),
{
    join_text("[deps] bootstrap: ensure ", tool)
}

fn ready_text(tool: &str, path: &str) -> (r: String)
    ensures
        r@ == ready_line(tool@, path@),
{
    let mut r = join_text("[deps] bootstrap: ", tool);
    r.append(" ready at ");
    r.append(path);
    r
}

/// Writes `line` to the log, which holds `start` followed by `msgs`.
fn note(log: &mut DebugLog, line: &str, Ghost(start): Ghost<DebugLog>, Ghost(msgs): Ghost<Seq<Seq<char>>>)
    requires
        logged(start, *old(log), msgs),
        old(log).last_id() < u64::MAX,
    ensures
        logged(start, *final(log), msgs.push(line@)),
{
    let ghost before = *log;
    crate::debug_logs::write(log, line);
    proof {
        crate::debug_logs::lemma_logged_push(start, before, *log, msgs, line@);
    }
}

/// Whether `answer` is a possible answer of the port's `ensure_yt_dlp`.
pub open spec fn yt_dlp_answer<D: DependencyPort + ?Sized>(port: &D, answer: Result<String, DownloaderError>) -> bool {
    call_ensures(D::ensure_yt_dlp, (port,), answer)
}

/// Whether `answer` is a possible answer of the port's `ensure_ffmpeg`.
pub open spec fn ffmpeg_answer<D: DependencyPort + ?Sized>(port: &D, answer: Result<String, DownloaderError>) -> bool {
    call_ensures(D::ensure_ffmpeg, (port,), answer)
}

/// Whether `answer` is a possible answer of the port's `ensure_ffprobe`.
pub open spec fn ffprobe_answer<D: DependencyPort + ?Sized>(port: &D, answer: Result<String, DownloaderError>) -> bool {
    call_ensures(D::ensure_ffprobe, (port,), answer)
}

/// Whether `answer` is a possible answer of the port's `fetch_latest_release`.
pub open spec fn release_answer<R: ReleasePort + ?Sized>(port: &R, answer: Result<ReleaseInfo, DownloaderError>) -> bool {
    call_ensures(R::fetch_latest_release, (port,), answer)
}

/// The status an update check reports for the running version and the answer of the
/// release service.
pub open spec fn update_outcome(current: Seq<char>, fetched: Result<ReleaseInfo, DownloaderError>) -> UpdateStatus {
    match fetched {
        Ok(release) => if update_decision_ok(current, release) {
            UpdateStatus::UpdateAvailable(release)
        } else {
            UpdateStatus::UpToDate
        },
        Err(_) => UpdateStatus::UpToDate,
    }
}

/// What an update check concludes from the running version and the answer of the release
/// service: an update is offered exactly when the service answered with a release whose
/// version comes after the running one.
pub open spec fn update_decision_ok(current: Seq<char>, release: ReleaseInfo) -> bool {
    newer(version_numbers(release.version@), version_numbers(current))
}

/// The outcome of an update check, given the running version and what the release service
/// answered: a failed lookup counts as up to date.
pub fn decide_update(current: &str, fetched: Result<ReleaseInfo, DownloaderError>) -> (r:
    UpdateStatus)
    ensures
        match fetched {
            Ok(release) => if update_decision_ok(current@, release) {
                r == UpdateStatus::UpdateAvailable(release)
            } else {
                r == UpdateStatus::UpToDate
            },
            Err(_) => r == UpdateStatus::UpToDate,
        },
{
    match fetched {
        Ok(release) => {
            let cur = parse_version(current);
            let latest = parse_version(release.version.as_str());
            if is_newer(latest.as_slice(), cur.as_slice()) {
                UpdateStatus::UpdateAvailable(release)
            } else {
                UpdateStatus::UpToDate
            }
        },
        Err(_) => UpdateStatus::UpToDate,
    }
}

/// Checks whether a release newer than the running version has been published.
pub struct CheckForUpdatesUseCase<R: ReleasePort + ?Sized> {
    release_port: Arc<R>,
    current_version: String,
}

impl<R: ReleasePort + ?Sized> CheckForUpdatesUseCase<R> {
    /// The port that the use case asks.
    pub closed spec fn port(&self) -> Arc<R> {
        self.release_port
    }

    /// The version of the running application.
    pub closed spec fn current(&self) -> Seq<char> {
        self.current_version@
    }

    pub fn new(release_port: Arc<R>, current_version: String) -> (r: Self)
        ensures
            r.port() == release_port,
            r.current() == current_version@,
    {
        CheckForUpdatesUseCase { release_port, current_version }
    }

    /// Asks the release service for the newest release and compares it with the running
    /// version: the status is `update_outcome` of an answer that the service gave, so an
    /// update is only ever offered for a release whose version comes after the running one.
    pub fn execute(&self) -> (r: UpdateStatus)
        ensures
            exists|answer: Result<ReleaseInfo, DownloaderError>|
                #[trigger] release_answer(&*self.port(), answer) && r == update_outcome(
                    self.current(),
                    answer,
                ),
            r matches UpdateStatus::UpdateAvailable(release) ==> update_decision_ok(
                self.current(),
                release,
            ),
    {
        let fetched = self.release_port.fetch_latest_release();
        let ghost answer = fetched;
        let r = decide_update(self.current_version.as_str(), fetched);
        assert(release_answer(&*self.port(), answer) && r == update_outcome(self.current(), answer));
        r
    }
}

/// Puts the file that the user chose into the request; a canceled dialog ends the download
/// with `SaveCanceled`.
pub fn apply_save_choice(request: DownloadRequest, chosen: Option<String>) -> (r: Result<
    DownloadRequest,
    DownloaderError,
>)
    ensures
        match chosen {
            Some(path) => r matches Ok(req) && req == (DownloadRequest { output_path: path, ..request }),
            None => r matches Err(DownloaderError::SaveCanceled),
        },
{
    match chosen {
        Some(path) => {
            let mut request = request;
            request.output_path = path;
            Ok(request)
        },
        None => Err(DownloaderError::SaveCanceled),
    }
}


/// Update law: an update is offered exactly when the release's version numbers come after
/// the running version's in the order of `Vec<u64>`: at the first position where they differ
/// the release has the greater number, or the running version's numbers are a proper prefix
/// of the release's. So 2.0.0 is offered to 1.4.2, 1.10 to 1.9, and 1.2.1 to 1.2.
pub proof fn lemma_update_offered_exactly_when_later(current: Seq<char>, release: ReleaseInfo)
    ensures
        update_decision_ok(current, release) <==> ({
            let a = version_numbers(release.version@);
            let b = version_numbers(current);
            exists|i: int|
                0 <= i < a.len() && i <= b.len() && #[trigger] a.take(i) == b.take(i) && (i
                    == b.len() || a[i] > b[i])
        }),
{
    lemma_newer_is_first_difference(version_numbers(release.version@), version_numbers(current));
}

/// Update law: a release of the running version is never offered as an update.
pub proof fn lemma_same_version_not_offered(current: Seq<char>, release: ReleaseInfo)
    requires
        release.version@ == current,
    ensures
        !update_decision_ok(current, release),
{
    lemma_newer_irreflexive(version_numbers(current));
}

/// Update law: once the offered release runs, the version it replaced is never offered
/// back.
pub proof fn lemma_no_update_back(old_version: Seq<char>, offered: ReleaseInfo, back: ReleaseInfo)
    requires
        update_decision_ok(old_version, offered),
        back.version@ == old_version,
    ensures
        !update_decision_ok(offered.version@, back),
{
    lemma_newer_asymmetric(version_numbers(offered.version@), version_numbers(old_version));
}

} // verus!
