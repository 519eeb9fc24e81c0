//! Downloads that go straight into the vault: the file is fetched into a
//! scratch place, encrypted into the vault, and the scratch copy is deleted
//! whatever happened.
use vstd::prelude::*;
use crate::download_router::{spec_is_media_url, DownloadRouter};
use crate::downloader::{percent_value, push_arg, spec_percent_value};
use crate::text::{
    chars_of, contains, push_decimal, push_decimal_pad2, push_fixed2, push_str, spec_contains,
    spec_decimal, spec_decimal_pad2, spec_fixed2, spec_starts_with, starts_with, string_of, texts,
};

verus! {

/// A request to download into the vault.
#[derive(Debug, Clone)]
pub struct VaultDownloadRequest {
    pub id: String,
    pub url: String,
    pub original_name: String,
    /// `video` or `audio`.
    pub file_type: String,
    pub thumbnail: Option<String>,
    pub audio_only: bool,
    pub quality: Option<String>,
    pub format: Option<String>,
    pub audio_format: String,
    pub embed_metadata: bool,
    pub use_sponsorblock: bool,
}

/// The stages of a download into the vault.
#[derive(Debug, Clone, Copy, PartialEq, Eq, Structural)]
pub enum VaultDownloadStatus {
    Preparing,
    Downloading,
    Encrypting,
    Completed,
    Failed,
    Cancelled,
}

impl VaultDownloadStatus {
    /// The status as it is written in events.
    pub open spec fn spec_label(self) -> Seq<char> {
        match self {
            VaultDownloadStatus::Preparing => "preparing"@,
            VaultDownloadStatus::Downloading => "downloading"@,
            VaultDownloadStatus::Encrypting => "encrypting"@,
            VaultDownloadStatus::Completed => "completed"@,
            VaultDownloadStatus::Failed => "failed"@,
            VaultDownloadStatus::Cancelled => "cancelled"@,
        }
    }

    /// The status as it is written in events.
    pub fn label(&self) -> (s: String)
        ensures
            s@ == self.spec_label(),
    {
        match self {
            VaultDownloadStatus::Preparing => String::from_str("preparing"),
            VaultDownloadStatus::Downloading => String::from_str("downloading"),
            VaultDownloadStatus::Encrypting => String::from_str("encrypting"),
            VaultDownloadStatus::Completed => String::from_str("completed"),
            VaultDownloadStatus::Failed => String::from_str("failed"),
            VaultDownloadStatus::Cancelled => String::from_str("cancelled"),
        }
    }

    /// No event follows one with this status.
    pub open spec fn is_terminal(self) -> bool {
        self == VaultDownloadStatus::Completed || self == VaultDownloadStatus::Failed || self
            == VaultDownloadStatus::Cancelled
    }
}

/// One progress event of a download into the vault.
#[derive(Debug, Clone)]
pub struct VaultDownloadProgress {
    pub id: String,
    /// Hundredths of a percent, `0..=10000`.
    pub progress: u32,
    pub speed: String,
    pub eta: String,
    pub status: VaultDownloadStatus,
    pub downloaded_bytes: Option<i64>,
    pub total_bytes: Option<i64>,
    pub encrypted_bytes: Option<i64>,
}

/// A URL is fetched directly first unless its host is that of a media
/// platform: those go to the extractor at once.
pub open spec fn spec_is_direct_file_url(url: Seq<char>) -> bool {
    !spec_is_media_url(url)
}

/// Whether a URL is fetched directly first.
pub fn is_direct_file_url(url: &str) -> (b: bool)
    ensures
        b == spec_is_direct_file_url(url@),
{
    let router = DownloadRouter::new();
    !router.is_media_domain(url)
}

/// Bytes per second as a label in decimal units: `B/s` below 1000,
/// otherwise two decimals of `KB/s` or `MB/s`.
pub open spec fn spec_format_speed(bytes_per_sec: u64) -> Seq<char> {
    if bytes_per_sec >= 1000000 {
        spec_fixed2(bytes_per_sec as nat, 1000000) + "MB/s"@
    } else if bytes_per_sec >= 1000 {
        spec_fixed2(bytes_per_sec as nat, 1000) + "KB/s"@
    } else {
        spec_decimal(bytes_per_sec as nat) + "B/s"@
    }
}

/// Seconds as a clock: `MM:SS` below an hour, `HH:MM:SS` from an hour on,
/// each part with at least two digits.
pub open spec fn spec_format_eta(seconds: u64) -> Seq<char> {
    if seconds >= 3600 {
        spec_decimal_pad2((seconds / 3600) as nat) + seq![':'] + spec_decimal_pad2(
            ((seconds % 3600) / 60) as nat,
        ) + seq![':'] + spec_decimal_pad2((seconds % 60) as nat)
    } else {
        spec_decimal_pad2((seconds / 60) as nat) + seq![':'] + spec_decimal_pad2(
            (seconds % 60) as nat,
        )
    }
}

/// Human-readable transfer speed.
pub fn format_speed(bytes_per_sec: u64) -> (label: String)
    ensures
        label@ == spec_format_speed(bytes_per_sec),
{
    let mut out: Vec<char> = Vec::new();
    if bytes_per_sec >= 1000000 {
        push_fixed2(&mut out, bytes_per_sec, 1000000);
        push_str(&mut out, "MB/s");
    } else if bytes_per_sec >= 1000 {
        push_fixed2(&mut out, bytes_per_sec, 1000);
        push_str(&mut out, "KB/s");
    } else {
        push_decimal(&mut out, bytes_per_sec as u128);
        push_str(&mut out, "B/s");
    }
    string_of(&out)
}

/// Human-readable remaining time.
pub fn format_eta(seconds: u64) -> (label: String)
    ensures
        label@ == spec_format_eta(seconds),
{
    let mut out: Vec<char> = Vec::new();
    if seconds >= 3600 {
        push_decimal_pad2(&mut out, (seconds / 3600) as u128);
        out.push(':');
        push_decimal_pad2(&mut out, ((seconds % 3600) / 60) as u128);
        out.push(':');
        push_decimal_pad2(&mut out, (seconds % 60) as u128);
        proof {
            assert(out@ =~= spec_format_eta(seconds));
        }
    } else {
        push_decimal_pad2(&mut out, (seconds / 60) as u128);
        out.push(':');
        push_decimal_pad2(&mut out, (seconds % 60) as u128);
        proof {
            assert(out@ =~= spec_format_eta(seconds));
        }
    }
    string_of(&out)
}

/// What the first group of a regular expression captures in a text, at its
/// leftmost match; `None` where the expression does not match, or is no
/// expression.
pub uninterp spec fn spec_first_capture(pattern: Seq<char>, text: Seq<char>) -> Option<Seq<char>>;

/// `regex::Regex::new`, `Regex::captures` and `Captures::get(1)`. The
/// contract names the result and claims nothing more of it.
#[verifier::external_body]
pub(crate) fn first_capture(pattern: &str, text: &str) -> (out: Option<String>)
    ensures
        out is Some == spec_first_capture(pattern@, text@) is Some,
        out is Some ==> out->0@ == spec_first_capture(pattern@, text@)->0,
{
    let re = regex::Regex::new(pattern).ok()?;
    re.captures(text)?.get(1).map(|m| m.as_str().to_string())
}

/// Progress, speed and time left as they are read from the three captures
/// of a progress line: a percentage that is missing or unreadable counts
/// as 0, a speed or time that is missing is empty.
pub open spec fn spec_progress_from_captures(
    percent: Option<Seq<char>>,
    speed: Option<Seq<char>>,
    eta: Option<Seq<char>>,
) -> (u32, Seq<char>, Seq<char>) {
    (
        match percent {
            Some(p) => match spec_percent_value(p) {
                Some(v) => v,
                None => 0,
            },
            None => 0,
        },
        match speed {
            Some(s) => s,
            None => Seq::empty(),
        },
        match eta {
            Some(e) => e,
            None => Seq::empty(),
        },
    )
}

/// Progress, speed and time left from the three captures of a progress
/// line.
pub fn progress_from_captures(percent: Option<String>, speed: Option<String>, eta: Option<String>) -> (r:
    (u32, String, String))
    ensures
        r.0 == spec_progress_from_captures(
            crate::downloader::text_of(percent),
            crate::downloader::text_of(speed),
            crate::downloader::text_of(eta),
        ).0,
        r.1@ == spec_progress_from_captures(
            crate::downloader::text_of(percent),
            crate::downloader::text_of(speed),
            crate::downloader::text_of(eta),
        ).1,
        r.2@ == spec_progress_from_captures(
            crate::downloader::text_of(percent),
            crate::downloader::text_of(speed),
            crate::downloader::text_of(eta),
        ).2,
{
    let p: u32 = match percent {
        Some(text) => {
            let chars = chars_of(text.as_str());
            match percent_value(&chars) {
                Some(v) => v,
                None => 0,
            }
        },
        None => 0,
    };
    let s = match speed {
        Some(s) => s,
        None => String::new(),
    };
    let e = match eta {
        Some(e) => e,
        None => String::new(),
    };
    (p, s, e)
}

/// Reads a progress line of the extractor,
/// `[download]  50.0% of 100.00MiB at 5.00MiB/s ETA 00:10`: the number
/// before the first `%`, the word after `at` that ends in `/s`, and the
/// word after `ETA`.
pub fn parse_yt_dlp_progress(line: &str) -> (r: (u32, String, String))
    ensures
        r.0 == spec_progress_from_captures(
            spec_first_capture("(\\d+\\.?\\d*)%"@, line@),
            spec_first_capture("at\\s+(\\S+/s)"@, line@),
            spec_first_capture("ETA\\s+(\\S+)"@, line@),
        ).0,
        r.1@ == spec_progress_from_captures(
            spec_first_capture("(\\d+\\.?\\d*)%"@, line@),
            spec_first_capture("at\\s+(\\S+/s)"@, line@),
            spec_first_capture("ETA\\s+(\\S+)"@, line@),
        ).1,
        r.2@ == spec_progress_from_captures(
            spec_first_capture("(\\d+\\.?\\d*)%"@, line@),
            spec_first_capture("at\\s+(\\S+/s)"@, line@),
            spec_first_capture("ETA\\s+(\\S+)"@, line@),
        ).2,
{
    let percent = first_capture("(\\d+\\.?\\d*)%", line);
    let speed = first_capture("at\\s+(\\S+/s)", line);
    let eta = first_capture("ETA\\s+(\\S+)", line);
    progress_from_captures(percent, speed, eta)
}

/// The format selector for a quality of a download into the vault.
pub open spec fn spec_vault_selector(quality: Option<Seq<char>>) -> Seq<char> {
    match quality {
        Some(q) => if q == "best"@ || q == "4k"@ || q == "2160p"@ {
            "bestvideo[ext=mp4]+bestaudio[ext=m4a]/best[ext=mp4]/best"@
        } else if q == "1080p"@ {
            "bestvideo[height<=1080][ext=mp4]+bestaudio[ext=m4a]/best[height<=1080][ext=mp4]/best"@
        } else if q == "720p"@ {
            "bestvideo[height<=720][ext=mp4]+bestaudio[ext=m4a]/best[height<=720][ext=mp4]/best"@
        } else if q == "480p"@ {
            "bestvideo[height<=480][ext=mp4]+bestaudio[ext=m4a]/best[height<=480][ext=mp4]/best"@
        } else {
            "best[ext=mp4]/best"@
        },
        None => "best[ext=mp4]/best"@,
    }
}

/// The arguments with which the extractor fetches into the scratch file
/// `scratch_path`.
pub open spec fn spec_extractor_args(
    scratch_path: Seq<char>,
    url: Seq<char>,
    audio_only: bool,
    audio_format: Seq<char>,
    quality: Option<Seq<char>>,
    embed_metadata: bool,
    use_sponsorblock: bool,
) -> Seq<Seq<char>> {
    seq!["-o"@, scratch_path, "--no-playlist"@, "--no-warnings"@, "--progress"@, "--newline"@] + (
    if audio_only {
        seq!["-x"@, "--audio-format"@, audio_format]
    } else {
        seq!["-f"@, spec_vault_selector(quality)]
    }) + (if embed_metadata {
        seq!["--embed-metadata"@]
    } else {
        Seq::empty()
    }) + (if use_sponsorblock {
        seq!["--sponsorblock-remove"@, "all"@]
    } else {
        Seq::empty()
    }) + seq![url]
}

/// The format selector for a quality of a download into the vault.
pub fn vault_selector(quality: Option<&str>) -> (selector: &'static str)
    ensures
        selector@ == spec_vault_selector(
            match quality {
                Some(q) => Some(q@),
                None => None,
            },
        ),
{
    match quality {
        Some(q) => {
            let c = chars_of(q);
            if crate::text::is_text(&c, "best") || crate::text::is_text(&c, "4k")
                || crate::text::is_text(&c, "2160p") {
                "bestvideo[ext=mp4]+bestaudio[ext=m4a]/best[ext=mp4]/best"
            } else if crate::text::is_text(&c, "1080p") {
                "bestvideo[height<=1080][ext=mp4]+bestaudio[ext=m4a]/best[height<=1080][ext=mp4]/best"
            } else if crate::text::is_text(&c, "720p") {
                "bestvideo[height<=720][ext=mp4]+bestaudio[ext=m4a]/best[height<=720][ext=mp4]/best"
            } else if crate::text::is_text(&c, "480p") {
                "bestvideo[height<=480][ext=mp4]+bestaudio[ext=m4a]/best[height<=480][ext=mp4]/best"
            } else {
                "best[ext=mp4]/best"
            }
        },
        None => "best[ext=mp4]/best",
    }
}

/// The arguments with which the extractor fetches a request into the
/// scratch file `scratch_path`.
pub fn extractor_args(request: &VaultDownloadRequest, scratch_path: &str) -> (args: Vec<String>)
    ensures
        texts(args@) == spec_extractor_args(
            scratch_path@,
            request.url@,
            request.audio_only,
            request.audio_format@,
            crate::downloader::text_of(request.quality),
            request.embed_metadata,
            request.use_sponsorblock,
        ),
{
    let mut args: Vec<String> = Vec::new();
    proof {
        assert(texts(args@) =~= Seq::<Seq<char>>::empty());
    }
    push_arg(&mut args, "-o");
    push_arg(&mut args, scratch_path);
    push_arg(&mut args, "--no-playlist");
    push_arg(&mut args, "--no-warnings");
    push_arg(&mut args, "--progress");
    push_arg(&mut args, "--newline");
    if request.audio_only {
        push_arg(&mut args, "-x");
        push_arg(&mut args, "--audio-format");
        push_arg(&mut args, request.audio_format.as_str());
    } else {
        push_arg(&mut args, "-f");
        let selector = match &request.quality {
            Some(q) => vault_selector(Some(q.as_str())),
            None => vault_selector(None),
        };
        push_arg(&mut args, selector);
    }
    if request.embed_metadata {
        push_arg(&mut args, "--embed-metadata");
    }
    if request.use_sponsorblock {
        push_arg(&mut args, "--sponsorblock-remove");
        push_arg(&mut args, "all");
    }
    push_arg(&mut args, request.url.as_str());
    proof {
        assert(texts(args@) =~= spec_extractor_args(
            scratch_path@,
            request.url@,
            request.audio_only,
            request.audio_format@,
            crate::downloader::text_of(request.quality),
            request.embed_metadata,
            request.use_sponsorblock,
        ));
    }
    args
}

/// Where a download into the vault stands.
#[derive(Debug, Clone, Copy, PartialEq, Eq, Structural)]
pub enum AdapterState {
    /// Nothing has been fetched; the scratch place is being made.
    Preparing,
    /// The file is fetched directly over HTTP.
    FetchingDirect,
    /// The file is fetched by the extractor.
    FetchingByExtractor,
    /// The scratch file is encrypted into the vault.
    Encrypting,
    /// The scratch file is gone and the download is over.
    Finished,
}

/// What happened outside since the last step.
#[derive(Debug, Clone, Copy, PartialEq, Eq, Structural)]
pub enum AdapterEvent {
    /// The scratch place is ready.
    Prepared,
    /// The fetch ended well.
    FetchSucceeded,
    /// The fetch failed.
    FetchFailed,
    /// The user cancelled.
    Cancelled,
    /// The scratch file, of this many bytes, is in the vault.
    EncryptSucceeded(u64),
    /// Encryption failed.
    EncryptFailed,
}

/// What is to be done outside next.
#[derive(Debug, Clone, Copy, PartialEq, Eq, Structural)]
pub enum AdapterAction {
    /// Fetch the URL directly into the scratch file.
    FetchDirect,
    /// Let the extractor fetch into the scratch file.
    RunExtractor,
    /// Encrypt the scratch file into the vault.
    Encrypt,
    /// Delete the scratch file and end with this status; the bytes are the
    /// size of what went into the vault.
    DeleteScratchAndFinish(VaultDownloadStatus, u64),
    /// The event does not belong here; nothing is to be done.
    Ignore,
}

/// One step of a download into the vault: the state after `event`, and what
/// is to be done next.
///
/// A media platform goes to the extractor at once; everything else is
/// fetched directly first and goes to the extractor when that fails. A
/// fetch that succeeded is encrypted. Whatever ends the download, by
/// success, failure or cancellation, deletes the scratch file first.
pub open spec fn spec_adapter_step(
    state: AdapterState,
    event: AdapterEvent,
    direct_first: bool,
) -> (AdapterState, AdapterAction) {
    match (state, event) {
        (AdapterState::Finished, _) => (AdapterState::Finished, AdapterAction::Ignore),
        (_, AdapterEvent::Cancelled) => (
            AdapterState::Finished,
            AdapterAction::DeleteScratchAndFinish(VaultDownloadStatus::Cancelled, 0),
        ),
        (AdapterState::Preparing, AdapterEvent::Prepared) => if direct_first {
            (AdapterState::FetchingDirect, AdapterAction::FetchDirect)
        } else {
            (AdapterState::FetchingByExtractor, AdapterAction::RunExtractor)
        },
        (AdapterState::FetchingDirect, AdapterEvent::FetchSucceeded) => (
            AdapterState::Encrypting,
            AdapterAction::Encrypt,
        ),
        (AdapterState::FetchingDirect, AdapterEvent::FetchFailed) => (
            AdapterState::FetchingByExtractor,
            AdapterAction::RunExtractor,
        ),
        (AdapterState::FetchingByExtractor, AdapterEvent::FetchSucceeded) => (
            AdapterState::Encrypting,
            AdapterAction::Encrypt,
        ),
        (AdapterState::FetchingByExtractor, AdapterEvent::FetchFailed) => (
            AdapterState::Finished,
            AdapterAction::DeleteScratchAndFinish(VaultDownloadStatus::Failed, 0),
        ),
        (AdapterState::Encrypting, AdapterEvent::EncryptSucceeded(size)) => (
            AdapterState::Finished,
            AdapterAction::DeleteScratchAndFinish(VaultDownloadStatus::Completed, size),
        ),
        (AdapterState::Encrypting, AdapterEvent::EncryptFailed) => (
            AdapterState::Finished,
            AdapterAction::DeleteScratchAndFinish(VaultDownloadStatus::Failed, 0),
        ),
        (s, _) => (s, AdapterAction::Ignore),
    }
}

/// No scratch file outlives its download: a step ends the download exactly
/// when it orders the scratch file deleted, and a download that has ended
/// stays ended.
pub proof fn lemma_scratch_always_deleted(state: AdapterState, event: AdapterEvent, direct_first: bool)
    ensures
        state != AdapterState::Finished ==> (spec_adapter_step(state, event, direct_first).0
            == AdapterState::Finished <==> spec_adapter_step(state, event, direct_first).1
            is DeleteScratchAndFinish),
        state == AdapterState::Finished ==> spec_adapter_step(state, event, direct_first) == (
            AdapterState::Finished,
            AdapterAction::Ignore,
        ),
        spec_adapter_step(state, event, direct_first).1 is Encrypt ==> event
            == AdapterEvent::FetchSucceeded,
        spec_adapter_step(state, event, direct_first).1 matches AdapterAction::DeleteScratchAndFinish(
            status,
            _,
        ) ==> status.is_terminal(),
{
}

/// One step of a download into the vault.
pub fn adapter_step(state: AdapterState, event: AdapterEvent, direct_first: bool) -> (r: (
    AdapterState,
    AdapterAction,
))
    ensures
        r == spec_adapter_step(state, event, direct_first),
{
    match (state, event) {
        (AdapterState::Finished, _) => (AdapterState::Finished, AdapterAction::Ignore),
        (_, AdapterEvent::Cancelled) => (
            AdapterState::Finished,
            AdapterAction::DeleteScratchAndFinish(VaultDownloadStatus::Cancelled, 0),
        ),
        (AdapterState::Preparing, AdapterEvent::Prepared) => if direct_first {
            (AdapterState::FetchingDirect, AdapterAction::FetchDirect)
        } else {
            (AdapterState::FetchingByExtractor, AdapterAction::RunExtractor)
        },
        (AdapterState::FetchingDirect, AdapterEvent::FetchSucceeded) => (
            AdapterState::Encrypting,
            AdapterAction::Encrypt,
        ),
        (AdapterState::FetchingDirect, AdapterEvent::FetchFailed) => (
            AdapterState::FetchingByExtractor,
            AdapterAction::RunExtractor,
        ),
        (AdapterState::FetchingByExtractor, AdapterEvent::FetchSucceeded) => (
            AdapterState::Encrypting,
            AdapterAction::Encrypt,
        ),
        (AdapterState::FetchingByExtractor, AdapterEvent::FetchFailed) => (
            AdapterState::Finished,
            AdapterAction::DeleteScratchAndFinish(VaultDownloadStatus::Failed, 0),
        ),
        (AdapterState::Encrypting, AdapterEvent::EncryptSucceeded(size)) => (
            AdapterState::Finished,
            AdapterAction::DeleteScratchAndFinish(VaultDownloadStatus::Completed, size),
        ),
        (AdapterState::Encrypting, AdapterEvent::EncryptFailed) => (
            AdapterState::Finished,
            AdapterAction::DeleteScratchAndFinish(VaultDownloadStatus::Failed, 0),
        ),
        (s, _) => (s, AdapterAction::Ignore),
    }
}

/// The event that reports a stage of a download into the vault: nothing
/// fetched while preparing, 95 % while encrypting, and 100 % with the size
/// on completion.
pub fn stage_event(id: &str, status: VaultDownloadStatus, size: u64) -> (e: VaultDownloadProgress)
    ensures
        e.id@ == id@,
        e.status == status,
        e.progress == (match status {
            VaultDownloadStatus::Encrypting => 9500u32,
            VaultDownloadStatus::Completed => 10000u32,
            _ => 0u32,
        }),
        e.speed@.len() == 0,
        e.eta@.len() == 0,
        status == VaultDownloadStatus::Completed ==> e.downloaded_bytes == Some(
            crate::snde::clamp_i64_spec(size),
        ) && e.total_bytes == e.downloaded_bytes && e.encrypted_bytes == e.downloaded_bytes,
        status != VaultDownloadStatus::Completed ==> e.downloaded_bytes is None && e.total_bytes
            is None && e.encrypted_bytes is None,
{
    let progress: u32 = match status {
        VaultDownloadStatus::Encrypting => 9500,
        VaultDownloadStatus::Completed => 10000,
        _ => 0,
    };
    let bytes = match status {
        VaultDownloadStatus::Completed => Some(crate::text::clamp_i64(size)),
        _ => None,
    };
    VaultDownloadProgress {
        id: String::from_str(id),
        progress,
        speed: String::new(),
        eta: String::new(),
        status,
        downloaded_bytes: bytes,
        total_bytes: bytes,
        encrypted_bytes: bytes,
    }
}

/// The name of a scratch file: a random id and `.tmp`.
pub fn scratch_file_name() -> (name: String)
    ensures
        crate::text::spec_ends_with(name@, ".tmp"@),
{
    let id = crate::vault::random_id();
    let mut out = chars_of(id.as_str());
    push_str(&mut out, ".tmp");
    proof {
        assert(out@.subrange(out@.len() - ".tmp"@.len(), out@.len() as int) =~= ".tmp"@);
    }
    string_of(&out)
}

/// Whether a file found in the scratch place is the one the extractor
/// wrote for the scratch file of stem `stem`: the extractor may have added
/// an extension of its own.
pub fn is_scratch_output(file_name: &str, stem: &str) -> (b: bool)
    ensures
        b == spec_starts_with(file_name@, stem@),
{
    let f = chars_of(file_name);
    let s = chars_of(stem);
    starts_with(&f, &s)
}


/// A line of the extractor that reports progress: one that holds
/// `[download]` and a percent sign.
pub open spec fn spec_is_progress_line(line: Seq<char>) -> bool {
    spec_contains(line, "[download]"@) && spec_contains(line, "%"@)
}

/// Whether a line of the extractor reports progress.
pub fn is_progress_line(line: &str) -> (b: bool)
    ensures
        b == spec_is_progress_line(line@),
{
    let l = chars_of(line);
    contains(&l, &chars_of("[download]")) && contains(&l, &chars_of("%"))
}

} // verus!
