//! Routing: how a URL is to be fetched.
//!
//! A URL is classified by its host and path, the origin is probed for range
//! support, what is known of the host is consulted, and one immutable
//! decision comes out. Routing reads reputation and never writes it.
use vstd::prelude::*;
use crate::health_metrics::DownloadEngine;
use crate::host_reputation::{
    extract_domain, spec_extract_domain, spec_lookup, HostReputation, HostReputationManager,
    ReputationView,
};
use crate::text::{
    chars_of, ends_with, is_text, parse_u64, push_decimal, push_str, slice_chars, spec_decimal,
    spec_ends_with, spec_parse_u64, spec_strip_end, string_of, strip_end, CharClass,
};
use crate::urls::{lowercase, parse_url, spec_lowercase, spec_url_parts};

verus! {

/// Hosts of media platforms, served by the media extractor. A host belongs
/// to a platform when it ends with one of these names.
pub open spec fn spec_media_domains() -> Seq<&'static str> {
    seq![
        "youtube.com",
        "www.youtube.com",
        "youtu.be",
        "m.youtube.com",
        "vimeo.com",
        "player.vimeo.com",
        "dailymotion.com",
        "www.dailymotion.com",
        "twitch.tv",
        "www.twitch.tv",
        "clips.twitch.tv",
        "facebook.com",
        "www.facebook.com",
        "fb.watch",
        "instagram.com",
        "www.instagram.com",
        "twitter.com",
        "www.twitter.com",
        "x.com",
        "www.x.com",
        "tiktok.com",
        "www.tiktok.com",
        "vm.tiktok.com",
        "reddit.com",
        "www.reddit.com",
        "v.redd.it",
        "bilibili.com",
        "www.bilibili.com",
        "nicovideo.jp",
        "www.nicovideo.jp",
        "soundcloud.com",
        "www.soundcloud.com",
        "bandcamp.com",
        "mixcloud.com",
        "www.mixcloud.com",
        "cnn.com",
        "www.cnn.com",
        "bbc.co.uk",
        "www.bbc.co.uk",
        "bbc.com",
        "streamable.com",
        "gfycat.com",
        "www.gfycat.com",
        "imgur.com",
        "i.imgur.com",
    ]
}

/// File extensions of static files, served by the native engine.
pub open spec fn spec_static_extensions() -> Seq<&'static str> {
    seq![
        "zip",
        "rar",
        "7z",
        "tar",
        "gz",
        "bz2",
        "xz",
        "exe",
        "msi",
        "dmg",
        "pkg",
        "deb",
        "rpm",
        "appimage",
        "iso",
        "img",
        "pdf",
        "doc",
        "docx",
        "xls",
        "xlsx",
        "ppt",
        "pptx",
        "mp4",
        "mkv",
        "avi",
        "mov",
        "webm",
        "flv",
        "mp3",
        "flac",
        "wav",
        "ogg",
        "m4a",
        "aac",
        "apk",
        "ipa",
    ]
}

/// The frozen list of media-platform hosts.
pub fn media_domains() -> (list: Vec<&'static str>)
    ensures
        list@ == spec_media_domains(),
{
    vec![
        "youtube.com",
        "www.youtube.com",
        "youtu.be",
        "m.youtube.com",
        "vimeo.com",
        "player.vimeo.com",
        "dailymotion.com",
        "www.dailymotion.com",
        "twitch.tv",
        "www.twitch.tv",
        "clips.twitch.tv",
        "facebook.com",
        "www.facebook.com",
        "fb.watch",
        "instagram.com",
        "www.instagram.com",
        "twitter.com",
        "www.twitter.com",
        "x.com",
        "www.x.com",
        "tiktok.com",
        "www.tiktok.com",
        "vm.tiktok.com",
        "reddit.com",
        "www.reddit.com",
        "v.redd.it",
        "bilibili.com",
        "www.bilibili.com",
        "nicovideo.jp",
        "www.nicovideo.jp",
        "soundcloud.com",
        "www.soundcloud.com",
        "bandcamp.com",
        "mixcloud.com",
        "www.mixcloud.com",
        "cnn.com",
        "www.cnn.com",
        "bbc.co.uk",
        "www.bbc.co.uk",
        "bbc.com",
        "streamable.com",
        "gfycat.com",
        "www.gfycat.com",
        "imgur.com",
        "i.imgur.com",
    ]
}

/// The frozen list of static-file extensions.
pub fn static_extensions() -> (list: Vec<&'static str>)
    ensures
        list@ == spec_static_extensions(),
{
    vec![
        "zip",
        "rar",
        "7z",
        "tar",
        "gz",
        "bz2",
        "xz",
        "exe",
        "msi",
        "dmg",
        "pkg",
        "deb",
        "rpm",
        "appimage",
        "iso",
        "img",
        "pdf",
        "doc",
        "docx",
        "xls",
        "xlsx",
        "ppt",
        "pptx",
        "mp4",
        "mkv",
        "avi",
        "mov",
        "webm",
        "flv",
        "mp3",
        "flac",
        "wav",
        "ogg",
        "m4a",
        "aac",
        "apk",
        "ipa",
    ]
}

/// Classes of URL.
#[derive(Debug, Clone, Copy, PartialEq, Eq, Structural)]
pub enum UrlClass {
    MediaPlatform,
    StaticFile,
    Unknown,
}

/// `host` ends with the name of a media platform.
pub open spec fn spec_is_media_host(host: Seq<char>) -> bool {
    exists|i: int|
        0 <= i < spec_media_domains().len() && spec_ends_with(
            host,
            (#[trigger] spec_media_domains()[i])@,
        )
}

/// `path` ends with a dot and a static-file extension.
pub open spec fn spec_is_static_path(path: Seq<char>) -> bool {
    exists|i: int|
        0 <= i < spec_static_extensions().len() && spec_ends_with(
            path,
            seq!['.'] + (#[trigger] spec_static_extensions()[i])@,
        )
}

/// The URL has a host, and the host, in lower case, is that of a media
/// platform.
pub open spec fn spec_is_media_url(url: Seq<char>) -> bool {
    match spec_extract_domain(url) {
        Some(host) => spec_is_media_host(spec_lowercase(host)),
        None => false,
    }
}

/// The URL parses, and its path, in lower case, is that of a static file.
pub open spec fn spec_is_static_url(url: Seq<char>) -> bool {
    match spec_url_parts(url) {
        Some(parts) => spec_is_static_path(spec_lowercase(parts.path)),
        None => false,
    }
}

/// The class of a URL: a media platform by its host, else a static file by
/// its path, else unknown.
pub open spec fn spec_classify(url: Seq<char>) -> UrlClass {
    if spec_is_media_url(url) {
        UrlClass::MediaPlatform
    } else if spec_is_static_url(url) {
        UrlClass::StaticFile
    } else {
        UrlClass::Unknown
    }
}

/// Whether `host`, given in lower case, is the host of a media platform.
pub fn is_media_host(host: &str) -> (b: bool)
    ensures
        b == spec_is_media_host(host@),
{
    let h = chars_of(host);
    let list = media_domains();
    let mut i: usize = 0;
    while i < list.len()
        invariant
            i <= list.len(),
            list@ == spec_media_domains(),
            h@ == host@,
            forall|j: int| 0 <= j < i ==> !spec_ends_with(host@, (#[trigger] spec_media_domains()[j])@),
        decreases list.len() - i,
    {
        let d = chars_of(list[i]);
        if ends_with(&h, &d) {
            return true;
        }
        i += 1;
    }
    false
}

/// Whether `path`, given in lower case, names a static file.
pub fn is_static_path(path: &str) -> (b: bool)
    ensures
        b == spec_is_static_path(path@),
{
    let p = chars_of(path);
    let list = static_extensions();
    let mut i: usize = 0;
    while i < list.len()
        invariant
            i <= list.len(),
            list@ == spec_static_extensions(),
            p@ == path@,
            forall|j: int|
                0 <= j < i ==> !spec_ends_with(
                    path@,
                    seq!['.'] + (#[trigger] spec_static_extensions()[j])@,
                ),
        decreases list.len() - i,
    {
        let mut suffix: Vec<char> = Vec::new();
        suffix.push('.');
        push_str(&mut suffix, list[i]);
        proof {
            assert(suffix@ =~= seq!['.'] + spec_static_extensions()[i as int]@);
        }
        if ends_with(&p, &suffix) {
            return true;
        }
        i += 1;
    }
    false
}

/// What a probe of the origin found.
#[derive(Debug, Clone)]
pub struct ProbeResult {
    /// The server answered with a success status.
    pub success: bool,
    pub supports_range: bool,
    pub content_length: Option<u64>,
    pub content_type: Option<String>,
    /// `http0.9`, `http1.0`, `http1.1`, `http2`, `http3` or `unknown`.
    pub protocol: String,
    /// Time from sending the request to receiving the headers.
    pub response_time_ms: u64,
    pub server: Option<String>,
    pub error: Option<String>,
}

/// The text of an optional string.
pub open spec fn opt_text(s: Option<String>) -> Option<Seq<char>> {
    match s {
        Some(t) => Some(t@),
        None => None,
    }
}

/// The mathematical content of a `ProbeResult`.
pub struct ProbeView {
    pub success: bool,
    pub supports_range: bool,
    pub content_length: Option<u64>,
    pub content_type: Option<Seq<char>>,
    pub protocol: Seq<char>,
    pub response_time_ms: u64,
    pub server: Option<Seq<char>>,
    pub error: Option<Seq<char>>,
}

impl View for ProbeResult {
    type V = ProbeView;

    open spec fn view(&self) -> ProbeView {
        ProbeView {
            success: self.success,
            supports_range: self.supports_range,
            content_length: self.content_length,
            content_type: opt_text(self.content_type),
            protocol: self.protocol@,
            response_time_ms: self.response_time_ms,
            server: opt_text(self.server),
            error: opt_text(self.error),
        }
    }
}

impl ProbeView {
    /// A probe that found nothing.
    pub open spec fn empty() -> ProbeView {
        ProbeView {
            success: false,
            supports_range: false,
            content_length: None,
            content_type: None,
            protocol: "unknown"@,
            response_time_ms: 0,
            server: None,
            error: None,
        }
    }

    /// A probe that failed after `response_time_ms` with `error`.
    pub open spec fn failed(error: Seq<char>, response_time_ms: u64) -> ProbeView {
        ProbeView { response_time_ms, error: Some(error), ..ProbeView::empty() }
    }
}

impl Default for ProbeResult {
    fn default() -> (p: Self)
        ensures
            p@ == ProbeView::empty(),
    {
        ProbeResult {
            success: false,
            supports_range: false,
            content_length: None,
            content_type: None,
            protocol: String::from_str("unknown"),
            response_time_ms: 0,
            server: None,
            error: None,
        }
    }
}

/// The HTTP version a response came over.
#[derive(Debug, Clone, Copy, PartialEq, Eq, Structural)]
pub enum HttpVersion {
    Http09,
    Http10,
    Http11,
    Http2,
    Http3,
    /// A version this crate has no name for.
    Other,
}

impl HttpVersion {
    /// The protocol label of the version; versions without a name of their
    /// own count as HTTP/1.1.
    pub open spec fn spec_label(self) -> Seq<char> {
        match self {
            HttpVersion::Http09 => "http0.9"@,
            HttpVersion::Http10 => "http1.0"@,
            HttpVersion::Http11 => "http1.1"@,
            HttpVersion::Http2 => "http2"@,
            HttpVersion::Http3 => "http3"@,
            HttpVersion::Other => "http1.1"@,
        }
    }

    /// The protocol label of the version.
    pub fn label(&self) -> (s: String)
        ensures
            s@ == self.spec_label(),
    {
        match self {
            HttpVersion::Http09 => String::from_str("http0.9"),
            HttpVersion::Http10 => String::from_str("http1.0"),
            HttpVersion::Http11 => String::from_str("http1.1"),
            HttpVersion::Http2 => String::from_str("http2"),
            HttpVersion::Http3 => String::from_str("http3"),
            HttpVersion::Other => String::from_str("http1.1"),
        }
    }
}

/// The status line and the headers of a probe response that routing reads.
pub struct ProbeResponse {
    pub status: u16,
    pub version: HttpVersion,
    /// `Accept-Ranges`
    pub accept_ranges: Option<String>,
    /// `Content-Range`
    pub content_range: Option<String>,
    /// `Content-Length`
    pub content_length: Option<String>,
    /// `Content-Type`
    pub content_type: Option<String>,
    /// `Server`
    pub server: Option<String>,
}

/// The total size that a `Content-Range` value names: the number behind its
/// last `/`.
pub open spec fn spec_range_total(value: Seq<char>) -> Option<u64> {
    let before = spec_strip_end(value, CharClass::NotSlash);
    if before.len() == 0 {
        None
    } else {
        spec_parse_u64(value.skip(before.len() as int))
    }
}

/// The total size that a `Content-Range` value names.
pub fn range_total(value: &str) -> (total: Option<u64>)
    ensures
        total == spec_range_total(value@),
{
    let v = chars_of(value);
    let before = strip_end(&v, CharClass::NotSlash);
    if before.len() == 0 {
        None
    } else {
        let tail = slice_chars(&v, before.len(), v.len());
        proof {
            assert(v@.skip(before@.len() as int) =~= v@.subrange(
                before@.len() as int,
                v@.len() as int,
            ));
        }
        parse_u64(&tail)
    }
}

/// The number in an optional header value.
pub open spec fn spec_header_number(value: Option<Seq<char>>) -> Option<u64> {
    match value {
        Some(v) => spec_parse_u64(v),
        None => None,
    }
}

/// What a probe response says of the origin:
/// success on a 2xx status; range support on 206 or `Accept-Ranges:
/// bytes`; the size from the total of `Content-Range` on 206 and from
/// `Content-Length` otherwise; the protocol from the HTTP version.
pub open spec fn spec_probe_result(
    status: u16,
    version: HttpVersion,
    accept_ranges: Option<Seq<char>>,
    content_range: Option<Seq<char>>,
    content_length: Option<Seq<char>>,
    content_type: Option<Seq<char>>,
    server: Option<Seq<char>>,
    response_time_ms: u64,
) -> ProbeView {
    ProbeView {
        success: 200 <= status <= 299,
        supports_range: status == 206 || accept_ranges == Some("bytes"@),
        content_length: if status == 206 {
            match content_range {
                Some(v) => spec_range_total(v),
                None => None,
            }
        } else {
            spec_header_number(content_length)
        },
        content_type,
        protocol: version.spec_label(),
        response_time_ms,
        server,
        error: None,
    }
}

impl ProbeResult {
    /// What the response to a probe says of the origin.
    pub fn from_response(response: ProbeResponse, response_time_ms: u64) -> (p: Self)
        ensures
            p@ == spec_probe_result(
                response.status,
                response.version,
                opt_text(response.accept_ranges),
                opt_text(response.content_range),
                opt_text(response.content_length),
                opt_text(response.content_type),
                opt_text(response.server),
                response_time_ms,
            ),
    {
        let accepts = match &response.accept_ranges {
            Some(v) => {
                let c = chars_of(v.as_str());
                is_text(&c, "bytes")
            },
            None => false,
        };
        let content_length = if response.status == 206 {
            match &response.content_range {
                Some(v) => range_total(v.as_str()),
                None => None,
            }
        } else {
            match &response.content_length {
                Some(v) => {
                    let c = chars_of(v.as_str());
                    parse_u64(&c)
                },
                None => None,
            }
        };
        ProbeResult {
            success: 200 <= response.status && response.status <= 299,
            supports_range: response.status == 206 || accepts,
            content_length,
            content_type: response.content_type,
            protocol: response.version.label(),
            response_time_ms,
            server: response.server,
            error: None,
        }
    }

    /// A probe whose request failed; `cause` says how.
    pub fn request_failed(cause: &str, response_time_ms: u64) -> (p: Self)
        ensures
            p@ == ProbeView::failed("Request failed: "@ + cause@, response_time_ms),
    {
        let mut text: Vec<char> = Vec::new();
        push_str(&mut text, "Request failed: ");
        push_str(&mut text, cause);
        proof {
            assert(text@ =~= "Request failed: "@ + cause@);
        }
        ProbeResult {
            success: false,
            supports_range: false,
            content_length: None,
            content_type: None,
            protocol: String::from_str("unknown"),
            response_time_ms,
            server: None,
            error: Some(string_of(&text)),
        }
    }

    /// A probe that ran into its time limit.
    pub fn timed_out(response_time_ms: u64) -> (p: Self)
        ensures
            p@ == ProbeView::failed("Probe timed out"@, response_time_ms),
    {
        ProbeResult {
            success: false,
            supports_range: false,
            content_length: None,
            content_type: None,
            protocol: String::from_str("unknown"),
            response_time_ms,
            server: None,
            error: Some(String::from_str("Probe timed out")),
        }
    }
}

/// How one download is to be fetched. Made once, never changed.
#[derive(Debug, Clone)]
pub struct RoutingDecision {
    pub engine: DownloadEngine,
    /// Between 1 and 16.
    pub recommended_connections: u8,
    /// Why the decision fell as it did.
    pub reason: String,
    pub force_http1: bool,
    pub file_size: Option<u64>,
    /// What was known of the host.
    pub host_reputation: Option<HostReputation>,
    /// What the probe found; none where no probe was made.
    pub probe_result: Option<ProbeResult>,
    /// The engine's label.
    pub badge: String,
}

/// The mathematical content of a `RoutingDecision`.
pub struct DecisionView {
    pub engine: DownloadEngine,
    pub recommended_connections: u8,
    pub reason: Seq<char>,
    pub force_http1: bool,
    pub file_size: Option<u64>,
    pub host_reputation: Option<ReputationView>,
    pub probe_result: Option<ProbeView>,
    pub badge: Seq<char>,
}

impl View for RoutingDecision {
    type V = DecisionView;

    open spec fn view(&self) -> DecisionView {
        DecisionView {
            engine: self.engine,
            recommended_connections: self.recommended_connections,
            reason: self.reason@,
            force_http1: self.force_http1,
            file_size: self.file_size,
            host_reputation: match self.host_reputation {
                Some(r) => Some(r@),
                None => None,
            },
            probe_result: match self.probe_result {
                Some(p) => Some(p@),
                None => None,
            },
            badge: self.badge@,
        }
    }
}

/// The decision for a media platform: the extractor, one connection, and
/// no probe.
pub open spec fn media_decision() -> DecisionView {
    DecisionView {
        engine: DownloadEngine::MediaEngine,
        recommended_connections: 1,
        reason: "media platform"@,
        force_http1: false,
        file_size: None,
        host_reputation: None,
        probe_result: None,
        badge: DownloadEngine::MediaEngine.spec_badge(),
    }
}

/// Connections for a host nothing is known of, by size: 8 above 100 MB,
/// 6 above 10 MB, 4 above 1 MB, else 2.
pub open spec fn size_tier_connections(size: Option<u64>) -> u8 {
    match size {
        Some(n) => if n > 100000000 {
            8
        } else if n > 10000000 {
            6
        } else if n > 1000000 {
            4
        } else {
            2
        },
        None => 2,
    }
}

/// `n` held inside `[1, 16]`.
pub open spec fn clamp_connections(n: u8) -> u8 {
    if n < 1 {
        1
    } else if n > 16 {
        16
    } else {
        n
    }
}

/// The reason given when the probe failed.
pub open spec fn probe_failed_reason(error: Option<Seq<char>>) -> Seq<char> {
    "Probe failed ("@ + (match error {
        Some(e) => e,
        None => "unknown error"@,
    }) + "), using Media Engine as fallback"@
}

/// The reason given when the origin supports ranges.
pub open spec fn range_reason(connections: u8, known_host: bool) -> Seq<char> {
    "Range requests supported, "@ + spec_decimal(connections as nat)
        + " conn recommended (history: "@ + (if known_host {
        "known host"@
    } else {
        "new host"@
    }) + ")"@
}

/// The decision after a probe, for a URL that is no media platform:
///
/// - a failed probe leads to the extractor, the reason carrying the error;
/// - with range support the native engine runs, over as many connections
///   as the host is known to stand, or as the size suggests for a host
///   nothing is known of; a host of health below 30 or of at most one
///   stable connection gets the safe engine, every other the accelerated
///   engine over HTTP/1.1;
/// - without range support a static file goes to the safe engine over one
///   connection, and anything else to the extractor.
pub open spec fn spec_decide(
    is_static: bool,
    reputation: Option<ReputationView>,
    probe: ProbeView,
) -> DecisionView {
    if !probe.success {
        DecisionView {
            engine: DownloadEngine::MediaEngine,
            recommended_connections: 1,
            reason: probe_failed_reason(probe.error),
            force_http1: false,
            file_size: None,
            host_reputation: reputation,
            probe_result: Some(probe),
            badge: DownloadEngine::MediaEngine.spec_badge(),
        }
    } else if probe.supports_range {
        let connections = match reputation {
            Some(rep) => clamp_connections(rep.max_stable_conns),
            None => size_tier_connections(probe.content_length),
        };
        let engine = match reputation {
            Some(rep) => if rep.health_score < 30 || rep.max_stable_conns <= 1 {
                DownloadEngine::SNDESafe
            } else {
                DownloadEngine::SNDE
            },
            None => DownloadEngine::SNDE,
        };
        DecisionView {
            engine,
            recommended_connections: connections,
            reason: range_reason(connections, reputation is Some),
            force_http1: engine == DownloadEngine::SNDE,
            file_size: probe.content_length,
            host_reputation: reputation,
            probe_result: Some(probe),
            badge: engine.spec_badge(),
        }
    } else if is_static {
        DecisionView {
            engine: DownloadEngine::SNDESafe,
            recommended_connections: 1,
            reason: "Static file detected but no Range support - using safe single connection"@,
            force_http1: false,
            file_size: probe.content_length,
            host_reputation: reputation,
            probe_result: Some(probe),
            badge: DownloadEngine::SNDESafe.spec_badge(),
        }
    } else {
        DecisionView {
            engine: DownloadEngine::MediaEngine,
            recommended_connections: 1,
            reason: "No Range support and not a static file - Media Engine for safety"@,
            force_http1: false,
            file_size: probe.content_length,
            host_reputation: reputation,
            probe_result: Some(probe),
            badge: DownloadEngine::MediaEngine.spec_badge(),
        }
    }
}

/// What is known of the host of `url` in `table`.
pub open spec fn spec_known_reputation(url: Seq<char>, table: Option<Seq<ReputationView>>) -> Option<
    ReputationView,
> {
    match (spec_extract_domain(url), table) {
        (Some(domain), Some(t)) => spec_lookup(t, domain),
        _ => None,
    }
}

/// The decision for `url`: a media platform goes to the extractor whatever
/// the probe found; every other URL is decided by the probe.
pub open spec fn spec_route(
    url: Seq<char>,
    reputation: Option<ReputationView>,
    probe: ProbeView,
) -> DecisionView {
    if spec_is_media_url(url) {
        media_decision()
    } else {
        spec_decide(spec_is_static_url(url), reputation, probe)
    }
}

/// Router heuristic: a URL whose host is that of a media platform is
/// routed to the extractor over one connection, whatever the probe found
/// and whatever is known of the host.
pub proof fn lemma_media_url_routes_to_extractor(
    url: Seq<char>,
    reputation: Option<ReputationView>,
    probe: ProbeView,
)
    requires
        spec_is_media_url(url),
    ensures
        spec_route(url, reputation, probe) == media_decision(),
        spec_route(url, reputation, probe).engine == DownloadEngine::MediaEngine,
        spec_route(url, reputation, probe).recommended_connections == 1,
        spec_route(url, reputation, probe).badge == "MEDIA ENGINE"@,
        spec_route(url, reputation, probe).probe_result is None,
{
}

/// Router heuristic, by suffix: where the lower-case host of a URL ends
/// with any name of the media-platform list, the URL is routed to the
/// extractor whatever the probe found.
pub proof fn lemma_media_suffix_routes_to_extractor(
    url: Seq<char>,
    host: Seq<char>,
    i: int,
    reputation: Option<ReputationView>,
    probe: ProbeView,
)
    requires
        spec_extract_domain(url) == Some(host),
        0 <= i < spec_media_domains().len(),
        spec_ends_with(spec_lowercase(host), spec_media_domains()[i]@),
    ensures
        spec_route(url, reputation, probe).engine == DownloadEngine::MediaEngine,
        spec_route(url, reputation, probe).recommended_connections == 1,
{
    assert(spec_is_media_host(spec_lowercase(host)));
}

/// Every decision recommends between 1 and 16 connections, forces HTTP/1.1
/// exactly for the accelerated engine, and carries the label of its engine.
pub proof fn lemma_decision_bounds(
    url: Seq<char>,
    reputation: Option<ReputationView>,
    probe: ProbeView,
)
    ensures
        1 <= spec_route(url, reputation, probe).recommended_connections <= 16,
        spec_route(url, reputation, probe).force_http1 == (spec_route(url, reputation, probe).engine
            == DownloadEngine::SNDE),
        spec_route(url, reputation, probe).badge == spec_route(
            url,
            reputation,
            probe,
        ).engine.spec_badge(),
{
}

/// The router: its one setting is the time a probe may take.
#[derive(Debug, Clone, Copy, PartialEq, Eq, Structural)]
pub struct DownloadRouter {
    /// Time limit of a probe, in milliseconds.
    pub probe_timeout_ms: u64,
}

impl DownloadRouter {
    /// A router whose probes may take 2 seconds.
    pub fn new() -> (r: Self)
        ensures
            r.probe_timeout_ms == 2000,
    {
        DownloadRouter { probe_timeout_ms: 2000 }
    }

    /// A router whose probes may take `probe_timeout_ms` milliseconds.
    pub fn with_timeout(probe_timeout_ms: u64) -> (r: Self)
        ensures
            r.probe_timeout_ms == probe_timeout_ms,
    {
        DownloadRouter { probe_timeout_ms }
    }

    /// Whether the host of `url` is that of a media platform.
    pub fn is_media_domain(&self, url: &str) -> (b: bool)
        ensures
            b == spec_is_media_url(url@),
    {
        match extract_domain(url) {
            Some(domain) => {
                let lower = lowercase(domain.as_str());
                is_media_host(lower.as_str())
            },
            None => false,
        }
    }

    /// Whether the path of `url` names a static file.
    pub fn is_static_file(&self, url: &str) -> (b: bool)
        ensures
            b == spec_is_static_url(url@),
    {
        match parse_url(url) {
            Some(parsed) => {
                let lower = lowercase(parsed.path.as_str());
                is_static_path(lower.as_str())
            },
            None => false,
        }
    }

    /// The class of `url`.
    pub fn classify(&self, url: &str) -> (c: UrlClass)
        ensures
            c == spec_classify(url@),
    {
        if self.is_media_domain(url) {
            UrlClass::MediaPlatform
        } else if self.is_static_file(url) {
            UrlClass::StaticFile
        } else {
            UrlClass::Unknown
        }
    }

    /// The first step of routing, before any network traffic: the decision
    /// for a media platform, or nothing where a probe has to decide.
    pub fn preflight(&self, url: &str) -> (d: Option<RoutingDecision>)
        ensures
            d is Some == spec_is_media_url(url@),
            d is Some ==> d->0@ == media_decision(),
    {
        if self.is_media_domain(url) {
            Some(media_route())
        } else {
            None
        }
    }

    /// The decision for `url`, given what `reputation_manager` knows of its
    /// host and what the probe found.
    pub fn route(
        &self,
        url: &str,
        reputation_manager: Option<&HostReputationManager>,
        probe_result: ProbeResult,
    ) -> (d: RoutingDecision)
        ensures
            d@ == spec_route(
                url@,
                spec_known_reputation(
                    url@,
                    match reputation_manager {
                        Some(m) => Some(m@),
                        None => None,
                    },
                ),
                probe_result@,
            ),
            1 <= d.recommended_connections <= 16,
            spec_is_media_url(url@) ==> d.engine == DownloadEngine::MediaEngine,
    {
        if self.is_media_domain(url) {
            return media_route();
        }
        let is_static = self.is_static_file(url);
        let reputation = match (extract_domain(url), reputation_manager) {
            (Some(domain), Some(manager)) => manager.lookup(domain.as_str()),
            _ => None,
        };
        decide(is_static, reputation, probe_result)
    }
}

impl Default for DownloadRouter {
    fn default() -> (r: Self)
        ensures
            r.probe_timeout_ms == 2000,
    {
        DownloadRouter::new()
    }
}

/// The decision for a media platform.
pub fn media_route() -> (d: RoutingDecision)
    ensures
        d@ == media_decision(),
{
    RoutingDecision {
        engine: DownloadEngine::MediaEngine,
        recommended_connections: 1,
        reason: String::from_str("media platform"),
        force_http1: false,
        file_size: None,
        host_reputation: None,
        probe_result: None,
        badge: DownloadEngine::MediaEngine.badge(),
    }
}

/// The decision after a probe, for a URL that is no media platform.
pub fn decide(is_static: bool, reputation: Option<HostReputation>, probe: ProbeResult) -> (d:
    RoutingDecision)
    ensures
        d@ == spec_decide(
            is_static,
            match reputation {
                Some(r) => Some(r@),
                None => None,
            },
            probe@,
        ),
        1 <= d.recommended_connections <= 16,
{
    if !probe.success {
        let mut reason: Vec<char> = Vec::new();
        push_str(&mut reason, "Probe failed (");
        match &probe.error {
            Some(e) => push_str(&mut reason, e.as_str()),
            None => push_str(&mut reason, "unknown error"),
        }
        push_str(&mut reason, "), using Media Engine as fallback");
        proof {
            assert(reason@ =~= probe_failed_reason(probe@.error));
        }
        return RoutingDecision {
            engine: DownloadEngine::MediaEngine,
            recommended_connections: 1,
            reason: string_of(&reason),
            force_http1: false,
            file_size: None,
            host_reputation: reputation,
            probe_result: Some(probe),
            badge: DownloadEngine::MediaEngine.badge(),
        };
    }
    if probe.supports_range {
        let connections: u8 = match &reputation {
            Some(rep) => if rep.max_stable_conns < 1 {
                1
            } else if rep.max_stable_conns > 16 {
                16
            } else {
                rep.max_stable_conns
            },
            None => match probe.content_length {
                Some(n) => if n > 100000000 {
                    8
                } else if n > 10000000 {
                    6
                } else if n > 1000000 {
                    4
                } else {
                    2
                },
                None => 2,
            },
        };
        let engine = match &reputation {
            Some(rep) => if rep.health_score < 30 || rep.max_stable_conns <= 1 {
                DownloadEngine::SNDESafe
            } else {
                DownloadEngine::SNDE
            },
            None => DownloadEngine::SNDE,
        };
        let mut reason: Vec<char> = Vec::new();
        push_str(&mut reason, "Range requests supported, ");
        push_decimal(&mut reason, connections as u128);
        push_str(&mut reason, " conn recommended (history: ");
        if reputation.is_some() {
            push_str(&mut reason, "known host");
        } else {
            push_str(&mut reason, "new host");
        }
        push_str(&mut reason, ")");
        proof {
            assert(reason@ =~= range_reason(connections, reputation is Some));
        }
        let file_size = probe.content_length;
        return RoutingDecision {
            engine,
            recommended_connections: connections,
            reason: string_of(&reason),
            force_http1: matches!(engine, DownloadEngine::SNDE),
            file_size,
            host_reputation: reputation,
            probe_result: Some(probe),
            badge: engine.badge(),
        };
    }
    let file_size = probe.content_length;
    if is_static {
        RoutingDecision {
            engine: DownloadEngine::SNDESafe,
            recommended_connections: 1,
            reason: String::from_str(
                "Static file detected but no Range support - using safe single connection",
            ),
            force_http1: false,
            file_size,
            host_reputation: reputation,
            probe_result: Some(probe),
            badge: DownloadEngine::SNDESafe.badge(),
        }
    } else {
        RoutingDecision {
            engine: DownloadEngine::MediaEngine,
            recommended_connections: 1,
            reason: String::from_str(
                "No Range support and not a static file - Media Engine for safety",
            ),
            force_http1: false,
            file_size,
            host_reputation: reputation,
            probe_result: Some(probe),
            badge: DownloadEngine::MediaEngine.badge(),
        }
    }
}

} // verus!
