use download_core::download_router::{
    decide, DownloadRouter, HttpVersion, ProbeResponse, ProbeResult, UrlClass,
};
use download_core::health_metrics::DownloadEngine;
use download_core::host_reputation::{HostReputation, HostReputationManager};

fn response(status: u16, length: Option<&str>, ranges: Option<&str>) -> ProbeResponse {
    ProbeResponse {
        status,
        version: HttpVersion::Http11,
        accept_ranges: ranges.map(|s| s.to_string()),
        content_range: None,
        content_length: length.map(|s| s.to_string()),
        content_type: None,
        server: None,
    }
}

#[test]
fn scenario_media_platform_fast_path() {
    let router = DownloadRouter::new();
    let decision = router.preflight("https://www.youtube.com/watch?v=abc").unwrap();
    assert_eq!(decision.engine, DownloadEngine::MediaEngine);
    assert_eq!(decision.recommended_connections, 1);
    assert_eq!(decision.badge, "MEDIA ENGINE");
    assert_eq!(decision.reason, "media platform");
    assert!(decision.probe_result.is_none());
    assert!(!decision.force_http1);
}

#[test]
fn media_url_goes_to_extractor_whatever_the_probe_says() {
    let router = DownloadRouter::new();
    let good = ProbeResult::from_response(response(200, Some("500000000"), Some("bytes")), 12);
    let d = router.route("https://clips.twitch.tv/abc", None, good);
    assert_eq!(d.engine, DownloadEngine::MediaEngine);
    assert_eq!(d.recommended_connections, 1);
    let bad = ProbeResult::timed_out(2000);
    let d = router.route("https://sub.domain.vimeo.com/1", None, bad);
    assert_eq!(d.engine, DownloadEngine::MediaEngine);
    assert!(d.probe_result.is_none());
}

#[test]
fn scenario_static_file_with_range() {
    let router = DownloadRouter::new();
    let url = "https://mirror.example.com/linux.iso";
    assert!(router.preflight(url).is_none());
    let probe = ProbeResult::from_response(response(200, Some("500000000"), Some("bytes")), 40);
    assert!(probe.success);
    assert!(probe.supports_range);
    assert_eq!(probe.content_length, Some(500000000));
    let d = router.route(url, None, probe);
    assert_eq!(d.engine, DownloadEngine::SNDE);
    assert_eq!(d.recommended_connections, 8);
    assert!(d.force_http1);
    assert_eq!(d.file_size, Some(500000000));
    assert_eq!(d.badge, "SNDE ACCELERATED");
    assert_eq!(
        d.reason,
        "Range requests supported, 8 conn recommended (history: new host)"
    );
}

#[test]
fn scenario_static_file_without_range() {
    let router = DownloadRouter::new();
    let url = "https://cdn.example.com/app.exe";
    let probe = ProbeResult::from_response(response(200, Some("15000000"), None), 40);
    assert!(!probe.supports_range);
    let d = router.route(url, None, probe);
    assert_eq!(d.engine, DownloadEngine::SNDESafe);
    assert_eq!(d.recommended_connections, 1);
    assert!(!d.force_http1);
    assert_eq!(d.badge, "SNDE SAFE");
    assert_eq!(d.file_size, Some(15000000));
}

#[test]
fn unknown_url_without_range_goes_to_extractor() {
    let router = DownloadRouter::new();
    let probe = ProbeResult::from_response(response(200, Some("100"), None), 1);
    let d = router.route("https://example.com/page", None, probe);
    assert_eq!(d.engine, DownloadEngine::MediaEngine);
    assert_eq!(
        d.reason,
        "No Range support and not a static file - Media Engine for safety"
    );
}

#[test]
fn failed_probe_carries_its_error() {
    let router = DownloadRouter::new();
    let d = router.route("https://example.com/a.zip", None, ProbeResult::timed_out(2000));
    assert_eq!(d.engine, DownloadEngine::MediaEngine);
    assert_eq!(
        d.reason,
        "Probe failed (Probe timed out), using Media Engine as fallback"
    );
    assert_eq!(d.file_size, None);
    let failed = ProbeResult::request_failed("connection reset", 7);
    assert_eq!(failed.error.as_deref(), Some("Request failed: connection reset"));
    assert_eq!(failed.response_time_ms, 7);
    assert!(!failed.success);
    let d = router.route("https://example.com/a.zip", None, ProbeResult::from_response(response(404, None, None), 3));
    assert_eq!(d.engine, DownloadEngine::MediaEngine);
    assert_eq!(
        d.reason,
        "Probe failed (unknown error), using Media Engine as fallback"
    );
}

#[test]
fn size_tiers_for_unknown_hosts() {
    let sizes: [(Option<&str>, u8); 8] = [
        (Some("100000001"), 8),
        (Some("100000000"), 6),
        (Some("10000001"), 6),
        (Some("10000000"), 4),
        (Some("1000001"), 4),
        (Some("1000000"), 2),
        (Some("0"), 2),
        (None, 2),
    ];
    for (len, expected) in sizes {
        let probe = ProbeResult::from_response(response(200, len, Some("bytes")), 1);
        let d = decide(false, None, probe);
        assert_eq!(d.recommended_connections, expected);
        assert_eq!(d.engine, DownloadEngine::SNDE);
    }
}

#[test]
fn reputation_sets_connections_and_safe_mode() {
    let mut rep = HostReputation::fresh("example.com", 0);
    rep.max_stable_conns = 12;
    rep.health_score = 80;
    let probe = ProbeResult::from_response(response(200, Some("5"), Some("bytes")), 1);
    let d = decide(true, Some(rep.clone()), probe.clone());
    assert_eq!(d.recommended_connections, 12);
    assert_eq!(d.engine, DownloadEngine::SNDE);
    assert!(d.force_http1);
    assert_eq!(
        d.reason,
        "Range requests supported, 12 conn recommended (history: known host)"
    );

    rep.health_score = 29;
    let d = decide(true, Some(rep.clone()), probe.clone());
    assert_eq!(d.engine, DownloadEngine::SNDESafe);
    assert_eq!(d.badge, "SNDE SAFE");
    assert!(!d.force_http1);
    assert_eq!(d.recommended_connections, 12);

    rep.health_score = 30;
    rep.max_stable_conns = 1;
    let d = decide(true, Some(rep.clone()), probe.clone());
    assert_eq!(d.engine, DownloadEngine::SNDESafe);
    assert_eq!(d.recommended_connections, 1);

    rep.max_stable_conns = 40;
    rep.health_score = 100;
    let d = decide(true, Some(rep), probe);
    assert_eq!(d.recommended_connections, 16);
}

#[test]
fn route_reads_the_store_without_changing_it() {
    let router = DownloadRouter::new();
    let mut store = HostReputationManager::new();
    let mut rep = HostReputation::fresh("files.example.com", 10);
    rep.max_stable_conns = 3;
    store.upsert_reputation(&rep);
    let probe = ProbeResult::from_response(response(200, Some("500000000"), Some("bytes")), 1);
    let d = router.route("https://FILES.example.com/a.bin", Some(&store), probe.clone());
    assert_eq!(d.recommended_connections, 3);
    assert!(d.host_reputation.is_some());
    assert_eq!(store.records.len(), 1);
    let d = router.route("https://other.example.com/a.bin", Some(&store), probe);
    assert_eq!(d.recommended_connections, 8);
    assert!(d.host_reputation.is_none());
    assert_eq!(store.records.len(), 1);
}

#[test]
fn probe_response_is_read_as_specified() {
    let mut r = response(206, Some("1"), None);
    r.content_range = Some("bytes 0-0/12345".to_string());
    r.version = HttpVersion::Http2;
    r.content_type = Some("application/zip".to_string());
    r.server = Some("nginx".to_string());
    let p = ProbeResult::from_response(r, 99);
    assert!(p.success);
    assert!(p.supports_range);
    assert_eq!(p.content_length, Some(12345));
    assert_eq!(p.protocol, "http2");
    assert_eq!(p.content_type.as_deref(), Some("application/zip"));
    assert_eq!(p.server.as_deref(), Some("nginx"));
    assert_eq!(p.response_time_ms, 99);
    assert!(p.error.is_none());

    let mut r = response(206, None, None);
    r.content_range = Some("bytes 0-0/*".to_string());
    assert_eq!(ProbeResult::from_response(r, 0).content_length, None);
    let mut r = response(206, None, None);
    r.content_range = Some("no slash".to_string());
    assert_eq!(ProbeResult::from_response(r, 0).content_length, None);

    assert_eq!(ProbeResult::from_response(response(200, Some("+42"), None), 0).content_length, Some(42));
    assert_eq!(ProbeResult::from_response(response(200, Some("4 2"), None), 0).content_length, None);
    assert_eq!(ProbeResult::from_response(response(200, Some(""), None), 0).content_length, None);
    assert_eq!(
        ProbeResult::from_response(response(200, Some("18446744073709551615"), None), 0).content_length,
        Some(u64::MAX)
    );
    assert_eq!(
        ProbeResult::from_response(response(200, Some("18446744073709551616"), None), 0).content_length,
        None
    );
    assert!(!ProbeResult::from_response(response(200, None, Some("none")), 0).supports_range);
    assert!(!ProbeResult::from_response(response(500, None, Some("bytes")), 0).success);
    assert_eq!(HttpVersion::Http09.label(), "http0.9");
    assert_eq!(HttpVersion::Http10.label(), "http1.0");
    assert_eq!(HttpVersion::Http3.label(), "http3");
    assert_eq!(HttpVersion::Other.label(), "http1.1");
    let d = ProbeResult::default();
    assert_eq!(d.protocol, "unknown");
    assert!(!d.success);
}

#[test]
fn classification_of_urls() {
    let router = DownloadRouter::with_timeout(500);
    assert_eq!(router.probe_timeout_ms, 500);
    assert_eq!(DownloadRouter::new().probe_timeout_ms, 2000);
    assert_eq!(router.classify("https://WWW.YouTube.com/watch"), UrlClass::MediaPlatform);
    assert_eq!(router.classify("https://example.com/a/b/File.ZIP?x=1"), UrlClass::StaticFile);
    assert_eq!(router.classify("https://example.com/a/b/"), UrlClass::Unknown);
    assert_eq!(router.classify("not a url"), UrlClass::Unknown);
    assert!(router.is_media_domain("https://music.bandcamp.com/album/x"));
    assert!(!router.is_media_domain("notaurl"));
    assert!(!router.is_static_file("https://example.com/zip"));
}
