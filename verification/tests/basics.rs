use download_core::download_router::DownloadRouter;
use download_core::health_metrics::{DownloadEngine, HealthMetricsRegistry};
use download_core::host_reputation::{extract_domain, HostReputation};
use download_core::scheduler::{DownloadPriority, GlobalScheduler};
use download_core::snde::{format_eta, format_speed};
use download_core::watchdog::{format_bytes, Watchdog};

#[test]
fn test_media_domain_detection() {
    let router = DownloadRouter::new();

    assert!(router.is_media_domain("https://www.youtube.com/watch?v=abc"));
    assert!(router.is_media_domain("https://youtu.be/abc"));
    assert!(router.is_media_domain("https://vimeo.com/12345"));
    assert!(router.is_media_domain("https://www.twitch.tv/streamer"));

    assert!(!router.is_media_domain("https://example.com/file.zip"));
    assert!(!router.is_media_domain("https://cdn.example.com/video.mp4"));
}

#[test]
fn test_static_file_detection() {
    let router = DownloadRouter::new();

    assert!(router.is_static_file("https://example.com/file.zip"));
    assert!(router.is_static_file("https://cdn.example.com/app.exe"));
    assert!(router.is_static_file("https://mirror.example.com/linux.iso"));

    assert!(!router.is_static_file("https://youtube.com/watch?v=abc"));
    assert!(!router.is_static_file("https://example.com/page"));
}

#[test]
fn test_register_and_get_health() {
    let mut registry = HealthMetricsRegistry::new();
    registry.register_download("test-1", DownloadEngine::SNDE, Some(1000));

    let health = registry.get_health("test-1").unwrap();
    assert_eq!(health.download_id, "test-1");
    assert_eq!(health.engine, DownloadEngine::SNDE);
    assert_eq!(health.total_bytes, Some(1000));
}

#[test]
fn test_throttling_detection() {
    let mut registry = HealthMetricsRegistry::new();
    registry.register_download("test-2", DownloadEngine::SNDE, None);

    registry.record_error("test-2", "Rate limited", Some(429));

    let health = registry.get_health("test-2").unwrap();
    assert!(health.throttling_detected);
}

#[test]
fn test_engine_display() {
    assert_eq!(DownloadEngine::SNDE.badge(), "SNDE ACCELERATED");
    assert_eq!(DownloadEngine::SNDESafe.badge(), "SNDE SAFE");
    assert_eq!(DownloadEngine::MediaEngine.badge(), "MEDIA ENGINE");
}

#[test]
fn test_extract_domain() {
    assert_eq!(
        extract_domain("https://www.youtube.com/watch?v=abc123"),
        Some("www.youtube.com".to_string())
    );
    assert_eq!(
        extract_domain("https://fastcdn.example.com/file.zip"),
        Some("fastcdn.example.com".to_string())
    );
    assert_eq!(extract_domain("invalid-url"), None);
}

#[test]
fn test_default_reputation() {
    let rep = HostReputation::default();
    assert_eq!(rep.max_stable_conns, 4);
    assert_eq!(rep.health_score, 50);
    assert!(rep.supports_range);
}

#[test]
fn test_priority_ordering() {
    let mut scheduler = GlobalScheduler::new();

    scheduler.enqueue(
        "low".to_string(),
        "http://example.com/low".to_string(),
        DownloadEngine::MediaEngine,
        DownloadPriority::Low,
        None,
    );

    scheduler.enqueue(
        "high".to_string(),
        "http://example.com/high".to_string(),
        DownloadEngine::MediaEngine,
        DownloadPriority::High,
        None,
    );

    scheduler.enqueue(
        "normal".to_string(),
        "http://example.com/normal".to_string(),
        DownloadEngine::MediaEngine,
        DownloadPriority::Normal,
        None,
    );

    let next = scheduler.try_start_next().unwrap();
    assert_eq!(next.id, "high");
}

#[test]
fn test_format_speed() {
    assert_eq!(format_speed(500), "500 B/s");
    assert_eq!(format_speed(1500), "1.46 KB/s");
    assert_eq!(format_speed(1_500_000), "1.43 MB/s");
    assert_eq!(format_speed(1_500_000_000), "1.40 GB/s");
}

#[test]
fn test_format_eta() {
    assert_eq!(format_eta(30), "30s");
    assert_eq!(format_eta(90), "1m 30s");
    assert_eq!(format_eta(3700), "1h 1m");
}

#[test]
fn test_format_bytes() {
    assert_eq!(format_bytes(500), "500 B");
    assert_eq!(format_bytes(1500), "1.46 KB");
    assert_eq!(format_bytes(1_500_000), "1.43 MB");
    assert_eq!(format_bytes(1_500_000_000), "1.40 GB");
}

#[test]
fn test_watchdog_state() {
    let mut watchdog = Watchdog::new();
    watchdog.start_monitoring("test-1");

    assert!(watchdog.is_monitoring("test-1"));

    watchdog.stop_monitoring("test-1");

    assert!(!watchdog.is_monitoring("test-1"));
}
