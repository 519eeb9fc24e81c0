use download_core::health_metrics::{
    ConnectionHealth, DownloadEngine, DownloadHealth, DownloadPhase, HealthMetricsRegistry,
    ThrottlingThresholds, WatchdogAction,
};
use download_core::watchdog::{
    apply_action, apply_action_at, decide, health_update_event, CommandEffect, Watchdog,
    WatchdogCommand, WatchdogConfig, WatchdogEventType, WatchdogState,
};

fn connection(id: u8) -> ConnectionHealth {
    ConnectionHealth { connection_id: id, ..ConnectionHealth::default() }
}

fn health(active: u8) -> DownloadHealth {
    let mut h = DownloadHealth::new("d", DownloadEngine::SNDE, None, 0);
    h.active_connections = active;
    h.phase = DownloadPhase::Downloading;
    h
}

#[test]
fn scenario_watchdog_collapse() {
    let mut registry = HealthMetricsRegistry::new();
    registry.register_download("dl", DownloadEngine::SNDE, Some(1_000_000));
    registry.set_phase("dl", DownloadPhase::Downloading);
    for id in 0..8 {
        registry.update_connection("dl", connection(id));
    }
    assert_eq!(registry.get_health("dl").unwrap().active_connections, 8);
    let mut watchdog = Watchdog::new();
    watchdog.start_monitoring("dl");
    for _tick in 1..=4 {
        registry.update_progress("dl", 0, 0);
        assert!(watchdog.check_all(&registry).is_empty());
    }
    registry.update_progress("dl", 0, 0);
    let issued = watchdog.check_all(&registry);
    assert_eq!(issued.len(), 1);
    assert_eq!(issued[0].0, "dl");
    assert_eq!(issued[0].1, WatchdogAction::CollapseConnections(4));
    let event = apply_action(&mut registry, "dl", &issued[0].1).unwrap();
    assert_eq!(event.event_type, WatchdogEventType::ConnectionsCollapsed);
    assert_eq!(event.download_id, "dl");
    assert_eq!(event.message, "Connections reduced to 4 due to throttling");
    assert!(event.user_action.is_none());
    let after = registry.get_health("dl").unwrap();
    assert_eq!(after.collapse_count, 1);
    assert_eq!(after.active_connections, 4);
    assert_eq!(event.health.unwrap().collapse_count, 1);
    assert_eq!(after.engine, DownloadEngine::SNDE);
}

#[test]
fn no_action_is_issued_twice() {
    let mut state = WatchdogState::new("d");
    let mut h = health(8);
    h.throttling_detected = true;
    let mut issued = Vec::new();
    for _ in 0..20 {
        if let Some(a) = state.look(&h, 5) {
            issued.push(a);
        }
    }
    assert_eq!(
        issued,
        vec![WatchdogAction::CollapseConnections(2), WatchdogAction::CollapseConnections(4)]
    );
    assert_eq!(state.actions_taken, issued);
    h.active_connections = 2;
    assert_eq!(state.look(&h, 5), Some(WatchdogAction::CollapseConnections(1)));
    assert_eq!(state.look(&h, 5), None);
}

#[test]
fn healthy_downloads_are_left_alone() {
    let mut registry = HealthMetricsRegistry::new();
    registry.register_download("ok", DownloadEngine::SNDE, None);
    registry.set_phase("ok", DownloadPhase::Downloading);
    let mut watchdog = Watchdog::new();
    watchdog.start_monitoring("ok");
    for tick in 1..=50u64 {
        registry.update_progress("ok", tick * 1000, 1000);
        assert!(watchdog.check_health(&registry, "ok").is_none());
    }
    assert!(watchdog.monitored_downloads[0].actions_taken.is_empty());
    assert_eq!(watchdog.monitored_downloads[0].last_check_bytes, 50_000);
    assert_eq!(watchdog.monitored_downloads[0].consecutive_stalls, 0);
}

#[test]
fn rules_in_order() {
    let mut h = health(8);
    h.safe_mode_active = true;
    h.throttling_detected = true;
    assert_eq!(decide(5, 9, 5, &h), WatchdogAction::RecommendEngineSwitch);
    h.safe_mode_active = false;
    assert_eq!(decide(5, 9, 5, &h), WatchdogAction::CollapseConnections(4));
    h.active_connections = 3;
    assert_eq!(decide(7, 0, 5, &h), WatchdogAction::CollapseConnections(1));
    h.active_connections = 1;
    assert_eq!(decide(5, 0, 5, &h), WatchdogAction::EnableSafeMode);
    h.active_connections = 0;
    assert_eq!(decide(5, 0, 5, &h), WatchdogAction::EnableSafeMode);
    h.active_connections = 6;
    assert_eq!(decide(4, 5, 5, &h), WatchdogAction::CollapseConnections(3));
    assert_eq!(decide(4, 4, 5, &h), WatchdogAction::CollapseConnections(2));
    h.active_connections = 2;
    assert_eq!(decide(4, 4, 5, &h), WatchdogAction::CollapseConnections(1));
    h.active_connections = 1;
    assert_eq!(decide(4, 4, 5, &h), WatchdogAction::EnableSafeMode);
    assert_eq!(decide(4, 9, 5, &h), WatchdogAction::EnableSafeMode);
    h.throttling_detected = false;
    assert_eq!(decide(4, 9, 5, &h), WatchdogAction::NoAction);
    h.active_connections = 2;
    h.safe_mode_active = true;
    assert_eq!(decide(0, 0, 5, &h), WatchdogAction::NoAction);
}

#[test]
fn downloads_outside_their_downloading_phase_are_passed_over() {
    let mut registry = HealthMetricsRegistry::new();
    registry.register_download("q", DownloadEngine::SNDE, None);
    let mut watchdog = Watchdog::with_config(WatchdogConfig::default());
    watchdog.start_monitoring("q");
    watchdog.start_monitoring("unknown");
    for _ in 0..10 {
        assert!(watchdog.check_all(&registry).is_empty());
    }
    assert_eq!(watchdog.monitored_downloads[0].consecutive_stalls, 0);
    assert!(watchdog.check_health(&registry, "not monitored").is_none());
}

#[test]
fn measures_never_switch_to_the_extractor() {
    let mut registry = HealthMetricsRegistry::new();
    registry.register_download("d", DownloadEngine::SNDE, None);
    let e = apply_action_at(&mut registry, "d", &WatchdogAction::EnableSafeMode, 0).unwrap();
    assert_eq!(e.event_type, WatchdogEventType::SafeModeActivated);
    assert_eq!(e.message, "Safe Mode enabled - single connection with HTTP/2");
    let h = registry.get_health("d").unwrap();
    assert!(h.safe_mode_active);
    assert_eq!(h.engine, DownloadEngine::SNDESafe);
    let e = apply_action_at(&mut registry, "d", &WatchdogAction::RecommendEngineSwitch, 0).unwrap();
    assert_eq!(e.event_type, WatchdogEventType::EngineSwitchRecommended);
    assert_eq!(e.user_action.as_deref(), Some("Switch to Media Engine"));
    assert_eq!(registry.get_health("d").unwrap().engine, DownloadEngine::SNDESafe);
    let e = apply_action_at(
        &mut registry,
        "d",
        &WatchdogAction::CriticalFailure("no progress".to_string()),
        0,
    )
    .unwrap();
    assert_eq!(e.event_type, WatchdogEventType::CriticalFailure);
    assert_eq!(e.message, "Download critically failed: no progress");
    assert_eq!(e.user_action.as_deref(), Some("Retry with Media Engine"));
    assert!(apply_action_at(&mut registry, "d", &WatchdogAction::NoAction, 0).is_none());
    let e = apply_action_at(&mut registry, "gone", &WatchdogAction::CollapseConnections(2), 0).unwrap();
    assert!(e.health.is_none());
}

#[test]
fn commands() {
    let mut registry = HealthMetricsRegistry::new();
    registry.register_download("d", DownloadEngine::SNDE, None);
    let mut watchdog = Watchdog::new();
    assert_eq!(
        watchdog.handle_command(&mut registry, WatchdogCommand::StartMonitoring("d".to_string())),
        CommandEffect::Continue
    );
    assert!(watchdog.is_monitoring("d"));
    assert_eq!(
        watchdog.handle_command(&mut registry, WatchdogCommand::ForceCollapse("d".to_string(), 3)),
        CommandEffect::Collapse(3)
    );
    assert_eq!(registry.get_health("d").unwrap().active_connections, 3);
    assert_eq!(
        watchdog.handle_command(&mut registry, WatchdogCommand::ForceSafeMode("d".to_string())),
        CommandEffect::SafeMode
    );
    assert!(registry.get_health("d").unwrap().safe_mode_active);
    assert_eq!(
        watchdog.handle_command(&mut registry, WatchdogCommand::StopMonitoring("d".to_string())),
        CommandEffect::Continue
    );
    assert!(!watchdog.is_monitoring("d"));
    assert_eq!(
        watchdog.handle_command(&mut registry, WatchdogCommand::Shutdown),
        CommandEffect::Stop
    );
}

#[test]
fn health_updates() {
    let mut registry = HealthMetricsRegistry::new();
    assert!(health_update_event(&registry, "d").is_none());
    registry.register_download("d", DownloadEngine::SNDESafe, None);
    registry.update_connection("d", ConnectionHealth { connection_id: 1, throughput_bps: 1500, ..ConnectionHealth::default() });
    let e = health_update_event(&registry, "d").unwrap();
    assert_eq!(e.event_type, WatchdogEventType::HealthUpdate);
    assert_eq!(e.message, "SNDE SAFE @ 1.46 KB/s (2 connections)");
}

#[test]
fn registry_keeps_numbers_and_a_bounded_log() {
    let mut registry = HealthMetricsRegistry::new();
    registry.register_download_at("d", DownloadEngine::SNDE, Some(10), 1000);
    registry.update_connection(
        "d",
        ConnectionHealth { connection_id: 2, throughput_bps: 7, error_count: 1, retry_count: 2, ..ConnectionHealth::default() },
    );
    registry.update_connection(
        "d",
        ConnectionHealth { connection_id: 0, throughput_bps: 5, error_count: 4, retry_count: 1, ..ConnectionHealth::default() },
    );
    let h = registry.get_health("d").unwrap();
    assert_eq!(h.connection_health.len(), 3);
    assert_eq!(h.active_connections, 3);
    assert_eq!(h.peak_connections, 3);
    assert_eq!(h.total_throughput_bps, 12);
    assert_eq!(h.total_errors, 5);
    assert_eq!(h.total_retries, 3);
    assert_eq!(h.started_at, 1000);

    for i in 0..60 {
        registry.record_error_at("d", &format!("e{}", i), Some(500), 3661);
    }
    let h = registry.get_health("d").unwrap();
    assert_eq!(h.error_log.len(), 50);
    assert_eq!(h.error_log[0], "[01:01:01] e10");
    assert_eq!(h.error_log[49], "[01:01:01] e59");
    assert_eq!(h.total_errors, 65);
    assert!(!h.throttling_detected);
    registry.record_error_at("d", "busy", Some(503), -1);
    let h = registry.get_health("d").unwrap();
    assert!(h.throttling_detected);
    assert_eq!(h.error_log[49], "[23:59:59] busy");
    registry.record_collapse_at("d", 1, 86400);
    let h = registry.get_health("d").unwrap();
    assert_eq!(h.error_log[49], "[00:00:00] Connections collapsed to 1");
    assert_eq!(h.collapse_count, 1);
    assert_eq!(registry.get_all_health().len(), 1);
    registry.record_error("missing", "x", None);
    registry.unregister_download("d");
    assert!(registry.get_health("d").is_none());
}

#[test]
fn recommendations_of_the_registry() {
    let mut registry = HealthMetricsRegistry::with_thresholds(ThrottlingThresholds::default());
    assert_eq!(registry.analyze_and_recommend("none"), WatchdogAction::NoAction);
    registry.register_download_at("d", DownloadEngine::SNDE, None, 0);
    registry.update_progress("d", 5000, 20_000);
    assert_eq!(registry.analyze_and_recommend_at("d", 60), WatchdogAction::NoAction);
    registry.set_phase("d", DownloadPhase::Downloading);
    registry.update_progress("d", 5000, 9_999);
    assert_eq!(registry.analyze_and_recommend_at("d", 60), WatchdogAction::EnableSafeMode);
    registry.update_connection("d", connection(3));
    registry.update_progress("d", 5000, 9_999);
    assert_eq!(
        registry.analyze_and_recommend_at("d", 60),
        WatchdogAction::CollapseConnections(2)
    );
    registry.set_safe_mode("d", true);
    assert_eq!(
        registry.analyze_and_recommend_at("d", 60),
        WatchdogAction::RecommendEngineSwitch
    );
    registry.set_safe_mode("d", false);
    registry.update_progress("d", 5000, 20_000);
    assert_eq!(registry.analyze_and_recommend_at("d", 60), WatchdogAction::NoAction);
    for _ in 0..6 {
        registry.record_error_at("d", "e", None, 1);
    }
    assert_eq!(
        registry.analyze_and_recommend_at("d", 60),
        WatchdogAction::CollapseConnections(2)
    );
    assert_eq!(registry.analyze_and_recommend_at("d", 120), WatchdogAction::NoAction);
    registry.update_connection(
        "d",
        ConnectionHealth { connection_id: 0, is_stalled: true, stall_duration_ms: 30_001, throughput_bps: 20_000, ..ConnectionHealth::default() },
    );
    assert_eq!(
        registry.analyze_and_recommend_at("d", 120),
        WatchdogAction::CollapseConnections(3)
    );
    registry.update_progress("d", 100, 20_000);
    for _ in 0..21 {
        registry.record_error_at("d", "e", None, 1);
    }
    assert_eq!(
        registry.analyze_and_recommend_at("d", 100_000),
        WatchdogAction::CriticalFailure("Too many errors with no progress".to_string())
    );
}
