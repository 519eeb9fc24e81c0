use download_core::host_reputation::{
    domain_of, extract_domain, HostReputation, HostReputationManager, ReputationUpdate,
};

#[test]
fn success_failure_and_collapse_follow_the_formulas() {
    let mut rep = HostReputation::fresh("example.com", 5);
    assert_eq!(rep.favored_protocol, "http1");
    assert_eq!(rep.last_updated, 5);
    rep.apply_success(1000, 8, 6);
    assert_eq!(rep.success_count, 1);
    assert_eq!(rep.avg_speed_kbps, 1000);
    assert_eq!(rep.health_score, 55);
    assert_eq!(rep.max_stable_conns, 8);
    assert_eq!(rep.last_updated, 6);
    rep.apply_success(2000, 2, 7);
    assert_eq!(rep.avg_speed_kbps, 1100);
    assert_eq!(rep.health_score, 60);
    assert_eq!(rep.max_stable_conns, 8);
    rep.apply_success(u32::MAX, 2, 7);
    assert_eq!(rep.avg_speed_kbps, ((1100u64 * 9 + u32::MAX as u64) / 10) as u32);
    rep.apply_failure(true, false, 8);
    assert_eq!(rep.failure_count, 1);
    assert_eq!(rep.health_score, 55);
    assert_eq!(rep.max_stable_conns, 6);
    assert!(rep.supports_range);
    rep.apply_failure(false, true, 9);
    assert_eq!(rep.health_score, 45);
    assert_eq!(rep.max_stable_conns, 6);
    assert!(!rep.supports_range);
    rep.apply_collapse(9, 10);
    assert_eq!(rep.max_stable_conns, 6);
    rep.apply_collapse(2, 11);
    assert_eq!(rep.max_stable_conns, 2);
    rep.apply_failure(true, false, 12);
    assert_eq!(rep.max_stable_conns, 1);
    rep.apply_failure(true, false, 12);
    assert_eq!(rep.max_stable_conns, 1);
}

#[test]
fn bounds_hold_after_any_sequence() {
    let updates = [
        ReputationUpdate::Success { speed_kbps: 10, connections_used: 16 },
        ReputationUpdate::Failure { was_throttled: true, was_range_error: true },
        ReputationUpdate::Collapse { collapsed_to: 1 },
        ReputationUpdate::Failure { was_throttled: true, was_range_error: false },
        ReputationUpdate::Success { speed_kbps: 0, connections_used: 0 },
        ReputationUpdate::Collapse { collapsed_to: 200 },
    ];
    let mut rep = HostReputation::fresh("h", 0);
    let mut seed: u32 = 12345;
    for step in 0..2000 {
        seed = seed.wrapping_mul(1664525).wrapping_add(1013904223);
        rep.apply(updates[(seed >> 16) as usize % updates.len()], step);
        assert!(rep.health_score <= 100);
        assert!(rep.max_stable_conns >= 1);
    }
    let mut rep = HostReputation::fresh("h", 0);
    for _ in 0..30 {
        rep.apply_success(1, 1, 0);
    }
    assert_eq!(rep.health_score, 100);
    for _ in 0..30 {
        rep.apply_failure(false, false, 0);
    }
    assert_eq!(rep.health_score, 0);
    rep.success_count = u32::MAX;
    rep.apply_success(1, 1, 0);
    assert_eq!(rep.success_count, u32::MAX);
}

#[test]
fn collapse_to_zero_is_the_one_way_below_one_connection() {
    let mut rep = HostReputation::fresh("h", 0);
    rep.apply_collapse(0, 1);
    assert_eq!(rep.max_stable_conns, 0);
}

#[test]
fn store_keeps_one_record_per_host() {
    let mut store = HostReputationManager::new();
    let unknown = store.get_reputation_at("new.example.com", 42);
    assert_eq!(unknown.domain, "new.example.com");
    assert_eq!(unknown.max_stable_conns, 4);
    assert_eq!(unknown.health_score, 50);
    assert!(unknown.supports_range);
    assert_eq!(unknown.last_updated, 42);
    assert!(store.records.is_empty());
    assert!(!store.is_known("new.example.com"));
    assert!(store.lookup("new.example.com").is_none());

    store.record_at("a.com", ReputationUpdate::Success { speed_kbps: 500, connections_used: 6 }, 1);
    store.record_at("b.com", ReputationUpdate::Failure { was_throttled: true, was_range_error: false }, 2);
    store.record_at("a.com", ReputationUpdate::Collapse { collapsed_to: 3 }, 3);
    assert_eq!(store.records.len(), 2);
    let a = store.get_reputation("a.com");
    assert_eq!(a.max_stable_conns, 3);
    assert_eq!(a.success_count, 1);
    assert_eq!(a.health_score, 55);
    assert_eq!(a.last_updated, 3);
    let b = store.lookup("b.com").unwrap();
    assert_eq!(b.max_stable_conns, 2);
    assert_eq!(b.health_score, 40);
    assert_eq!(b.failure_count, 1);

    store.record_success("c.com", 1, 1);
    store.record_failure("c.com", false, true);
    store.record_connection_collapse("c.com", 2);
    let c = store.lookup("c.com").unwrap();
    assert_eq!((c.success_count, c.failure_count, c.max_stable_conns), (1, 1, 2));
    assert!(!c.supports_range);

    let mut replaced = a.duplicate();
    replaced.health_score = 7;
    store.upsert_reputation(&replaced);
    assert_eq!(store.records.len(), 3);
    assert_eq!(store.get_reputation("a.com").health_score, 7);
    assert_eq!(store.get_all_reputations().len(), 3);
}

#[test]
fn cleanup_drops_old_records_with_few_successes() {
    let day: i64 = 24 * 60 * 60;
    let now = 100 * day;
    let mut store = HostReputationManager::new();
    let mut old_rare = HostReputation::fresh("old-rare", now - 31 * day);
    old_rare.success_count = 4;
    let mut old_busy = HostReputation::fresh("old-busy", now - 31 * day);
    old_busy.success_count = 5;
    let mut edge = HostReputation::fresh("edge", now - 30 * day);
    edge.success_count = 0;
    let recent = HostReputation::fresh("recent", now - day);
    for r in [&old_rare, &old_busy, &edge, &recent] {
        store.upsert_reputation(r);
    }
    assert_eq!(store.cleanup_stale_records_at(now), 1);
    let left: Vec<String> = store.records.iter().map(|r| r.domain.clone()).collect();
    assert_eq!(left, vec!["old-busy", "edge", "recent"]);
    assert_eq!(store.cleanup_stale_records_at(i64::MAX), 2);
    assert_eq!(store.cleanup_stale_records_at(i64::MIN), 0);
    assert_eq!(store.cleanup_stale_records(), 0);
}

#[test]
fn domains() {
    assert_eq!(
        extract_domain("https://User@EXAMPLE.com:8080/a").as_deref(),
        Some("example.com")
    );
    assert_eq!(extract_domain("mailto:someone@example.com"), None);
    assert_eq!(extract_domain(""), None);
    assert_eq!(domain_of(Some("ÄB.c".to_string())).as_deref(), Some("äb.c"));
    assert_eq!(domain_of(None), None);
}

#[test]
fn records_are_stamped_with_the_clock() {
    let rep = HostReputation::default();
    assert!(rep.last_updated > 1_600_000_000);
    assert_eq!(rep.domain, "");
    assert_eq!(rep.favored_protocol, "http1");
    let mut store = HostReputationManager::new();
    store.record_success("a.com", 1, 1);
    assert!(store.lookup("a.com").unwrap().last_updated > 1_600_000_000);
}
