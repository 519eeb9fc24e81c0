use download_core::health_metrics::DownloadEngine;
use download_core::scheduler::{
    BandwidthAllocation, DownloadPriority, GlobalScheduler, SchedulerEvent,
    MAX_COMPLETED_HISTORY,
};

fn add(s: &mut GlobalScheduler, id: &str, engine: DownloadEngine, p: DownloadPriority, at: i64) {
    s.enqueue_at(id.to_string(), format!("http://example.com/{}", id), engine, p, None, at);
}

fn queue_ids(s: &GlobalScheduler) -> Vec<String> {
    s.queue.iter().map(|d| d.id.clone()).collect()
}

#[test]
fn queue_is_ordered_by_priority_then_time() {
    let mut s = GlobalScheduler::new();
    add(&mut s, "n1", DownloadEngine::MediaEngine, DownloadPriority::Normal, 1);
    add(&mut s, "l1", DownloadEngine::MediaEngine, DownloadPriority::Low, 2);
    add(&mut s, "c1", DownloadEngine::MediaEngine, DownloadPriority::Critical, 3);
    add(&mut s, "n2", DownloadEngine::MediaEngine, DownloadPriority::Normal, 4);
    add(&mut s, "h1", DownloadEngine::MediaEngine, DownloadPriority::High, 5);
    add(&mut s, "n3", DownloadEngine::MediaEngine, DownloadPriority::Normal, 4);
    add(&mut s, "n0", DownloadEngine::MediaEngine, DownloadPriority::Normal, 0);
    assert_eq!(queue_ids(&s), vec!["c1", "h1", "n0", "n1", "n2", "n3", "l1"]);
    let mut started = Vec::new();
    while let Some(d) = s.try_start_next_at(100) {
        assert_eq!(d.started_at, Some(100));
        started.push(d.id);
    }
    assert_eq!(started, vec!["c1", "h1", "n0"]);
    assert_eq!(queue_ids(&s), vec!["n1", "n2", "n3", "l1"]);
}

#[test]
fn admission_respects_both_limits() {
    let mut s = GlobalScheduler::new();
    add(&mut s, "a", DownloadEngine::SNDE, DownloadPriority::High, 1);
    add(&mut s, "b", DownloadEngine::SNDESafe, DownloadPriority::High, 2);
    add(&mut s, "c", DownloadEngine::SNDE, DownloadPriority::High, 3);
    add(&mut s, "m", DownloadEngine::MediaEngine, DownloadPriority::Low, 4);
    add(&mut s, "m2", DownloadEngine::MediaEngine, DownloadPriority::Low, 5);
    assert_eq!(s.try_start_next_at(0).unwrap().id, "a");
    assert_eq!(s.try_start_next_at(0).unwrap().id, "b");
    assert_eq!(s.try_start_next_at(0).unwrap().id, "m");
    assert!(s.try_start_next_at(0).is_none());
    let status = s.get_status();
    assert_eq!(status.active_count, 3);
    assert_eq!(status.queue_length, 2);
    assert_eq!(status.available_slots, 0);
    assert!(matches!(s.complete_download("m", true), SchedulerEvent::SlotAvailable));
    assert_eq!(s.get_status().available_slots, 1);
    assert_eq!(s.try_start_next_at(0).unwrap().id, "m2");
    assert!(matches!(s.complete_download("a", false), SchedulerEvent::SlotAvailable));
    assert_eq!(s.try_start_next_at(0).unwrap().id, "c");
    assert_eq!(s.completed, vec!["m".to_string(), "a".to_string()]);
    assert!(matches!(s.complete_download("nobody", true), SchedulerEvent::SlotAvailable));
    assert_eq!(s.completed.len(), 2);
}

#[test]
fn pause_resume_cancel() {
    let mut s = GlobalScheduler::new();
    add(&mut s, "a", DownloadEngine::SNDE, DownloadPriority::Normal, 1);
    add(&mut s, "b", DownloadEngine::SNDE, DownloadPriority::Normal, 2);
    add(&mut s, "c", DownloadEngine::SNDE, DownloadPriority::Normal, 3);
    s.try_start_next_at(10);
    s.try_start_next_at(10);
    assert!(s.try_start_next_at(10).is_none());
    assert!(s.pause_download("a"));
    assert_eq!(s.get_status().paused_count, 1);
    assert_eq!(s.try_start_next_at(11).unwrap().id, "c");
    assert!(s.resume_download("a"));
    assert!(!s.resume_download("a"));
    assert_eq!(queue_ids(&s), vec!["a"]);
    assert!(s.try_start_next_at(12).is_none());
    assert!(s.cancel_download("b"));
    assert_eq!(s.try_start_next_at(13).unwrap().id, "a");
    assert!(!s.pause_download("nobody"));
    assert!(!s.cancel_download("nobody"));
    add(&mut s, "q", DownloadEngine::MediaEngine, DownloadPriority::Low, 20);
    assert!(s.pause_download("q"));
    assert!(s.queue.is_empty());
    assert!(s.cancel_download("q"));
    assert_eq!(s.get_status().paused_count, 0);
    add(&mut s, "r", DownloadEngine::MediaEngine, DownloadPriority::Low, 21);
    assert!(s.cancel_download("r"));
    assert!(s.queue.is_empty());
}

#[test]
fn priority_changes() {
    let mut s = GlobalScheduler::new();
    add(&mut s, "a", DownloadEngine::MediaEngine, DownloadPriority::Normal, 1);
    add(&mut s, "b", DownloadEngine::MediaEngine, DownloadPriority::Normal, 2);
    add(&mut s, "c", DownloadEngine::MediaEngine, DownloadPriority::Normal, 3);
    s.set_priority("c", DownloadPriority::High);
    assert_eq!(queue_ids(&s), vec!["c", "a", "b"]);
    s.set_priority("c", DownloadPriority::Normal);
    assert_eq!(queue_ids(&s), vec!["a", "b", "c"]);
    s.set_priority("a", DownloadPriority::Low);
    assert_eq!(queue_ids(&s), vec!["b", "c", "a"]);
    let started = s.try_start_next_at(5).unwrap();
    assert_eq!(started.id, "b");
    s.set_priority("b", DownloadPriority::Critical);
    assert_eq!(s.active[0].priority, DownloadPriority::Critical);
    s.set_priority("nobody", DownloadPriority::Critical);
    assert_eq!(queue_ids(&s), vec!["c", "a"]);
}

#[test]
fn bandwidth_shares() {
    let mut s = GlobalScheduler::new();
    add(&mut s, "a", DownloadEngine::MediaEngine, DownloadPriority::Critical, 1);
    add(&mut s, "b", DownloadEngine::MediaEngine, DownloadPriority::High, 2);
    add(&mut s, "c", DownloadEngine::MediaEngine, DownloadPriority::Low, 3);
    assert_eq!(
        s.get_bandwidth_allocation("a"),
        BandwidthAllocation { bandwidth_percent: 0, max_connections: 1, is_throttled: true }
    );
    s.try_start_next_at(0);
    assert_eq!(
        s.get_bandwidth_allocation("a"),
        BandwidthAllocation { bandwidth_percent: 100, max_connections: 8, is_throttled: false }
    );
    s.try_start_next_at(0);
    assert_eq!(
        s.get_bandwidth_allocation("a"),
        BandwidthAllocation { bandwidth_percent: 75, max_connections: 6, is_throttled: false }
    );
    assert_eq!(
        s.get_bandwidth_allocation("b"),
        BandwidthAllocation { bandwidth_percent: 60, max_connections: 6, is_throttled: false }
    );
    s.try_start_next_at(0);
    assert_eq!(
        s.get_bandwidth_allocation("a"),
        BandwidthAllocation { bandwidth_percent: 58, max_connections: 6, is_throttled: false }
    );
    assert_eq!(
        s.get_bandwidth_allocation("b"),
        BandwidthAllocation { bandwidth_percent: 43, max_connections: 4, is_throttled: false }
    );
    assert_eq!(
        s.get_bandwidth_allocation("c"),
        BandwidthAllocation { bandwidth_percent: 33, max_connections: 4, is_throttled: false }
    );
    s.set_priority("c", DownloadPriority::Normal);
    assert_eq!(s.get_bandwidth_allocation("c").bandwidth_percent, 33);
}

#[test]
fn completed_log_is_bounded() {
    let mut s = GlobalScheduler::new();
    for i in 0..(MAX_COMPLETED_HISTORY + 5) {
        let id = format!("d{}", i);
        add(&mut s, &id, DownloadEngine::MediaEngine, DownloadPriority::Normal, i as i64);
        assert_eq!(s.try_start_next().unwrap().id, id);
        s.complete_download(&id, true);
    }
    assert_eq!(s.completed.len(), MAX_COMPLETED_HISTORY);
    assert_eq!(s.completed[0], "d5");
    assert_eq!(s.get_status().completed_count, MAX_COMPLETED_HISTORY);
    assert_eq!(DownloadPriority::default(), DownloadPriority::Normal);
    assert!(DownloadPriority::Critical > DownloadPriority::High);
    assert_eq!(DownloadPriority::Low.rank(), 0);
    assert_eq!(DownloadPriority::Critical.rank(), 3);
}

#[test]
fn entries_are_stamped_with_the_clock() {
    let mut s = GlobalScheduler::new();
    s.enqueue(
        "a".to_string(),
        "u".to_string(),
        DownloadEngine::MediaEngine,
        DownloadPriority::Normal,
        Some(9),
    );
    assert!(s.queue[0].queued_at > 1_600_000_000_000);
    assert_eq!(s.queue[0].estimated_size, Some(9));
    let started = s.try_start_next().unwrap();
    assert!(started.started_at.unwrap() >= started.queued_at);
}
