use download_core::health_metrics::{DownloadEngine, DownloadHealth, HealthMetricsRegistry};
use download_core::host_reputation::{HostReputation, HostReputationManager};
use download_core::scheduler::{DownloadPriority, GlobalScheduler, QueuedDownload};
use download_core::snde::ChunkTable;
use download_core::watchdog::{Watchdog, WatchdogState};

fn queued(id: &str, priority: DownloadPriority, at: i64, engine: DownloadEngine) -> QueuedDownload {
    QueuedDownload {
        id: id.to_string(),
        url: String::new(),
        priority,
        engine,
        queued_at: at,
        started_at: None,
        estimated_size: None,
    }
}

#[test]
fn chunk_tables_are_checked() {
    let mut table = ChunkTable::new(5 * 1024 * 1024, 4);
    assert!(table.is_well_formed());
    table.claim_next();
    table.finish_chunk(0, false);
    assert!(table.is_well_formed());
    table.chunks[1].start += 1;
    assert!(!table.is_well_formed());
    table.chunks[1].start -= 1;
    table.chunks[2].retries = 6;
    assert!(!table.is_well_formed());
    table.chunks[2].retries = 5;
    table.chunks[2].in_progress = true;
    assert!(!table.is_well_formed());
    table.chunks[2].in_progress = false;
    assert!(table.is_well_formed());
    table.total_size += 1;
    assert!(!table.is_well_formed());
    table.total_size = 0;
    assert!(!table.is_well_formed());
    assert!(ChunkTable::new(0, 1).is_well_formed());
}

#[test]
fn tables_with_repeated_keys_are_refused() {
    let mut store = HostReputationManager::new();
    assert!(store.is_well_formed());
    store.records.push(HostReputation::fresh("a", 0));
    store.records.push(HostReputation::fresh("b", 0));
    assert!(store.is_well_formed());
    store.records.push(HostReputation::fresh("a", 1));
    assert!(!store.is_well_formed());

    let mut registry = HealthMetricsRegistry::new();
    registry.downloads.push(DownloadHealth::new("x", DownloadEngine::SNDE, None, 0));
    assert!(registry.is_well_formed());
    registry.downloads.push(DownloadHealth::new("x", DownloadEngine::SNDE, None, 0));
    assert!(!registry.is_well_formed());

    let mut watchdog = Watchdog::new();
    watchdog.monitored_downloads.push(WatchdogState::new("x"));
    watchdog.monitored_downloads.push(WatchdogState::new("y"));
    assert!(watchdog.is_well_formed());
    watchdog.monitored_downloads.push(WatchdogState::new("y"));
    assert!(!watchdog.is_well_formed());
}

#[test]
fn scheduler_limits_are_checked() {
    let mut s = GlobalScheduler::new();
    assert!(s.is_well_formed());
    s.queue.push(queued("a", DownloadPriority::High, 5, DownloadEngine::SNDE));
    s.queue.push(queued("b", DownloadPriority::High, 5, DownloadEngine::SNDE));
    s.queue.push(queued("c", DownloadPriority::Low, 1, DownloadEngine::SNDE));
    assert!(s.is_well_formed());
    s.queue.push(queued("d", DownloadPriority::Normal, 9, DownloadEngine::SNDE));
    assert!(!s.is_well_formed());
    s.queue.pop();
    s.queue.push(queued("e", DownloadPriority::Low, 0, DownloadEngine::SNDE));
    assert!(!s.is_well_formed());
    s.queue.pop();
    for i in 0..3 {
        s.active.push(queued(&i.to_string(), DownloadPriority::Low, 0, DownloadEngine::SNDE));
    }
    assert!(!s.is_well_formed());
    s.active[0].engine = DownloadEngine::MediaEngine;
    assert!(s.is_well_formed());
    s.active.push(queued("x", DownloadPriority::Low, 0, DownloadEngine::MediaEngine));
    assert!(!s.is_well_formed());
    s.active.pop();
    for i in 0..101 {
        s.completed.push(i.to_string());
    }
    assert!(!s.is_well_formed());
}
