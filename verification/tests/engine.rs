use download_core::download_router::media_route;
use download_core::snde::{
    avg_speed_kbps, disposition_name, eta_secs, final_component, format_eta, format_speed,
    is_generic_name, output_path_for, progress_of, range_header, server_filename, speed_bps,
    ChunkTable, ClientKind, HeadProbe, PrepareError, ProgressReporter, ProgressStatus, SNDEEngine,
    SNDERequest, WorkerStep, MAX_CONNECTIONS,
};

fn assert_partition(total: u64, conns: u8) {
    let engine = SNDEEngine::new();
    let chunks = engine.create_chunks(total, conns);
    if total == 0 {
        assert!(chunks.is_empty());
        return;
    }
    assert_eq!(chunks[0].start, 0);
    assert_eq!(chunks[chunks.len() - 1].end, total - 1);
    let mut sum: u64 = 0;
    for i in 0..chunks.len() {
        assert!(chunks[i].start <= chunks[i].end);
        if i + 1 < chunks.len() {
            assert_eq!(chunks[i].end + 1, chunks[i + 1].start);
            assert!(chunks[i].end - chunks[i].start + 1 >= 1024 * 1024);
        }
        assert!(!chunks[i].completed && !chunks[i].in_progress && chunks[i].retries == 0);
        sum += chunks[i].end - chunks[i].start + 1;
    }
    assert_eq!(sum, total);
}

#[test]
fn scenario_pnde_happy_path() {
    let total: u64 = 10_485_760;
    let mut table = ChunkTable::new(total, 4);
    assert_eq!(table.chunks.len(), 4);
    for (i, c) in table.chunks.iter().enumerate() {
        assert_eq!(c.start, i as u64 * 2_621_440);
        assert_eq!(c.end, (i as u64 + 1) * 2_621_440 - 1);
    }
    let mut reporter = ProgressReporter::new();
    let mut last_progress = 0;
    loop {
        match table.next_step(false) {
            WorkerStep::Fetch(claim) => {
                table.add_downloaded(claim.end - claim.start + 1);
                table.finish_chunk(claim.index, true);
                let e = reporter
                    .tick("d1", "SNDE ACCELERATED", table.downloaded, total, 250, 4)
                    .unwrap();
                assert!(e.progress >= last_progress);
                last_progress = e.progress;
                assert_eq!(e.status, ProgressStatus::Downloading);
            }
            WorkerStep::Wait => panic!("nothing is in progress"),
            WorkerStep::Exit(ok) => {
                assert!(ok);
                break;
            }
        }
    }
    assert!(table.all_complete());
    assert_eq!(table.downloaded, 10_485_760);
    let event = table.final_event("d1", "SNDE ACCELERATED", false);
    assert_eq!(event.progress, 10000);
    assert_eq!(event.status, ProgressStatus::Completed);
    assert_eq!(event.status.label(), "completed");
    assert_eq!(event.downloaded_bytes, 10_485_760);
    assert_eq!(event.total_bytes, 10_485_760);
    assert_eq!(event.active_connections, 0);
    let result = table.result(false, 2000);
    assert!(result.success);
    assert!(result.error.is_none());
    assert_eq!(result.bytes_downloaded, 10_485_760);
    assert_eq!(result.avg_speed_kbps, 5120);
}

#[test]
fn chunks_partition_the_file() {
    assert_partition(0, 4);
    assert_partition(1, 4);
    assert_partition(1024 * 1024 - 1, 16);
    assert_partition(1024 * 1024, 16);
    assert_partition(1024 * 1024 + 1, 16);
    assert_partition(10_485_760, 4);
    assert_partition(10_485_763, 4);
    assert_partition(500_000_000, 8);
    assert_partition(u64::MAX, 1);
    assert_partition(u64::MAX, 2);
    assert_partition(1 << 40, 16);
}

#[test]
fn last_chunk_takes_what_is_left() {
    let engine = SNDEEngine::new();
    let chunks = engine.create_chunks(10_485_763, 4);
    assert_eq!(chunks.len(), 5);
    assert_eq!(chunks[4].start, 10_485_760);
    assert_eq!(chunks[4].end, 10_485_762);
    let chunks = engine.create_chunks(3 * 1024 * 1024, 16);
    assert_eq!(chunks.len(), 3);
    let chunks = engine.create_chunks(100, 8);
    assert_eq!(chunks.len(), 1);
    assert_eq!((chunks[0].start, chunks[0].end), (0, 99));
}

#[test]
fn workers_take_the_first_free_chunk_and_retry_five_times() {
    let mut table = ChunkTable::new(3 * 1024 * 1024, 3);
    let a = table.claim_next().unwrap();
    let b = table.claim_next().unwrap();
    assert_eq!((a.index, b.index), (0, 1));
    assert!(table.chunks[0].in_progress);
    table.finish_chunk(0, false);
    assert_eq!(table.chunks[0].retries, 1);
    assert!(!table.chunks[0].in_progress);
    let again = table.claim_next().unwrap();
    assert_eq!(again.index, 0);
    assert_eq!((again.start, again.end), (0, 1024 * 1024 - 1));
    for _ in 0..4 {
        table.finish_chunk(0, false);
        let next = table.claim_next();
        if table.chunks[0].retries < 5 {
            assert_eq!(next.unwrap().index, 0);
        } else {
            assert_eq!(next.unwrap().index, 2);
        }
    }
    assert_eq!(table.chunks[0].retries, 5);
    assert!(table.claim_next().is_none());
    assert_eq!(table.next_step(false), WorkerStep::Wait);
    table.finish_chunk(1, true);
    table.finish_chunk(2, true);
    table.finish_chunk(2, false);
    assert!(table.chunks[2].completed);
    assert_eq!(table.chunks[2].retries, 0);
    table.finish_chunk(99, true);
    assert_eq!(table.next_step(false), WorkerStep::Exit(false));
    assert_eq!(table.next_step(true), WorkerStep::Exit(true));
    assert!(!table.all_complete());
    assert_eq!(table.final_status(false), ProgressStatus::Failed);
    assert_eq!(table.final_status(true), ProgressStatus::Cancelled);
    let r = table.result(false, 0);
    assert!(!r.success);
    assert_eq!(r.error.as_deref(), Some("Download incomplete"));
    assert_eq!(r.avg_speed_kbps, 0);
    assert_eq!(table.result(true, 1).error.as_deref(), Some("Download cancelled"));
}

#[test]
fn success_needs_every_byte() {
    let mut table = ChunkTable::new(100, 1);
    let c = table.claim_next().unwrap();
    table.add_downloaded(99);
    table.finish_chunk(c.index, true);
    assert!(table.all_complete());
    assert_eq!(table.final_status(false), ProgressStatus::Failed);
    let e = table.final_event("x", "SNDE SAFE", false);
    assert_eq!(e.progress, 9900);
    assert_eq!(e.status.label(), "failed");
    table.add_downloaded(1);
    assert_eq!(table.final_status(false), ProgressStatus::Completed);
}

#[test]
fn byte_counter_never_goes_back() {
    let mut table = ChunkTable::new(10, 1);
    let mut last = 0;
    for n in [0u64, 5, u64::MAX - 2, 7, 1] {
        table.add_downloaded(n);
        assert!(table.downloaded >= last);
        last = table.downloaded;
    }
    assert_eq!(table.downloaded, u64::MAX);
}

#[test]
fn connection_count_and_preallocation() {
    let engine = SNDEEngine::new();
    assert_eq!(engine.request_timeout_secs, 300);
    assert_eq!(engine.connect_timeout_secs, 30);
    assert_eq!(engine.pool_max_idle_per_host, MAX_CONNECTIONS);
    assert_eq!(engine.connection_count(4, true), 4);
    assert_eq!(engine.connection_count(0, true), 1);
    assert_eq!(engine.connection_count(200, true), 16);
    assert_eq!(engine.connection_count(8, false), 1);
    assert_eq!(engine.get_client(true), ClientKind::Http1Only);
    assert_eq!(engine.get_client(false), ClientKind::General);
    let gib: u64 = 1024 * 1024 * 1024;
    assert_eq!(engine.preallocation_len(0), Some(0));
    assert_eq!(engine.preallocation_len(8 * gib - 1), Some(8 * gib - 1));
    assert_eq!(engine.preallocation_len(8 * gib), Some(4 * gib));
    assert_eq!(engine.preallocation_len(32 * gib - 1), Some(4 * gib));
    assert_eq!(engine.preallocation_len(32 * gib), None);
}

#[test]
fn progress_numbers() {
    assert_eq!(progress_of(0, 0), 0);
    assert_eq!(progress_of(1, 3), 3333);
    assert_eq!(progress_of(3, 3), 10000);
    assert_eq!(progress_of(9, 3), 10000);
    assert_eq!(progress_of(u64::MAX - 1, u64::MAX), 9999);
    assert_eq!(speed_bps(1000, 250), 4000);
    assert_eq!(speed_bps(1000, 0), 0);
    assert_eq!(speed_bps(u64::MAX, 1), u64::MAX);
    assert_eq!(eta_secs(25, 100, 10), 7);
    assert_eq!(eta_secs(25, 100, 0), 0);
    assert_eq!(eta_secs(125, 100, 10), 0);
    assert_eq!(avg_speed_kbps(10 * 1024, 1000), 10);
    assert_eq!(avg_speed_kbps(u64::MAX, 1), u32::MAX);
    assert_eq!(range_header(0, 1048575), "bytes=0-1048575");
}

#[test]
fn reporter_emits_only_when_time_has_passed() {
    let mut r = ProgressReporter::new();
    assert!(r.tick("a", "b", 10, 100, 0, 2).is_none());
    let e = r.tick("a", "b", 50, 100, 250, 2).unwrap();
    assert_eq!(e.id, "a");
    assert_eq!(e.engine_badge, "b");
    assert_eq!(e.progress, 5000);
    assert_eq!(e.speed, "200 B/s");
    assert_eq!(e.eta, "0s");
    assert_eq!(e.active_connections, 2);
    let e = r.tick("a", "b", 40, 100, 250, 2).unwrap();
    assert_eq!(e.progress, 5000);
    assert_eq!(e.speed, "0 B/s");
}

#[test]
fn labels() {
    assert_eq!(format_speed(0), "0 B/s");
    assert_eq!(format_speed(1023), "1023 B/s");
    assert_eq!(format_speed(1024), "1.00 KB/s");
    assert_eq!(format_speed(1152), "1.12 KB/s");
    assert_eq!(format_speed(1048576), "1.00 MB/s");
    assert_eq!(format_speed(1073741824), "1.00 GB/s");
    assert_eq!(format_eta(0), "0s");
    assert_eq!(format_eta(59), "59s");
    assert_eq!(format_eta(60), "1m 0s");
    assert_eq!(format_eta(3599), "59m 59s");
    assert_eq!(format_eta(3600), "1h 0m");
    assert_eq!(ProgressStatus::Starting.label(), "starting");
    assert_eq!(ProgressStatus::Downloading.label(), "downloading");
    assert_eq!(ProgressStatus::Merging.label(), "merging");
    assert_eq!(ProgressStatus::Cancelled.label(), "cancelled");
}

#[test]
fn content_disposition_names() {
    assert_eq!(
        disposition_name("attachment; filename=\"report.zip\"").as_deref(),
        Some("report.zip")
    );
    assert_eq!(
        disposition_name("attachment; filename=plain.bin").as_deref(),
        Some("plain.bin")
    );
    assert_eq!(
        disposition_name("attachment; filename=\"a b.txt\"; size=3").as_deref(),
        Some("a b.txt")
    );
    assert_eq!(
        disposition_name("attachment; filename*=UTF-8''na%C3%AFve%20file.txt").as_deref(),
        Some("naïve file.txt")
    );
    assert_eq!(
        disposition_name("attachment; filename*=UTF-8''bad%FFbytes").as_deref(),
        Some("bad%FFbytes")
    );
    assert_eq!(disposition_name("attachment; filename*=nothing"), None);
    assert_eq!(disposition_name("inline"), None);
    assert_eq!(
        server_filename("attachment; filename=\"../../etc/passwd\"").as_deref(),
        Some("passwd")
    );
    assert_eq!(
        server_filename("attachment; filename=\"..\\\\..\\\\boot.ini\"").as_deref(),
        Some("boot.ini")
    );
    assert_eq!(server_filename("attachment; filename=\"..\"").as_deref(), Some("download"));
    assert_eq!(server_filename("attachment; filename=\"dir/\"").as_deref(), Some("dir"));
    assert_eq!(server_filename("attachment; filename=\"\"").as_deref(), Some("download"));
    assert_eq!(final_component("a/b/c.txt"), "c.txt");
    assert_eq!(final_component("."), "download");
    assert_eq!(final_component("/"), "download");
}

#[test]
fn output_path_uses_the_server_name_for_placeholders() {
    assert!(is_generic_name("download", false));
    assert!(is_generic_name("download_42", false));
    assert!(is_generic_name("", false));
    assert!(is_generic_name("movie.mp4", true));
    assert!(!is_generic_name("movie.mp4", false));
    assert_eq!(output_path_for("/tmp/out/download", false, Some("a.zip")), "/tmp/out/a.zip");
    assert_eq!(output_path_for("/tmp/out/movie.mp4", false, Some("a.zip")), "/tmp/out/movie.mp4");
    assert_eq!(output_path_for("/tmp/out/movie.mp4", false, None), "/tmp/out/movie.mp4");
    assert_eq!(output_path_for("download", false, Some("a.zip")), "a.zip");
    assert_eq!(output_path_for("/tmp/out", true, Some("a.zip")), "/tmp/a.zip");
}

#[test]
fn head_probe_and_plan() {
    assert_eq!(
        HeadProbe::from_headers(404, Some("1"), None, None).err(),
        Some(PrepareError::BadStatus(404))
    );
    assert_eq!(PrepareError::BadStatus(404).message(), "HEAD request returned 404");
    assert_eq!(
        HeadProbe::from_headers(200, None, None, None).err(),
        Some(PrepareError::NoContentLength)
    );
    assert_eq!(
        HeadProbe::from_headers(200, Some("abc"), None, None).err(),
        Some(PrepareError::NoContentLength)
    );
    assert_eq!(PrepareError::NoContentLength.message(), "No Content-Length header");
    let probe = HeadProbe::from_headers(
        200,
        Some("10485760"),
        Some("bytes"),
        Some("attachment; filename=\"x/y.iso\""),
    )
    .ok()
    .unwrap();
    assert_eq!(probe.total_size, 10485760);
    assert!(probe.supports_range);
    assert_eq!(probe.filename.as_deref(), Some("y.iso"));
    let mut decision = media_route();
    decision.recommended_connections = 4;
    decision.force_http1 = true;
    let request = SNDERequest {
        id: "1".to_string(),
        url: "https://example.com/y".to_string(),
        output_path: "/data/download_1".to_string(),
        routing_decision: decision,
    };
    let plan = SNDEEngine::new().plan(&request, &probe, false);
    assert_eq!(plan.output_path, "/data/y.iso");
    assert_eq!(plan.connections, 4);
    assert_eq!(plan.preallocate, Some(10485760));
    assert_eq!(plan.client, ClientKind::Http1Only);
    assert_eq!(plan.table.chunks.len(), 4);
    let no_range = HeadProbe::from_headers(200, Some("10485760"), None, None).ok().unwrap();
    let plan = SNDEEngine::new().plan(&request, &no_range, false);
    assert_eq!(plan.connections, 1);
    assert_eq!(plan.table.chunks.len(), 1);
    assert_eq!(plan.output_path, "/data/download_1");
}
