use download_core::download_router::{decide, media_route, HttpVersion, ProbeResponse, ProbeResult};
use download_core::downloader::{
    classify_line, is_media_type, native_file_name, parse_progress, parse_progress_template,
    parse_rate, pick_binary, progress_event, smooth, use_native_engine, BinaryCandidate,
    DirectFileInfo, DownloadRequest, Downloader, ExtractorLine, FormatInfo, MetadataCache,
    ProgressTracker, RawFormat,
};
use download_core::snde::ProgressStatus;
use download_core::spotify_downloader::{
    concurrent_fragments, content_type, is_spotify_url, track_progress, GithubAsset,
    GithubRelease, Platform, SpotifyDownloader,
};
use download_core::vault_download::{
    adapter_step, extractor_args, is_direct_file_url, is_scratch_output, parse_yt_dlp_progress,
    progress_from_captures, scratch_file_name, stage_event, AdapterAction, AdapterEvent,
    AdapterState, VaultDownloadRequest, VaultDownloadStatus,
};

fn progress(line: ExtractorLine) -> (u32, String, String) {
    match line {
        ExtractorLine::Progress(p, s, e) => (p, s, e),
        _ => panic!("no progress line"),
    }
}

fn request() -> DownloadRequest {
    DownloadRequest {
        id: "7".to_string(),
        url: "https://example.com/v".to_string(),
        output_path: "/out".to_string(),
        format: None,
        audio_only: false,
        quality: None,
        embed_thumbnail: false,
        embed_metadata: false,
        download_subtitles: false,
        audio_quality: "0".to_string(),
        audio_format: "mp3".to_string(),
        video_format: "mp4".to_string(),
        use_sponsorblock: false,
    }
}

#[test]
fn template_lines() {
    let (p, s, e) = progress(
        parse_progress_template(" 50.0%|10.5MiB/s|00:05|52.5MiB|105.0MiB").unwrap(),
    );
    assert_eq!((p, s.as_str(), e.as_str()), (5000, "10.5MiB/s", "00:05"));
    let (p, s, e) = progress(parse_progress_template("download: 7.25% | N/A | N/A ").unwrap());
    assert_eq!((p, s.as_str(), e.as_str()), (725, "", ""));
    let (p, _, _) = progress(parse_progress_template("100%|a|b").unwrap());
    assert_eq!(p, 9900);
    let (p, _, _) = progress(parse_progress_template("-3%|a|b").unwrap());
    assert_eq!(p, 0);
    let (p, _, _) = progress(parse_progress_template(".5|a|b|").unwrap());
    assert_eq!(p, 50);
    let (p, _, _) = progress(parse_progress_template("12.349|a|b").unwrap());
    assert_eq!(p, 1234);
    assert!(parse_progress_template("50%|only two").is_none());
    assert!(parse_progress_template("no bars").is_none());
    assert!(parse_progress_template("abc|x|y").is_none());
    assert!(parse_progress_template("1.2.3|x|y").is_none());
    assert!(parse_progress_template("|x|y").is_none());
}

#[test]
fn plain_lines() {
    let (p, s, e) = progress(
        parse_progress("[download]  50.0% of 100.00MiB at 10.00MiB/s ETA 00:05").unwrap(),
    );
    assert_eq!((p, s.as_str(), e.as_str()), (5000, "10.00MiB/s", "00:05"));
    let (p, s, e) = progress(parse_progress("[download] 3% done").unwrap());
    assert_eq!((p, s.as_str(), e.as_str()), (300, "", ""));
    assert!(parse_progress("50.0% of 100MiB").is_none());
    assert!(parse_progress("[download] Destination: a.mp4").is_none());
    assert!(parse_progress("[download] x% of").is_none());
}

#[test]
fn line_classes() {
    assert!(matches!(classify_line("[Merger] Merging formats"), ExtractorLine::PostProcessing));
    assert!(matches!(classify_line("[ExtractAudio] Destination"), ExtractorLine::PostProcessing));
    assert!(matches!(classify_line("[EmbedThumbnail] x"), ExtractorLine::PostProcessing));
    assert!(matches!(classify_line("[EmbedSubtitle] x"), ExtractorLine::PostProcessing));
    assert!(matches!(classify_line("[Metadata] x"), ExtractorLine::PostProcessing));
    assert!(matches!(classify_line("[ffmpeg] x"), ExtractorLine::PostProcessing));
    assert!(matches!(classify_line("WARNING: something odd \u{1F600}"), ExtractorLine::Other));
    assert!(matches!(classify_line(""), ExtractorLine::Other));
    assert!(matches!(classify_line("10%|a|b"), ExtractorLine::Progress(1000, _, _)));
    assert!(matches!(classify_line("[download] 10% x"), ExtractorLine::Progress(1000, _, _)));
}

#[test]
fn speeds() {
    assert_eq!(parse_rate("100B/s"), Some(100));
    assert_eq!(parse_rate("1.5KiB/s"), Some(1536));
    assert_eq!(parse_rate("10.25MiB/s"), Some(10747904));
    assert_eq!(parse_rate("1GiB/s"), Some(1073741824));
    assert_eq!(parse_rate("N/A"), None);
    assert_eq!(parse_rate("5MB/s"), None);
    assert_eq!(parse_rate(""), None);
    assert_eq!(smooth(0, 1000), 1000);
    assert_eq!(smooth(1000, 2000), 1300);
    assert_eq!(smooth(u64::MAX, u64::MAX), u64::MAX);
}

#[test]
fn shown_progress_never_goes_back_except_for_a_new_stream() {
    let mut t = ProgressTracker::new();
    let lines = [
        (0u64, "10%|1.0MiB/s|00:09", Some(1000u32)),
        (200, "30%|1.0MiB/s|00:07", Some(3000)),
        (400, "20%|1.0MiB/s|00:06", Some(3000)),
        (600, "90%|1.0MiB/s|00:01", Some(9000)),
        (800, "100%|1.0MiB/s|00:00", Some(9900)),
        (1000, "3%|1.0MiB/s|00:30", Some(300)),
        (1200, "2%|1.0MiB/s|00:29", Some(300)),
        (1400, "95%|1.0MiB/s|00:01", Some(9500)),
        (1600, "6%|1.0MiB/s|00:20", Some(9500)),
        (1800, "[Merger] Merging", Some(9500)),
        (2000, "some other line", None),
    ];
    for (now, line, expected) in lines {
        let update = t.observe(classify_line(line), now);
        assert_eq!(update.map(|u| u.progress), expected, "line {}", line);
    }
    let mut t = ProgressTracker::new();
    let u = t.observe(classify_line("[Merger] x"), 0).unwrap();
    assert_eq!(u.progress, 9000);
    assert_eq!(u.status, ProgressStatus::Merging);
    let done = t.finish(ProgressStatus::Completed);
    assert_eq!(done.progress, 10000);
    assert_eq!(t.finish(ProgressStatus::Cancelled).progress, 9000);
    assert_eq!(t.finish(ProgressStatus::Failed).status, ProgressStatus::Failed);
    let e = progress_event("id", "MEDIA ENGINE", done);
    assert_eq!(e.id, "id");
    assert_eq!(e.engine_badge.as_deref(), Some("MEDIA ENGINE"));
    assert_eq!(e.progress, 10000);
}

#[test]
fn events_are_spaced_unless_something_changed() {
    let mut t = ProgressTracker::new();
    assert!(t.observe(classify_line("10%|1.0MiB/s|00:09"), 1000).is_some());
    assert!(t.observe(classify_line("10.5%|1.0MiB/s|00:09"), 1050).is_none());
    assert_eq!(t.last_progress, 1050);
    assert!(t.observe(classify_line("10.6%|1.0MiB/s|00:09"), 1179).is_none());
    let u = t.observe(classify_line("10.7%|1.0MiB/s|00:09"), 1180).unwrap();
    assert_eq!(u.progress, 1070);
    assert_eq!(u.speed, "1.00 MB/s");
    assert!(t.observe(classify_line("11.7%|1.0MiB/s|00:09"), 1181).is_some());
    assert!(t.observe(classify_line("11.8%|1.0MiB/s|00:08"), 1182).is_some());
    assert!(t.observe(classify_line("11.9%|1.0MiB/s|00:08"), 1183).is_none());
    let u = t.observe(classify_line("11.9%|2.0MiB/s|00:08"), 1184).unwrap();
    assert_eq!(u.speed, "1.30 MB/s");
    assert!(t.observe(classify_line("11.9%|odd|00:08"), 1185).is_none());
    let u = t.observe(classify_line("11.9%|odd|00:08"), 1400).unwrap();
    assert_eq!(u.speed, "odd");
}

#[test]
fn arguments() {
    let mut r = request();
    assert_eq!(
        Downloader::download_args(&r, None),
        vec![
            "--progress",
            "--newline",
            "--no-warnings",
            "--progress-template",
            "download:%(progress._percent_str)s|%(progress._speed_str)s|%(progress._eta_str)s|%(progress._downloaded_bytes_str)s|%(progress._total_bytes_str)s",
            "-o",
            "/out/%(title)s.%(ext)s",
            "https://example.com/v",
        ]
    );
    r.quality = Some("720p".to_string());
    r.embed_thumbnail = true;
    r.embed_metadata = true;
    r.download_subtitles = true;
    r.use_sponsorblock = true;
    let args = Downloader::download_args(&r, Some("/bin/ff"));
    assert_eq!(
        &args[5..],
        &[
            "--ffmpeg-location",
            "/bin/ff",
            "-o",
            "/out/%(title)s.%(ext)s",
            "-f",
            "bestvideo[height<=720]+bestaudio/best[height<=720]/best",
            "--merge-output-format",
            "mp4",
            "--embed-thumbnail",
            "--embed-metadata",
            "--write-subs",
            "--embed-subs",
            "--sub-langs",
            "en,en-US,en-GB",
            "--sponsorblock-remove",
            "all",
            "https://example.com/v",
        ]
    );
    r.format = Some("137+140".to_string());
    let args = Downloader::download_args(&r, None);
    assert_eq!(&args[7..9], &["-f", "137+140"]);
    assert!(!args.contains(&"--merge-output-format".to_string()));
    r.format = Some(String::new());
    assert!(!Downloader::download_args(&r, None).contains(&"-f".to_string()));
    r.audio_only = true;
    let args = Downloader::download_args(&r, None);
    assert_eq!(&args[7..12], &["-x", "--audio-format", "mp3", "--audio-quality", "0"]);
    assert!(!args.contains(&"--write-subs".to_string()));
    r.audio_only = false;
    r.format = None;
    r.quality = Some("weird".to_string());
    assert_eq!(Downloader::download_args(&r, None)[8], "bestvideo+bestaudio/best");

    assert_eq!(
        Downloader::metadata_args("u", false),
        vec!["-j", "--no-playlist", "--no-warnings", "--socket-timeout", "15", "--extractor-retries", "1", "--retries", "2", "u"]
    );
    assert_eq!(
        &Downloader::metadata_args("u", true)[9..],
        &["--sponsorblock-mark", "all", "u"]
    );
    let d = Downloader { yt_dlp_path: "/app/binaries/yt-dlp".to_string(), ffmpeg_path: None };
    let info = d.yt_dlp_info(" 2025.01.15\n");
    assert_eq!(info.version, "2025.01.15");
    assert!(info.is_embedded);
    assert_eq!(info.path, "/app/binaries/yt-dlp");
}

#[test]
fn choice_of_engine_and_names() {
    let probe = |ranges: Option<&str>, len: Option<&str>| {
        ProbeResult::from_response(
            ProbeResponse {
                status: 200,
                version: HttpVersion::Http11,
                accept_ranges: ranges.map(|s| s.to_string()),
                content_range: None,
                content_length: len.map(|s| s.to_string()),
                content_type: None,
                server: None,
            },
            1,
        )
    };
    let ranged = decide(true, None, probe(Some("bytes"), Some("100")));
    assert!(use_native_engine(&ranged, false));
    assert!(!use_native_engine(&ranged, true));
    assert!(!use_native_engine(&decide(true, None, probe(Some("bytes"), None)), false));
    assert!(!use_native_engine(&decide(true, None, probe(None, Some("100"))), false));
    assert!(!use_native_engine(&media_route(), false));
    assert_eq!(native_file_name("https://example.com/a/b/file.zip?x=1", "9"), "file.zip");
    assert_eq!(native_file_name("https://example.com/a/", "9"), "");
    assert_eq!(native_file_name("nonsense", "9"), "download_9");
    assert_eq!(native_file_name("mailto:a@b.c", "9"), "download_9");
    assert!(is_media_type(None));
    assert!(is_media_type(Some("video/mp4")));
    assert!(is_media_type(Some("application/octet-stream")));
    assert!(!is_media_type(Some("text/html")));
    let info = DirectFileInfo::from_headers(
        "https://example.com/files/a.mp4",
        Some("12345"),
        Some("video/mp4".to_string()),
        None,
    );
    assert_eq!(info.file_size, 12345);
    assert_eq!(info.filename.as_deref(), Some("a.mp4"));
    assert!(info.is_media);
    let info = DirectFileInfo::from_headers(
        "https://example.com/download",
        Some("x"),
        Some("text/html".to_string()),
        Some("attachment; filename=\"b.bin\""),
    );
    assert_eq!(info.file_size, 0);
    assert_eq!(info.filename.as_deref(), Some("b.bin"));
    assert!(!info.is_media);
    let info = DirectFileInfo::from_headers("https://example.com/download", None, None, None);
    assert_eq!(info.filename, None);
    let candidates = vec![
        BinaryCandidate { path: "/managed/tool".to_string(), exists: false },
        BinaryCandidate { path: "/packaged/tool".to_string(), exists: true },
        BinaryCandidate { path: "/other/tool".to_string(), exists: true },
    ];
    assert_eq!(pick_binary(&candidates), Some(1));
    assert_eq!(pick_binary(&candidates[..1].iter().map(|c| BinaryCandidate { path: c.path.clone(), exists: c.exists }).collect()), None);
}

#[test]
fn formats() {
    let raw = RawFormat {
        format_id: Some("137".to_string()),
        ext: None,
        resolution: None,
        width: Some(1920),
        height: Some(1080),
        filesize: Some(5),
        filesize_approx: None,
        vcodec: Some("avc1".to_string()),
        acodec: Some("none".to_string()),
        format_note: Some("1080p".to_string()),
    };
    let f = FormatInfo::from_raw(raw.clone()).unwrap();
    assert_eq!(f.format_id, "137");
    assert_eq!(f.ext, "unknown");
    assert_eq!(f.resolution.as_deref(), Some("1920x1080"));
    assert_eq!(f.vcodec.as_deref(), Some("avc1"));
    assert_eq!(f.acodec, None);
    assert_eq!(f.quality_label.as_deref(), Some("1080p"));
    assert_eq!(f.format_note.as_deref(), Some("1080p"));
    let mut named = raw.clone();
    named.resolution = Some("audio only".to_string());
    named.ext = Some("m4a".to_string());
    named.width = Some(-1);
    let f = FormatInfo::from_raw(named).unwrap();
    assert_eq!(f.resolution.as_deref(), Some("audio only"));
    assert_eq!(f.ext, "m4a");
    let mut partial = raw.clone();
    partial.height = None;
    assert_eq!(FormatInfo::from_raw(partial).unwrap().resolution, None);
    let mut negative = raw.clone();
    negative.width = Some(-3);
    assert_eq!(FormatInfo::from_raw(negative).unwrap().resolution.as_deref(), Some("-3x1080"));
    let mut anonymous = raw;
    anonymous.format_id = None;
    assert!(FormatInfo::from_raw(anonymous).is_none());
}

#[test]
fn metadata_cache() {
    let mut cache: MetadataCache<u32> = MetadataCache::new();
    assert!(cache.get("u", false, 0).is_none());
    cache.put("u", false, 1, 1000);
    cache.put("u", true, 2, 1000);
    assert_eq!(cache.get("u", false, 1000), Some(&1));
    assert_eq!(cache.get("u", true, 300_999), Some(&2));
    assert_eq!(cache.get("u", true, 301_000), None);
    assert_eq!(cache.get("u", true, 999), None);
    assert_eq!(cache.get("v", true, 1000), None);
    cache.put("u", false, 3, 2000);
    assert_eq!(cache.entries.len(), 2);
    assert_eq!(cache.get("u", false, 2000), Some(&3));
    cache.put("w", false, 4, 400_000);
    assert_eq!(cache.entries.len(), 1);
    let mut cache: MetadataCache<usize> = MetadataCache::new();
    for i in 0..100 {
        cache.put(&format!("u{}", i), false, i, 5000 + i as u64);
        assert!(cache.entries.len() <= 64);
    }
    assert_eq!(cache.entries.len(), 64);
    assert_eq!(cache.get("u35", false, 6000), None);
    assert_eq!(cache.get("u36", false, 6000), Some(&36));
    assert_eq!(cache.get("u99", false, 6000), Some(&99));
}

#[test]
fn versions() {
    assert_eq!(SpotifyDownloader::normalize_version_token(" v4.2.10 \n"), "4.2.10");
    assert_eq!(SpotifyDownloader::normalize_version_token("spotdl (version 4.2.5, build)"), "4.2.5");
    assert_eq!(SpotifyDownloader::normalize_version_token("vv1.0"), "1.0");
    assert_eq!(SpotifyDownloader::normalize_version_token("nightly"), "nightly");
    assert_eq!(SpotifyDownloader::normalize_version_token("v7"), "7");
    assert_eq!(SpotifyDownloader::normalize_version_token(""), "");
    assert_eq!(SpotifyDownloader::parse_version_segments("v4.2.10"), Some(vec![4, 2, 10]));
    assert_eq!(SpotifyDownloader::parse_version_segments("4.2rc1"), Some(vec![4, 2]));
    assert_eq!(SpotifyDownloader::parse_version_segments("7"), Some(vec![7]));
    assert_eq!(SpotifyDownloader::parse_version_segments("4..1"), None);
    assert_eq!(SpotifyDownloader::parse_version_segments("a.b"), None);
    assert_eq!(SpotifyDownloader::parse_version_segments("1.99999999999"), None);
    assert_eq!(SpotifyDownloader::parse_version_segments(""), None);
    assert!(SpotifyDownloader::is_update_available("4.2.5", "v4.2.10"));
    assert!(!SpotifyDownloader::is_update_available("4.2.10", "4.2.5"));
    assert!(!SpotifyDownloader::is_update_available("4.2", "4.2.0"));
    assert!(SpotifyDownloader::is_update_available("4.2", "4.2.0.1"));
    assert!(!SpotifyDownloader::is_update_available("5", "4.9.9"));
    assert!(SpotifyDownloader::is_update_available("nightly", "4.0"));
    assert!(!SpotifyDownloader::is_update_available("nightly", " nightly "));
    let info = SpotifyDownloader::spotdl_info("spotdl 4.2.5\n", "/bin/spotdl", Some("v4.3.0".to_string()));
    assert_eq!(info.version, "4.2.5");
    assert!(info.update_available && info.is_available);
    assert_eq!(info.latest_version.as_deref(), Some("v4.3.0"));
    assert!(!SpotifyDownloader::spotdl_info("4.2.5", "p", None).update_available);
}

#[test]
fn release_assets() {
    let asset = |name: &str| GithubAsset { name: name.to_string(), browser_download_url: format!("https://dl/{}", name) };
    let release = GithubRelease {
        tag_name: "v4.2.10".to_string(),
        assets: vec![
            asset("spotdl-4.2.10-darwin"),
            asset("spotdl-4.2.10-linux"),
            asset("SpotDL-4.2.10-Win32.EXE"),
            asset("spotdl"),
            asset("spotdl.exe"),
        ],
    };
    assert_eq!(SpotifyDownloader::pick_spotdl_asset(&release, Platform::Windows), Some(2));
    assert_eq!(SpotifyDownloader::pick_spotdl_asset(&release, Platform::MacOs), Some(0));
    assert_eq!(SpotifyDownloader::pick_spotdl_asset(&release, Platform::Linux), Some(1));
    assert_eq!(SpotifyDownloader::pick_spotdl_asset(&release, Platform::Other), Some(0));
    let plain = GithubRelease { tag_name: String::new(), assets: vec![asset("readme.txt"), asset("SPOTDL"), asset("Spotdl.Exe")] };
    assert_eq!(SpotifyDownloader::pick_spotdl_asset(&plain, Platform::Windows), Some(2));
    assert_eq!(SpotifyDownloader::pick_spotdl_asset(&plain, Platform::Linux), Some(1));
    let none = GithubRelease { tag_name: String::new(), assets: vec![asset("readme.txt")] };
    assert_eq!(SpotifyDownloader::pick_spotdl_asset(&none, Platform::MacOs), None);
    let empty = GithubRelease { tag_name: String::new(), assets: Vec::new() };
    assert_eq!(SpotifyDownloader::pick_spotdl_asset(&empty, Platform::Other), None);
}

#[test]
fn music_service() {
    assert!(is_spotify_url("https://open.spotify.com/track/1"));
    assert!(!is_spotify_url("https://example.com/spotify"));
    assert_eq!(content_type("https://open.spotify.com/track/1"), "track");
    assert_eq!(content_type("https://open.spotify.com/album/1"), "album");
    assert_eq!(content_type("https://open.spotify.com/playlist/1"), "playlist");
    assert_eq!(content_type("https://open.spotify.com/artist/1"), "artist");
    assert_eq!(content_type("https://open.spotify.com/show/1"), "unknown");
    assert_eq!(concurrent_fragments(None), 4);
    assert_eq!(concurrent_fragments(Some(1)), 2);
    assert_eq!(concurrent_fragments(Some(-5)), 2);
    assert_eq!(concurrent_fragments(Some(6)), 6);
    assert_eq!(concurrent_fragments(Some(99)), 8);
    assert_eq!(track_progress(0, 4), 1000);
    assert_eq!(track_progress(1, 4), 3125);
    assert_eq!(track_progress(4, 4), 9500);
    assert_eq!(track_progress(0, 0), 1000);
}

#[test]
fn downloads_into_the_vault() {
    assert!(!is_direct_file_url("https://www.youtube.com/watch?v=1"));
    assert!(is_direct_file_url("https://example.com/file.bin"));
    assert!(is_direct_file_url("not a url"));
    assert_eq!(download_core::vault_download::format_speed(999), "999B/s");
    assert_eq!(download_core::vault_download::format_speed(1500), "1.50KB/s");
    assert_eq!(download_core::vault_download::format_speed(2_345_678), "2.35MB/s");
    assert_eq!(download_core::vault_download::format_eta(5), "00:05");
    assert_eq!(download_core::vault_download::format_eta(3599), "59:59");
    assert_eq!(download_core::vault_download::format_eta(3600), "01:00:00");
    assert_eq!(download_core::vault_download::format_eta(360_000), "100:00:00");
    let (p, s, e) = parse_yt_dlp_progress("[download]  50.0% of 100.00MiB at 5.00MiB/s ETA 00:10");
    assert_eq!((p, s.as_str(), e.as_str()), (5000, "5.00MiB/s", "00:10"));
    let (p, s, e) = parse_yt_dlp_progress("[download] Destination: x");
    assert_eq!((p, s.as_str(), e.as_str()), (0, "", ""));
    let (p, s, e) = progress_from_captures(Some("7.".to_string()), None, Some("x".to_string()));
    assert_eq!((p, s.as_str(), e.as_str()), (700, "", "x"));
    let request = VaultDownloadRequest {
        id: "1".to_string(),
        url: "https://example.com/v".to_string(),
        original_name: "v".to_string(),
        file_type: "video".to_string(),
        thumbnail: None,
        audio_only: false,
        quality: Some("1080p".to_string()),
        format: None,
        audio_format: "mp3".to_string(),
        embed_metadata: true,
        use_sponsorblock: true,
    };
    assert_eq!(
        extractor_args(&request, "/scratch/x.tmp"),
        vec![
            "-o",
            "/scratch/x.tmp",
            "--no-playlist",
            "--no-warnings",
            "--progress",
            "--newline",
            "-f",
            "bestvideo[height<=1080][ext=mp4]+bestaudio[ext=m4a]/best[height<=1080][ext=mp4]/best",
            "--embed-metadata",
            "--sponsorblock-remove",
            "all",
            "https://example.com/v",
        ]
    );
    let mut audio = request.clone();
    audio.audio_only = true;
    audio.embed_metadata = false;
    audio.use_sponsorblock = false;
    assert_eq!(&extractor_args(&audio, "s")[6..], &["-x", "--audio-format", "mp3", "https://example.com/v"]);
    let name = scratch_file_name();
    assert!(name.ends_with(".tmp"));
    assert_eq!(name.len(), 40);
    assert_ne!(name, scratch_file_name());
    assert!(is_scratch_output("abc.tmp.mp4", "abc"));
    assert!(!is_scratch_output("xabc.tmp", "abc"));
}

#[test]
fn vault_download_steps() {
    assert_eq!(adapter_step(AdapterState::Preparing, AdapterEvent::Prepared, true), (AdapterState::FetchingDirect, AdapterAction::FetchDirect));
    assert_eq!(adapter_step(AdapterState::Preparing, AdapterEvent::Prepared, false), (AdapterState::FetchingByExtractor, AdapterAction::RunExtractor));
    assert_eq!(adapter_step(AdapterState::FetchingDirect, AdapterEvent::FetchFailed, true), (AdapterState::FetchingByExtractor, AdapterAction::RunExtractor));
    assert_eq!(adapter_step(AdapterState::FetchingDirect, AdapterEvent::FetchSucceeded, true), (AdapterState::Encrypting, AdapterAction::Encrypt));
    assert_eq!(adapter_step(AdapterState::FetchingByExtractor, AdapterEvent::FetchSucceeded, true), (AdapterState::Encrypting, AdapterAction::Encrypt));
    assert_eq!(
        adapter_step(AdapterState::FetchingByExtractor, AdapterEvent::FetchFailed, true),
        (AdapterState::Finished, AdapterAction::DeleteScratchAndFinish(VaultDownloadStatus::Failed, 0))
    );
    assert_eq!(
        adapter_step(AdapterState::Encrypting, AdapterEvent::EncryptSucceeded(77), true),
        (AdapterState::Finished, AdapterAction::DeleteScratchAndFinish(VaultDownloadStatus::Completed, 77))
    );
    assert_eq!(
        adapter_step(AdapterState::Encrypting, AdapterEvent::EncryptFailed, true),
        (AdapterState::Finished, AdapterAction::DeleteScratchAndFinish(VaultDownloadStatus::Failed, 0))
    );
    for s in [AdapterState::Preparing, AdapterState::FetchingDirect, AdapterState::FetchingByExtractor, AdapterState::Encrypting] {
        assert_eq!(
            adapter_step(s, AdapterEvent::Cancelled, true),
            (AdapterState::Finished, AdapterAction::DeleteScratchAndFinish(VaultDownloadStatus::Cancelled, 0))
        );
    }
    assert_eq!(adapter_step(AdapterState::Finished, AdapterEvent::Cancelled, true), (AdapterState::Finished, AdapterAction::Ignore));
    assert_eq!(adapter_step(AdapterState::Preparing, AdapterEvent::EncryptFailed, true), (AdapterState::Preparing, AdapterAction::Ignore));
    let e = stage_event("d", VaultDownloadStatus::Encrypting, 0);
    assert_eq!(e.progress, 9500);
    assert_eq!(e.status.label(), "encrypting");
    assert_eq!(e.downloaded_bytes, None);
    let e = stage_event("d", VaultDownloadStatus::Completed, 12);
    assert_eq!(e.progress, 10000);
    assert_eq!((e.downloaded_bytes, e.total_bytes, e.encrypted_bytes), (Some(12), Some(12), Some(12)));
    assert_eq!(stage_event("d", VaultDownloadStatus::Preparing, 5).progress, 0);
    assert_eq!(VaultDownloadStatus::Cancelled.label(), "cancelled");
    assert_eq!(VaultDownloadStatus::Failed.label(), "failed");
    assert_eq!(VaultDownloadStatus::Preparing.label(), "preparing");
    assert_eq!(VaultDownloadStatus::Downloading.label(), "downloading");
    assert_eq!(VaultDownloadStatus::Completed.label(), "completed");
}

#[test]
fn track_files() {
    let request = download_core::spotify_downloader::SpotifyDownloadRequest {
        id: "1".to_string(),
        url: "https://open.spotify.com/track/1".to_string(),
        output_path: "C:\\Music\\New".to_string(),
        audio_format: "mp3".to_string(),
        audio_quality: "320k".to_string(),
        embed_lyrics: false,
        threads: Some(12),
    };
    assert_eq!(
        download_core::spotify_downloader::safe_name("AC/DC - \"Who?\" <live> | a:b*c\\d"),
        "AC-DC - 'Who' -live- - a-b-c-d"
    );
    assert_eq!(
        download_core::spotify_downloader::track_args(&request, "A/B: C?", "/bin/ffmpeg", "https://youtu.be/x"),
        vec![
            "-x",
            "--audio-format",
            "mp3",
            "--audio-quality",
            "0",
            "--concurrent-fragments",
            "8",
            "--retries",
            "4",
            "--fragment-retries",
            "4",
            "--socket-timeout",
            "20",
            "-o",
            "C:/Music/New/A-B- C.%(ext)s",
            "--ffmpeg-location",
            "/bin/ffmpeg",
            "--no-playlist",
            "https://youtu.be/x",
        ]
    );
}

#[test]
fn media_info_from_the_extractor() {
    let raw = |id: Option<&str>| RawFormat {
        format_id: id.map(|s| s.to_string()),
        ext: Some("mp4".to_string()),
        resolution: None,
        width: None,
        height: None,
        filesize: None,
        filesize_approx: None,
        vcodec: None,
        acodec: None,
        format_note: None,
    };
    let info = download_core::downloader::MediaInfo::from_raw(download_core::downloader::RawMediaInfo {
        title: None,
        duration: Some(63),
        thumbnail: None,
        formats: vec![raw(Some("a")), raw(None), raw(Some("b")), raw(Some("c")), raw(None)],
        extractor: None,
        extractor_key: Some("Youtube".to_string()),
        uploader: Some("someone".to_string()),
        description: None,
        view_count: Some(5),
        like_count: None,
        upload_date: None,
        webpage_url: None,
        chapters: None,
    });
    assert_eq!(info.title, "Unknown");
    assert_eq!(info.platform, "Youtube");
    assert_eq!(info.duration, Some(63));
    assert_eq!(info.uploader.as_deref(), Some("someone"));
    let ids: Vec<&str> = info.formats.iter().map(|f| f.format_id.as_str()).collect();
    assert_eq!(ids, vec!["a", "b", "c"]);
    let info = download_core::downloader::MediaInfo::from_raw(download_core::downloader::RawMediaInfo {
        title: Some("T".to_string()),
        duration: None,
        thumbnail: None,
        formats: Vec::new(),
        extractor: Some("generic".to_string()),
        extractor_key: Some("Generic".to_string()),
        uploader: None,
        description: None,
        view_count: None,
        like_count: None,
        upload_date: None,
        webpage_url: None,
        chapters: None,
    });
    assert_eq!((info.title.as_str(), info.platform.as_str()), ("T", "generic"));
    assert!(info.formats.is_empty());
}

#[test]
fn lines_of_interest() {
    assert!(download_core::vault_download::is_progress_line("[download]  5% of 1MiB"));
    assert!(!download_core::vault_download::is_progress_line("[download] Destination: a"));
    assert!(!download_core::vault_download::is_progress_line("5% done"));
    assert!(download_core::spotify_downloader::is_source_line("https://www.youtube.com/watch?v=1"));
    assert!(download_core::spotify_downloader::is_source_line("  https://youtu.be/1"));
    assert!(!download_core::spotify_downloader::is_source_line("Processing query"));
}
