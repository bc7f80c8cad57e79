use dloor::config::{sanitized_ytdlp_error, Browser, ConfigFiles, CookieSource, MediaOptions};
use dloor::deps::{dependency_report, media_capability_warnings, DependencyReport, Tool};
use dloor::diagnostics::{diagnose_ytdlp_error, ErrorCause, VersionFreshness};
use dloor::download::{
    base_ytdlp_args, destination_candidate, format_args, numbered_file_name, parse_output_line, parse_plan_line, DownloadEvent,
    DownloadFailure, DownloadItem, DownloadRequest, DownloadSuccess, DownloadSummary, Format,
    PlaylistSelection, Quality,
};
use dloor::history::{HistoryEntry, HistoryStatus, HistoryStore};
use dloor::job::{compressed_name, is_unfinished, JobRun, YtDlpRun};
use dloor::metadata::{metadata_args, preview_from_raw, RawMetadata, PREVIEW_ITEM_LIMIT};
use dloor::platform::{detect_platform, Platform};
use dloor::progress::{parse_progress_line, ProgressTracker};
use dloor::queue::{status_for_summary, DownloadQueue, QueueStatus};

#[test]
fn cookie_file_path_is_redacted_from_process_errors() {
    let source = CookieSource::File {
        path: "/private/cookies.txt".to_string(),
    };
    let message = sanitized_ytdlp_error("failed reading /private/cookies.txt", &source);

    assert!(!message.contains("/private/cookies.txt"));
    assert!(message.contains("<cookie-file>"));
}

#[test]
fn cookie_arguments_cover_browser_file_and_disabled_sources() {
    assert!(CookieSource::Disabled.yt_dlp_args().is_empty());
    assert_eq!(
        CookieSource::Browser {
            browser: Browser::Firefox
        }
        .yt_dlp_args(),
        vec!["--cookies-from-browser".to_string(), "firefox".to_string()]
    );
    assert_eq!(
        CookieSource::File {
            path: "/private/cookies.txt".to_string()
        }
        .yt_dlp_args(),
        vec!["--cookies".to_string(), "/private/cookies.txt".to_string()]
    );
}

#[test]
fn optional_media_capabilities_are_reported_without_blocking() {
    let options = MediaOptions {
        embed_subtitles: true,
        embed_thumbnail: true,
        embed_chapters: true,
        ..MediaOptions::default()
    };
    let warnings = media_capability_warnings(
        &options,
        " S..... mov_text 3GPP Timed Text subtitle",
        " E mov,mp4,m4a QuickTime / MOV\n E mp3 MP3",
    );
    assert!(warnings.is_empty());

    let warnings = media_capability_warnings(&options, "", "");
    assert_eq!(warnings.len(), 3);
}

#[test]
fn classifies_common_upstream_error_shapes() {
    let cases = [
        (
            "ERROR: [youtube] abc: Sign in to confirm you’re not a bot. Use --cookies-from-browser",
            ErrorCause::AuthenticationRequired,
        ),
        (
            "ERROR: This video is not available in your country",
            ErrorCause::GeoRestricted,
        ),
        (
            "ERROR: [youtube] abc: Video has been removed by the uploader",
            ErrorCause::MediaUnavailable,
        ),
        (
            "ERROR: [youtube] Requested format is not available. Use --list-formats",
            ErrorCause::FormatUnavailable,
        ),
        (
            "ERROR: Unable to download webpage: Temporary failure in name resolution",
            ErrorCause::NetworkUnavailable,
        ),
    ];

    for (stderr, expected) in cases {
        assert_eq!(
            diagnose_ytdlp_error(stderr, None, VersionFreshness::Unknown)
                .unwrap()
                .cause,
            expected,
            "{stderr}"
        );
    }
}

#[test]
fn extractor_failure_only_suggests_update_when_version_is_old() {
    let stderr = "ERROR: [youtube] nsig extraction failed";
    assert_eq!(
        diagnose_ytdlp_error(stderr, Some("2025.01.01"), VersionFreshness::OlderThan90Days)
            .unwrap()
            .cause,
        ErrorCause::OutdatedYtDlp
    );
    assert_eq!(
        diagnose_ytdlp_error(stderr, Some("2026.06.09"), VersionFreshness::Current),
        None
    );
}

#[test]
fn explicit_update_request_does_not_require_parsed_version() {
    assert_eq!(
        diagnose_ytdlp_error(
            "ERROR: Please update to the latest version",
            None,
            VersionFreshness::Unknown
        )
        .unwrap()
        .cause,
        ErrorCause::OutdatedYtDlp
    );
}

#[test]
fn ambiguous_errors_are_not_guessed() {
    for stderr in [
        "ERROR: HTTP Error 403: Forbidden",
        "ERROR: Video unavailable",
        "ERROR: Unsupported URL",
        "ERROR: Something unexpected happened",
    ] {
        assert_eq!(
            diagnose_ytdlp_error(stderr, None, VersionFreshness::Unknown),
            None,
            "{stderr}"
        );
    }
}

#[test]
fn parses_confirmed_output_path() {
    assert_eq!(
        parse_output_line("DLOOR_OUTPUT|/tmp/video name.mp4"),
        Some("/tmp/video name.mp4".to_string())
    );
    assert_eq!(
        parse_output_line("[download] /tmp/unrelated.mp4"),
        None,
        "only the dedicated after_move record may select the output"
    );
}

#[test]
fn browser_cookie_args_are_only_added_when_enabled() {
    let output = "video.%(ext)s";
    let without_auth = base_ytdlp_args(output, &CookieSource::Disabled);
    assert!(!without_auth.contains(&"--cookies-from-browser".to_string()));
    assert!(without_auth
        .iter()
        .any(|arg| arg.starts_with("before_dl:DLOOR_PLAN|")));
    assert!(without_auth
        .iter()
        .any(|arg| arg == "after_move:DLOOR_OUTPUT|%(filepath)s"));

    let with_auth = base_ytdlp_args(
        output,
        &CookieSource::Browser {
            browser: Browser::Firefox,
        },
    );
    assert!(with_auth
        .windows(2)
        .any(|args| args == ["--cookies-from-browser", "firefox"]));
}

#[test]
fn parses_progress_template_output() {
    let progress =
        parse_progress_line("DLOOR_PROGRESS|42.7%|427|1000|NA|NA|18|1.24MiB/s|00:18").unwrap();
    assert_eq!(progress.overall_hundredths, 4270);
    assert_eq!(progress.speed, "1.24MiB/s");
    assert_eq!(progress.eta, "00:18");
}

#[test]
fn ignores_non_progress_lines() {
    assert!(parse_progress_line("[download] Destination: file.mp4").is_none());
}

#[test]
fn combines_video_and_audio_progress_without_resetting() {
    let mut tracker = ProgressTracker::new(2);
    tracker.update("DLOOR_PLAN|NA|NA|137+140|1100|137|1000|140|100");
    let video = tracker
        .update("DLOOR_PROGRESS|100%|1000|1000|NA|NA|137|1MiB/s|00:00")
        .unwrap();
    let audio_start = tracker
        .update("DLOOR_PROGRESS|0%|0|100|NA|NA|140|1MiB/s|00:01")
        .unwrap();
    let audio_half = tracker
        .update("DLOOR_PROGRESS|50%|50|100|NA|NA|140|1MiB/s|00:01")
        .unwrap();

    assert_eq!(video.overall_hundredths, 9090);
    assert_eq!(audio_start.overall_hundredths, video.overall_hundredths);
    assert_eq!(audio_half.overall_hundredths, 9545);
}

#[test]
fn combines_playlist_and_format_progress() {
    let mut tracker = ProgressTracker::new(2);
    tracker.update("DLOOR_PLAN|2|4|137+140|200|137|100|140|100");
    let progress = tracker
        .update("DLOOR_PROGRESS|50%|50|100|2|4|137|1MiB/s|00:01")
        .unwrap();

    assert_eq!(progress.overall_hundredths, 3125);
}

#[test]
fn progress_without_a_plan_splits_the_item_into_streams() {
    let mut tracker = ProgressTracker::new(2);
    let video = tracker
        .update("DLOOR_PROGRESS|50%|NA|NA|NA|NA|137|1MiB/s|00:01")
        .unwrap();
    assert_eq!(video.overall_hundredths, 2500);
    let audio = tracker
        .update("DLOOR_PROGRESS|50%|NA|NA|NA|NA|140|1MiB/s|00:01")
        .unwrap();
    assert_eq!(audio.overall_hundredths, 7500);
    let lower = tracker
        .update("DLOOR_PROGRESS|10%|NA|NA|NA|NA|140|1MiB/s|00:01")
        .unwrap();
    assert_eq!(lower.overall_hundredths, 7500);
}

#[test]
fn plan_records_keep_the_requested_streams() {
    let (index, plan) = parse_plan_line("DLOOR_PLAN|3|9|137+140|1100|137|1000|140|100").unwrap();
    assert_eq!(index, 3);
    assert_eq!(plan.n_entries, Some(9));
    assert_eq!(
        plan.sizes,
        vec![("137".to_string(), 1000), ("140".to_string(), 100)]
    );
    let (index, plan) = parse_plan_line("DLOOR_PLAN|NA|NA|18|500|NA|NA|NA|NA").unwrap();
    assert_eq!(index, 1);
    assert_eq!(plan.sizes, vec![("18".to_string(), 500)]);
    assert!(parse_plan_line("DLOOR_PLAN|1|2").is_none());
}

#[test]
fn resolution_qualities_limit_the_video_height() {
    assert_eq!(
        format_args(Format::Video, Quality::P1080),
        vec![
            "-f".to_string(),
            "bv*[height<=1080][vcodec^=avc1]+ba[acodec^=mp4a]/b[height<=1080][vcodec^=avc1][acodec^=mp4a]/bv*[height<=1080][ext=mp4]+ba[ext=m4a]/b[height<=1080][ext=mp4]/best".to_string(),
            "--merge-output-format".to_string(),
            "mp4".to_string()
        ]
    );
    assert_eq!(format_args(Format::Audio, Quality::Compressed)[4], "mp3");
}

#[test]
fn best_video_prefers_h264_with_aac_then_mp4() {
    assert_eq!(
        format_args(Format::Video, Quality::Best),
        vec![
            "-f".to_string(),
            "bv*[vcodec^=avc1]+ba[acodec^=mp4a]/b[vcodec^=avc1][acodec^=mp4a]/bv*[ext=mp4]+ba[ext=m4a]/b[ext=mp4]".to_string(),
            "--merge-output-format".to_string(),
            "mp4".to_string()
        ]
    );
    assert_eq!(
        format_args(Format::Video, Quality::Compressed)[1],
        "bv*[height<=1080]+ba/b[height<=1080]/best"
    );
}

#[test]
fn detects_supported_platforms() {
    let cases = [
        ("https://www.youtube.com/watch?v=abc", Platform::YouTube),
        ("https://youtube.com/shorts/abc", Platform::YouTubeShorts),
        ("https://www.instagram.com/p/abc/", Platform::Instagram),
        ("https://instagram.com/reel/abc/", Platform::InstagramReels),
        ("https://vt.tiktok.com/ZSNabc/", Platform::TikTok),
        ("https://www.facebook.com/watch/?v=123", Platform::Facebook),
        ("https://fb.watch/abc/", Platform::Facebook),
        ("https://x.com/user/status/123", Platform::X),
        ("https://twitter.com/user/status/123", Platform::X),
    ];

    for (url, expected) in cases {
        assert_eq!(detect_platform(url).unwrap(), expected, "{url}");
    }
}

#[test]
fn unknown_valid_hosts_are_generic() {
    assert_eq!(
        detect_platform("https://example.com/video?id=1").unwrap(),
        Platform::Generic
    );
    assert_eq!(
        detect_platform("http://127.0.0.1:8080/video").unwrap(),
        Platform::Generic
    );
}

#[test]
fn rejects_malformed_or_command_like_inputs() {
    for value in [
        "youtube.com/watch?v=abc",
        "file:///tmp/video",
        "https:///missing-host",
        "https://bad host/video",
        "https://example.com/video;rm",
        "https://user@example.com/video",
        "--exec=command",
        "https://example.com:99999/video",
    ] {
        assert!(detect_platform(value).is_err(), "{value}");
    }
}

fn request(url: &str) -> DownloadRequest {
    DownloadRequest {
        url: url.to_string(),
        format: Format::Video,
        quality: Quality::Best,
        playlist: PlaylistSelection::Single,
    }
}

#[test]
fn queue_runs_one_job_at_a_time() {
    let mut queue = DownloadQueue::new();
    let first = queue.enqueue(
        request("https://youtube.com/watch?v=one"),
        "one".to_string(),
        Platform::YouTube,
    );
    let second = queue.enqueue(
        request("https://youtube.com/watch?v=two"),
        "two".to_string(),
        Platform::YouTube,
    );

    assert_eq!(queue.start_next().unwrap().id, first);
    assert!(queue.start_next().is_none());
    assert!(queue.apply_event(
        first,
        &DownloadEvent::Finished {
            summary: DownloadSummary {
                total: 1,
                succeeded: Vec::new(),
                failed: vec![DownloadFailure {
                    item: DownloadItem {
                        index: 1,
                        total: 1,
                        title: "one".to_string(),
                        playlist_index: None,
                    },
                    error: "failed".to_string(),
                }],
                warnings: Vec::new(),
            },
        }
    ));
    assert_eq!(queue.start_next().unwrap().id, second);
}

#[test]
fn pending_jobs_can_be_reordered_removed_and_cancelled() {
    let mut queue = DownloadQueue::new();
    let first = queue.enqueue(
        request("https://youtube.com/watch?v=one"),
        "one".to_string(),
        Platform::YouTube,
    );
    let second = queue.enqueue(
        request("https://youtube.com/watch?v=two"),
        "two".to_string(),
        Platform::YouTube,
    );

    assert!(queue.move_pending(second, false));
    assert_eq!(queue.entries().iter().next().unwrap().id, second);
    assert_eq!(queue.remove_pending(first).unwrap().id, first);
    assert_eq!(
        queue.cancel_pending(second).unwrap().status,
        QueueStatus::Cancelled
    );
    assert!(!queue.has_unfinished());
}

#[test]
fn terminal_summary_maps_to_partial_status() {
    let summary = DownloadSummary {
        total: 2,
        succeeded: vec![DownloadSuccess {
            item: DownloadItem {
                index: 1,
                total: 2,
                title: "ok".to_string(),
                playlist_index: Some(1),
            },
            path: "/tmp/ok.mp4".to_string(),
        }],
        failed: vec![DownloadFailure {
            item: DownloadItem {
                index: 2,
                total: 2,
                title: "bad".to_string(),
                playlist_index: Some(2),
            },
            error: "failed".to_string(),
        }],
        warnings: Vec::new(),
    };

    assert_eq!(
        status_for_summary(&summary),
        QueueStatus::PartiallySucceeded
    );
}

#[test]
fn queue_ids_count_up_and_events_only_touch_the_running_job() {
    let mut queue = DownloadQueue::new();
    let first = queue.enqueue(request("https://a.example/1"), "a".to_string(), Platform::Generic);
    let second = queue.enqueue(request("https://a.example/2"), "b".to_string(), Platform::Generic);
    assert_eq!(first.0, 1);
    assert_eq!(second.0, 2);
    assert_eq!(queue.pending_count(), 2);
    assert!(!queue.apply_event(
        second,
        &DownloadEvent::Failed {
            error: "x".to_string()
        }
    ));
    assert_eq!(queue.entry(second).unwrap().status, QueueStatus::Pending);
    queue.start_next();
    assert_eq!(queue.active_id(), Some(first));
    assert!(queue.apply_event(
        first,
        &DownloadEvent::Failed {
            error: "x".to_string()
        }
    ));
    assert_eq!(queue.entry(first).unwrap().status, QueueStatus::Failed);
    assert_eq!(queue.active_id(), None);
    assert!(queue.remove_terminal(first).is_some());
    assert_eq!(queue.entries().len(), 1);
}

fn entry(index: usize, status: HistoryStatus) -> HistoryEntry {
    HistoryEntry {
        source_url: format!("https://youtube.com/watch?v={index}"),
        playlist_index: Some(index),
        title: format!("Item {index}"),
        platform: Platform::YouTube,
        format: Format::Video,
        quality: Quality::Best,
        playlist: PlaylistSelection::Item { index },
        destination_path: None,
        status,
        recorded_at: "2026-07-26T00:00:00Z".to_string(),
    }
}

#[test]
fn failed_playlist_item_retries_only_that_item() {
    let history = entry(7, HistoryStatus::Failed);

    assert!(matches!(
        history.retry_request().unwrap().playlist,
        PlaylistSelection::Item { index: 7 }
    ));
    assert!(entry(1, HistoryStatus::Succeeded).retry_request().is_none());
}

#[test]
fn retried_entries_are_queued_under_a_retry_title() {
    let (request, title) = entry(3, HistoryStatus::Cancelled).retry_job().unwrap();
    assert!(matches!(request.playlist, PlaylistSelection::Item { index: 3 }));
    assert_eq!(title, "Retry: Item 3");
    assert!(entry(3, HistoryStatus::Succeeded).retry_job().is_none());
}

#[test]
fn history_keeps_the_newest_entries_up_to_the_limit() {
    let mut store = HistoryStore::from_loaded("history.jsonl".to_string(), 2, Vec::new());
    assert!(!store.record(entry(1, HistoryStatus::Failed)));
    assert!(!store.record(entry(2, HistoryStatus::Failed)));
    assert!(store.record(entry(3, HistoryStatus::Failed)));

    assert_eq!(store.entries().len(), 2);
    assert_eq!(store.entries()[0].playlist_index, Some(2));
    assert_eq!(store.entries()[1].playlist_index, Some(3));

    let loaded = vec![
        entry(1, HistoryStatus::Failed),
        entry(2, HistoryStatus::Failed),
        entry(3, HistoryStatus::Failed),
    ];
    let restored = HistoryStore::from_loaded("history.jsonl".to_string(), 0, loaded);
    assert_eq!(restored.limit(), 1);
    assert_eq!(restored.entries()[0].playlist_index, Some(3));
}

#[test]
fn history_entries_record_the_item() {
    let req = DownloadRequest {
        url: "https://youtube.com/playlist?list=x".to_string(),
        format: Format::Audio,
        quality: Quality::Compressed,
        playlist: PlaylistSelection::All,
    };
    let success = DownloadSuccess {
        item: DownloadItem {
            index: 2,
            total: 3,
            title: "Song".to_string(),
            playlist_index: Some(4),
        },
        path: "/tmp/song.mp3".to_string(),
    };
    let e = HistoryEntry::succeeded(&req, Platform::YouTube, &success);
    assert_eq!(e.playlist, PlaylistSelection::Item { index: 4 });
    assert_eq!(e.destination_path, Some("/tmp/song.mp3".to_string()));
    assert_eq!(e.status, HistoryStatus::Succeeded);
    assert!(!e.recorded_at.is_empty());
    let u = HistoryEntry::unfinished(&req, Platform::YouTube, "Job".to_string(), HistoryStatus::Cancelled);
    assert_eq!(u.playlist, PlaylistSelection::All);
    assert_eq!(u.playlist_index, None);
    assert_eq!(HistoryStatus::Cancelled.label(), "Cancelled");
}

fn raw(title: Option<&str>) -> RawMetadata {
    RawMetadata {
        title: title.map(str::to_string),
        uploader: None,
        channel: None,
        duration_seconds: None,
        heights: Vec::new(),
        entries: None,
        playlist_count: None,
        n_entries: None,
    }
}

#[test]
fn parses_single_item_metadata() {
    let mut metadata = raw(Some("Example"));
    metadata.uploader = Some("Creator".to_string());
    metadata.duration_seconds = Some(125);
    metadata.heights = vec![Some(720), Some(1080), Some(720), None];
    let preview = preview_from_raw(&metadata).unwrap();

    assert_eq!(preview.title, "Example");
    assert_eq!(preview.uploader.as_deref(), Some("Creator"));
    assert_eq!(preview.duration_seconds, Some(125));
    assert_eq!(preview.resolutions, ["1080p", "720p"]);
    assert!(preview.playlist.is_none());
}

#[test]
fn playlist_preview_is_limited_and_reports_total_count() {
    let mut metadata = raw(Some("Playlist"));
    metadata.playlist_count = Some(20);
    metadata.entries = Some(
        ["One", "Two", "Three", "Four", "Five", "Six"]
            .iter()
            .map(|t| Some(t.to_string()))
            .collect(),
    );
    let preview = preview_from_raw(&metadata).unwrap();
    let playlist = preview.playlist.unwrap();

    assert_eq!(playlist.total_items, Some(20));
    assert_eq!(playlist.sample_titles.len(), PREVIEW_ITEM_LIMIT);
    assert!(playlist.truncated);
}

#[test]
fn malformed_or_titleless_metadata_is_rejected() {
    assert!(preview_from_raw(&raw(None)).is_err());
    assert!(preview_from_raw(&raw(Some("   "))).is_err());
}

#[test]
fn metadata_command_limits_playlist_expansion_and_applies_browser_authentication() {
    let args = metadata_args(&CookieSource::Browser {
        browser: Browser::Firefox,
    });

    assert!(args.windows(2).any(|args| args == ["--playlist-end", "5"]));
    assert!(args
        .windows(2)
        .any(|args| args == ["--cookies-from-browser", "firefox"]));
}

#[test]
fn missing_tools_are_reported_with_install_hints() {
    let report = dependency_report(false, true, false, true);
    assert!(!report.is_ready());
    assert_eq!(report.missing_required, vec![Tool::YtDlp, Tool::Rclone]);
    let message = report.message();
    assert!(message.starts_with("Missing required tools:\n- yt-dlp: Install yt-dlp"));
    let report = dependency_report(true, true, false, false);
    assert!(report.is_ready());
    assert_eq!(report.missing_optional, vec![Tool::Rclone]);
    assert!(DependencyReport::default().message().is_empty());
}

#[test]
fn ytdlp_runs_report_progress_and_the_finished_file() {
    let mut run = YtDlpRun::new(Format::Audio);
    run.stdout_line("DLOOR_OUTPUT|/tmp/a.part");
    run.stdout_line("DLOOR_OUTPUT|/tmp/a.m4a");
    assert!(run
        .stderr_line("DLOOR_PROGRESS|50%|NA|NA|NA|NA|140|1MiB/s|00:01")
        .is_some());
    assert!(run.stderr_line("WARNING: something").is_none());
    assert_eq!(run.finish(true, "exit status: 0").unwrap(), "/tmp/a.m4a");
    assert!(matches!(
        run.finish(false, "exit status: 1"),
        Err(dloor::error::Error::ProcessFailed(m)) if m == "WARNING: something"
    ));
    let mut partial = YtDlpRun::new(Format::Video);
    partial.stdout_line("DLOOR_OUTPUT|/tmp/b.mp4.part");
    assert!(matches!(
        partial.finish(true, "exit status: 0"),
        Err(dloor::error::Error::MissingOutputFile)
    ));
    assert!(matches!(
        partial.finish(false, "exit status: 2"),
        Err(dloor::error::Error::ProcessFailed(m)) if m == "yt-dlp exited with exit status: 2"
    ));
    assert!(is_unfinished("/x/y.part"));
    assert!(!is_unfinished("/x/.part"));
    assert_eq!(compressed_name("clip"), "clip.compressed.mp4");
}

#[test]
fn waiting_jobs_are_listed_in_queue_order() {
    let mut queue = DownloadQueue::new();
    let first = queue.enqueue(request("https://youtu.be/a"), "a".to_string(), Platform::YouTube);
    let second = queue.enqueue(request("https://youtu.be/b"), "b".to_string(), Platform::YouTube);
    let third = queue.enqueue(request("https://youtu.be/c"), "c".to_string(), Platform::YouTube);
    assert_eq!(queue.pending_ids(), vec![first, second, third]);
    queue.start_next();
    assert_eq!(queue.pending_ids(), vec![second, third]);
}

#[test]
fn old_config_without_browser_still_loads() {
    let config = dloor::config::Config::from_stored(
        dloor::config::Destination::Local {
            path: "/tmp".to_string(),
        },
        Quality::Best,
        None,
        None,
        None,
        None,
        None,
        None,
        None,
    );
    assert!(matches!(config.cookies, CookieSource::Disabled));
    assert!(config.confirm_generic_urls);
    assert!(config.clipboard_autofill);
    assert!(config.bandwidth_limit.is_none());
    assert_eq!(config.transcode.crf, 28);
}

#[test]
fn old_browser_setting_migrates_to_cookie_source() {
    let config = dloor::config::Config::from_stored(
        dloor::config::Destination::Local {
            path: "/tmp".to_string(),
        },
        Quality::Best,
        None,
        Some(Browser::Firefox),
        None,
        None,
        None,
        None,
        None,
    );
    assert!(matches!(
        config.cookies,
        CookieSource::Browser {
            browser: Browser::Firefox
        }
    ));
    let explicit = dloor::config::Config::from_stored(
        dloor::config::Destination::Local {
            path: "/tmp".to_string(),
        },
        Quality::Best,
        Some(CookieSource::Disabled),
        Some(Browser::Firefox),
        None,
        None,
        None,
        None,
        None,
    );
    assert!(matches!(explicit.cookies, CookieSource::Disabled));
}

#[test]
fn numbered_names_keep_the_extension() {
    assert_eq!(numbered_file_name("clip", Some("mp4"), 1), "clip (1).mp4");
    assert_eq!(numbered_file_name("clip", None, 12), "clip (12)");
}

#[test]
fn entries_are_stamped_with_an_rfc3339_time() {
    let failure = DownloadFailure {
        item: DownloadItem {
            index: 1,
            total: 1,
            title: "clip".to_string(),
            playlist_index: None,
        },
        error: "boom".to_string(),
    };
    let entry = HistoryEntry::failed(&request("https://youtu.be/a"), Platform::YouTube, &failure);
    let stamp: Vec<char> = entry.recorded_at.chars().collect();
    assert!(stamp.len() >= 20);
    assert_eq!((stamp[4], stamp[7], stamp[10], stamp[13], stamp[16]), ('-', '-', 'T', ':', ':'));
    assert_eq!(stamp.last(), Some(&'Z'));
    assert!(dloor::config::default_download_dir().len() > 0);
}

#[test]
fn platform_detection_ignores_padding_and_ascii_case() {
    let cases = [
        ("  HTTPS://WWW.YouTube.COM/Shorts/abc  ", "https://www.youtube.com/shorts/abc"),
        ("\thttp://Instagram.com/REEL/xyz\n", "http://instagram.com/reel/xyz"),
        (" https://VM.TikTok.com/ZM123 ", "https://vm.tiktok.com/zm123"),
        ("FTP://example.com/file", "ftp://example.com/file"),
        ("https://Exa_mple.com/", "https://exa_mple.com/"),
    ];
    for (raw, normalised) in cases {
        assert_eq!(
            detect_platform(raw).ok(),
            detect_platform(normalised).ok(),
            "{raw}"
        );
    }
    assert_eq!(
        detect_platform("  HTTPS://WWW.YouTube.COM/Shorts/abc  ").unwrap(),
        Platform::YouTubeShorts
    );
}

#[test]
fn browser_names_are_lower_case_labels_and_distinct() {
    let mut seen: Vec<&str> = Vec::new();
    for browser in Browser::ALL {
        assert_eq!(browser.yt_dlp_name(), browser.label().to_ascii_lowercase());
        assert!(!seen.contains(&browser.yt_dlp_name()));
        seen.push(browser.yt_dlp_name());
    }
    assert_eq!(Browser::Firefox.yt_dlp_name(), "firefox");
}

#[test]
fn config_files_share_one_directory() {
    let files = ConfigFiles::in_dir("/home/me/.config/dloor");
    assert_eq!(files.config, "/home/me/.config/dloor/config.toml");
    assert_eq!(files.history, "/home/me/.config/dloor/history.jsonl");
    let slash = ConfigFiles::in_dir("/tmp/d/");
    assert_eq!(slash.config, "/tmp/d/config.toml");
    assert_eq!(slash.history, "/tmp/d/history.jsonl");
    assert!(slash.log.starts_with("/tmp/d/"));
}

fn job_item(index: usize, total: usize, title: &str) -> DownloadItem {
    DownloadItem { index, total, title: title.to_string(), playlist_index: Some(index) }
}

#[test]
fn a_job_starts_items_in_order_and_goes_on_after_a_failure() {
    let mut run = JobRun::new(vec![job_item(1, 2, "one"), job_item(2, 2, "two")]);
    match run.next_event(Platform::YouTube) {
        DownloadEvent::ItemStarted { item, platform } => {
            assert_eq!(item.title, "one");
            assert_eq!(platform, Platform::YouTube);
        }
        other => panic!("unexpected {other:?}"),
    }
    match run.item_failed(job_item(1, 2, "one"), "ERROR: boom", &CookieSource::Disabled) {
        DownloadEvent::ItemFailed { failure } => assert_eq!(failure.error, "ERROR: boom"),
        other => panic!("unexpected {other:?}"),
    }
    match run.next_event(Platform::YouTube) {
        DownloadEvent::ItemStarted { item, .. } => assert_eq!(item.title, "two"),
        other => panic!("unexpected {other:?}"),
    }
    run.item_saved(job_item(2, 2, "two"), "/tmp/two.mp4".to_string());
    match run.next_event(Platform::YouTube) {
        DownloadEvent::Finished { summary } => {
            assert_eq!(summary.total, 2);
            assert_eq!(summary.succeeded.len(), 1);
            assert_eq!(summary.failed.len(), 1);
            assert_eq!(summary.succeeded[0].path, "/tmp/two.mp4");
        }
        other => panic!("unexpected {other:?}"),
    }
    match run.cancelled() {
        DownloadEvent::Cancelled { summary } => assert_eq!(summary.succeeded.len(), 1),
        other => panic!("unexpected {other:?}"),
    }
}

#[test]
fn destination_names_are_tried_in_order_up_to_the_limit() {
    assert_eq!(destination_candidate("clip.mp4", "clip", Some("mp4"), 0).as_deref(), Some("clip.mp4"));
    assert_eq!(destination_candidate("clip.mp4", "clip", Some("mp4"), 1).as_deref(), Some("clip (1).mp4"));
    assert_eq!(destination_candidate("clip", "clip", None, 10_000).as_deref(), Some("clip (10000)"));
    assert_eq!(destination_candidate("clip", "clip", None, 10_001), None);
}

#[test]
fn the_cookie_path_never_shows_in_an_error() {
    let path = "/home/me/cookies.txt";
    let source = CookieSource::File { path: path.to_string() };
    let raw = format!("ERROR: bad cookie jar {path}; retry with {path}/home/me/cookies.txt");
    let shown = sanitized_ytdlp_error(&raw, &source);
    assert!(!shown.contains(path));
    assert_eq!(
        shown,
        "ERROR: bad cookie jar <cookie-file>; retry with <cookie-file><cookie-file>"
    );
}
