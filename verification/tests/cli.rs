use dloor::cli::{
    exit_status, progress_enabled, resolve_options, text_progress_bar, validate_urls, Cli,
    CliError, CliFormat, CliQuality, JsonReport, UrlResult, UrlStatus, ValidationError,
    EXIT_SUCCESS, EXIT_USAGE,
};
use dloor::config::{Config, Destination};
use dloor::download::{
    DownloadFailure, DownloadItem, DownloadSuccess, DownloadSummary, DownloadWarning,
    DownloadWarningKind, Format, Quality,
};
use dloor::platform::Platform;

fn parse(arguments: &[&str]) -> Cli {
    Cli::try_parse_from(arguments).unwrap()
}

#[test]
fn parses_multiple_urls_and_defaults() {
    let cli = parse(&[
        "dloor-cli",
        "--output",
        "/tmp/downloads",
        "https://youtube.com/watch?v=one",
        "https://youtube.com/watch?v=two",
    ]);

    assert_eq!(cli.urls.len(), 2);
    assert_eq!(cli.format, CliFormat::Video);
    assert_eq!(cli.quality, None);
    assert!(!cli.playlist);
    assert!(!cli.json);
}

#[test]
fn parses_format_quality_playlist_and_json() {
    let cli = parse(&[
        "dloor-cli",
        "--output",
        "/tmp/downloads",
        "--format",
        "video",
        "--quality",
        "1080p",
        "--playlist",
        "--json",
        "https://youtube.com/playlist?list=one",
    ]);

    assert_eq!(cli.format, CliFormat::Video);
    assert_eq!(cli.quality, Some(CliQuality::P1080));
    assert!(cli.playlist);
    assert!(cli.json);
}

#[test]
fn requires_output_and_at_least_one_url() {
    assert!(Cli::try_parse_from(&["dloor-cli", "https://youtube.com/watch?v=one"]).is_err());
    assert!(Cli::try_parse_from(&["dloor-cli", "--output", "/tmp"]).is_err());
}

#[test]
fn config_and_no_config_conflict() {
    assert!(Cli::try_parse_from(&[
        "dloor-cli",
        "--output",
        "/tmp",
        "--config",
        "custom.toml",
        "--no-config",
        "https://youtube.com/watch?v=one",
    ])
    .is_err());
}

#[test]
fn explicit_audio_resolution_is_rejected() {
    let cli = parse(&[
        "dloor-cli",
        "--output",
        "/tmp",
        "--format",
        "audio",
        "--quality",
        "720p",
        "https://youtube.com/watch?v=one",
    ]);

    assert!(matches!(
        resolve_options(&cli, Config::default()),
        Err(ValidationError::AudioResolution)
    ));
}

#[test]
fn configured_resolution_falls_back_to_best_for_audio() {
    let cli = parse(&[
        "dloor-cli",
        "--output",
        "/tmp",
        "--format",
        "audio",
        "https://youtube.com/watch?v=one",
    ]);
    let config = Config {
        default_quality: Quality::P2160,
        ..Config::default()
    };

    let resolved = resolve_options(&cli, config).unwrap();

    assert_eq!(resolved.quality, Quality::Best);
    assert_eq!(resolved.format, Format::Audio);
}

#[test]
fn explicit_quality_overrides_config_and_output_is_always_local() {
    let cli = parse(&[
        "dloor-cli",
        "--output",
        "/tmp/downloads",
        "--quality",
        "compressed",
        "https://youtube.com/watch?v=one",
    ]);
    let config = Config {
        default_quality: Quality::P720,
        destination: Destination::Cloud {
            remote: "remote".to_string(),
            path: "videos".to_string(),
        },
        ..Config::default()
    };

    let resolved = resolve_options(&cli, config).unwrap();

    assert_eq!(resolved.quality, Quality::Compressed);
    assert_eq!(
        resolved.config.destination,
        Destination::Local {
            path: "/tmp/downloads".to_string()
        }
    );
}

#[test]
fn generic_urls_require_explicit_opt_in() {
    let urls = vec!["https://example.com/video".to_string()];

    assert_eq!(
        validate_urls(&urls, false).err().unwrap(),
        ValidationError::GenericUrlRequiresOptIn { position: 1 }
    );
    assert_eq!(
        validate_urls(&urls, true).unwrap()[0].platform,
        Platform::Generic
    );
}

#[test]
fn invalid_urls_are_rejected_without_echoing_the_value() {
    let raw = "not a URL";
    let error = validate_urls(&vec![raw.to_string()], true).err().unwrap();

    assert_eq!(error, ValidationError::InvalidUrl { position: 1 });
    assert!(!error.to_string().contains(raw));
}

#[test]
fn progress_requires_both_terminals_and_human_output() {
    assert!(progress_enabled(true, true, false));
    assert!(!progress_enabled(false, true, false));
    assert!(!progress_enabled(true, false, false));
    assert!(!progress_enabled(true, true, true));
}

#[test]
fn partial_download_summary_makes_the_report_fail() {
    let success_item = DownloadItem {
        index: 1,
        total: 2,
        title: "first".to_string(),
        playlist_index: Some(1),
    };
    let failed_item = DownloadItem {
        index: 2,
        total: 2,
        title: "second".to_string(),
        playlist_index: Some(2),
    };
    let summary = DownloadSummary {
        total: 2,
        succeeded: vec![DownloadSuccess {
            item: success_item,
            path: "/tmp/first.mp4".to_string(),
        }],
        failed: vec![DownloadFailure {
            item: failed_item,
            error: "upstream failure".to_string(),
        }],
        warnings: Vec::new(),
    };

    let report = JsonReport::from_results(vec![UrlResult::from_summary(
        "url".to_string(),
        summary,
        false,
    )]);

    assert!(!report.success);
    assert_eq!(report.results[0].status, UrlStatus::PartiallySucceeded);
    assert_eq!(report.totals.succeeded, 1);
    assert_eq!(report.totals.failed, 1);
}

#[test]
fn warnings_do_not_change_a_successful_exit_result() {
    let item = DownloadItem {
        index: 1,
        total: 1,
        title: "item".to_string(),
        playlist_index: None,
    };
    let summary = DownloadSummary {
        total: 1,
        succeeded: vec![DownloadSuccess {
            item: item.clone(),
            path: "/tmp/item.mp4".to_string(),
        }],
        failed: Vec::new(),
        warnings: vec![DownloadWarning {
            item,
            kind: DownloadWarningKind::ResolutionFallback,
            message: "used a lower resolution".to_string(),
        }],
    };

    let report = JsonReport::from_results(vec![UrlResult::from_summary(
        "url".to_string(),
        summary,
        false,
    )]);

    assert!(report.success);
    assert_eq!(report.results[0].status, UrlStatus::Succeeded);
    assert_eq!(report.results[0].warnings.len(), 1);
}

#[test]
fn progress_bar_clamps_and_fills_to_the_requested_width() {
    assert_eq!(text_progress_bar(0, 5), "░░░░░");
    assert_eq!(text_progress_bar(4000, 5), "██░░░");
    assert_eq!(text_progress_bar(10000, 5), "█████");
    assert_eq!(text_progress_bar(12000, 5), "█████");
}

#[test]
fn options_take_inline_values_and_urls_after_double_dash() {
    let cli = parse(&[
        "dloor-cli",
        "--output=/tmp/out",
        "--quality=best",
        "--",
        "--not-an-option",
    ]);
    assert_eq!(cli.output, "/tmp/out");
    assert_eq!(cli.quality, Some(CliQuality::Best));
    assert_eq!(cli.urls, vec!["--not-an-option".to_string()]);
}

#[test]
fn parser_reports_each_kind_of_refusal() {
    assert_eq!(
        Cli::try_parse_from(&["dloor-cli", "--help"]).err(),
        Some(CliError::Help)
    );
    assert_eq!(
        Cli::try_parse_from(&["dloor-cli", "-V"]).err(),
        Some(CliError::Version)
    );
    assert_eq!(
        Cli::try_parse_from(&["dloor-cli", "--bogus"]).err(),
        Some(CliError::UnknownArgument("--bogus".to_string()))
    );
    assert_eq!(
        Cli::try_parse_from(&["dloor-cli", "--output"]).err(),
        Some(CliError::MissingValue("output".to_string()))
    );
    assert_eq!(
        Cli::try_parse_from(&["dloor-cli", "--format", "mp4", "--output", "/tmp", "u"]).err(),
        Some(CliError::InvalidValue {
            option: "format".to_string(),
            value: "mp4".to_string()
        })
    );
    assert_eq!(
        Cli::try_parse_from(&["dloor-cli", "--json", "--json"]).err(),
        Some(CliError::RepeatedArgument("json".to_string()))
    );
    assert_eq!(
        Cli::try_parse_from(&["dloor-cli", "--output", "/tmp"]).err(),
        Some(CliError::MissingUrl)
    );
    assert_eq!(
        Cli::try_parse_from(&["dloor-cli", "https://youtube.com/watch?v=one"]).err(),
        Some(CliError::MissingOutput)
    );
}

#[test]
fn validation_messages_name_the_position() {
    assert_eq!(
        ValidationError::InvalidUrl { position: 3 }.to_string(),
        "URL 3 is not a valid HTTP or HTTPS URL"
    );
    assert_eq!(
        ValidationError::GenericUrlRequiresOptIn { position: 2 }.to_string(),
        "URL 2 uses an unverified host; pass --allow-generic to proceed"
    );
}

#[test]
fn cancelled_or_empty_summaries_fail_or_cancel_the_url() {
    let empty = DownloadSummary {
        total: 0,
        succeeded: Vec::new(),
        failed: Vec::new(),
        warnings: Vec::new(),
    };
    let result = UrlResult::from_summary("u".to_string(), empty, false);
    assert_eq!(result.status, UrlStatus::Failed);
    let empty = DownloadSummary {
        total: 0,
        succeeded: Vec::new(),
        failed: Vec::new(),
        warnings: Vec::new(),
    };
    let result = UrlResult::from_summary("u".to_string(), empty, true);
    assert_eq!(result.status, UrlStatus::Cancelled);
    let failed = UrlResult::failed("u".to_string(), "boom".to_string());
    assert_eq!(failed.status, UrlStatus::Failed);
    assert_eq!(failed.error, Some("boom".to_string()));
    let fatal = JsonReport::fatal("no tools".to_string());
    assert!(!fatal.success);
    assert_eq!(fatal.totals.urls, 0);
}

#[test]
fn exit_status_prefers_interruption() {
    assert_eq!(exit_status(true, true), 130);
    assert_eq!(exit_status(false, true), 0);
    assert_eq!(exit_status(false, false), 1);
}

#[test]
fn refused_command_lines_explain_themselves() {
    let error = Cli::try_parse_from(&["dloor-cli", "--output", "/tmp", "--bogus", "https://youtu.be/x"]).unwrap_err();
    assert_eq!(error.exit_code(), EXIT_USAGE);
    assert_eq!(error.message("1.0.0"), "error: unexpected argument '--bogus' found");
    let help = Cli::try_parse_from(&["dloor-cli", "--help"]).unwrap_err();
    assert_eq!(help, CliError::Help);
    assert_eq!(help.exit_code(), EXIT_SUCCESS);
    assert!(help.message("1.0.0").starts_with("Non-interactive multimedia downloads"));
    assert_eq!(CliError::Version.message("1.0.0"), "dloor-cli 1.0.0");
}
