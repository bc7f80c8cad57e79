use dloor::deps::{update_command, update_outcome, DependencyReport};
use dloor::diagnostics::VersionFreshness;
use dloor::freshness::{freshness_from_days, parse_version_date, version_freshness};

// Julian day numbers: 2024-01-01 is 2_460_311.
const NEW_YEAR_2024: i32 = 2_460_311;

#[test]
fn a_release_turns_old_after_ninety_days() {
    assert_eq!(version_freshness("2024.01.01", NEW_YEAR_2024 + 90), VersionFreshness::Current);
    assert_eq!(
        version_freshness("2024.01.01", NEW_YEAR_2024 + 91),
        VersionFreshness::OlderThan90Days
    );
    assert_eq!(version_freshness("2024.01.01", NEW_YEAR_2024), VersionFreshness::Current);
    assert_eq!(
        version_freshness(" 2024.01.01.232844\n", NEW_YEAR_2024 + 200),
        VersionFreshness::OlderThan90Days
    );
}

#[test]
fn versions_without_a_calendar_date_are_unknown() {
    assert_eq!(version_freshness("2024.02.30", NEW_YEAR_2024), VersionFreshness::Unknown);
    assert_eq!(version_freshness("2023.02.29", NEW_YEAR_2024), VersionFreshness::Unknown);
    assert_eq!(version_freshness("2024.13.01", NEW_YEAR_2024), VersionFreshness::Unknown);
    assert_eq!(version_freshness("2024.1.1", NEW_YEAR_2024), VersionFreshness::Unknown);
    assert_eq!(version_freshness("nightly", NEW_YEAR_2024), VersionFreshness::Unknown);
    assert_eq!(version_freshness("2024.01.01-dev", NEW_YEAR_2024), VersionFreshness::Unknown);
    assert_eq!(version_freshness("2024.02.29", NEW_YEAR_2024 + 59), VersionFreshness::Current);
}

#[test]
fn version_dates_are_read_from_the_first_three_fields() {
    assert_eq!(parse_version_date("2026.06.09"), Some((2026, 6, 9)));
    assert_eq!(parse_version_date("2026.06.09.120000"), Some((2026, 6, 9)));
    assert_eq!(parse_version_date("2026.06"), None);
    assert_eq!(freshness_from_days(10, 100), VersionFreshness::Current);
    assert_eq!(freshness_from_days(10, 101), VersionFreshness::OlderThan90Days);
}

#[test]
fn an_old_release_gives_the_main_screen_warning() {
    let mut report = DependencyReport::default();
    assert_eq!(report.stale_warning(), None);
    report.record_yt_dlp_version("2001.01.01\n");
    assert_eq!(report.yt_dlp_version.as_deref(), Some("2001.01.01"));
    assert_eq!(report.yt_dlp_freshness, VersionFreshness::OlderThan90Days);
    assert_eq!(
        report.stale_warning().unwrap(),
        "yt-dlp 2001.01.01 is more than 90 days old. Run /update to check for a newer release."
    );
    report.record_yt_dlp_version("unknown build");
    assert_eq!(report.yt_dlp_freshness, VersionFreshness::Unknown);
    assert_eq!(report.stale_warning(), None);
}

#[test]
fn failed_self_update_suggests_the_installer() {
    assert_eq!(update_command("/opt/homebrew/bin/yt-dlp"), Some("brew upgrade yt-dlp"));
    assert_eq!(update_command("/usr/local/Cellar/yt-dlp/2024/bin/yt-dlp"), Some("brew upgrade yt-dlp"));
    assert_eq!(update_command("/home/u/.local/pipx/venvs/yt-dlp/bin/yt-dlp"), Some("pipx upgrade yt-dlp"));
    assert_eq!(update_command("/home/u/.local/bin/yt-dlp"), Some("python3 -m pip install -U yt-dlp"));
    assert!(update_command("/usr/bin/yt-dlp").unwrap().contains("package manager"));
    assert_eq!(update_command("/opt/tools/yt-dlp"), None);
    let failed = update_outcome(false, "ERROR: cannot update", Some("pipx upgrade yt-dlp"));
    assert!(!failed.success);
    assert!(failed.output.starts_with("ERROR: cannot update"));
    assert!(failed.output.ends_with("Update with: pipx upgrade yt-dlp"));
    let done = update_outcome(true, "Updated yt-dlp", Some("pipx upgrade yt-dlp"));
    assert_eq!(done.output, "Updated yt-dlp");
}

#[test]
fn the_old_release_warning_comes_before_capability_warnings() {
    let mut report = DependencyReport::default();
    assert_eq!(report.notice(), None);
    report.warnings.push("ffmpeg lacks the MP3 muxer required for some audio metadata embedding.".to_string());
    assert_eq!(
        report.notice().unwrap(),
        "ffmpeg lacks the MP3 muxer required for some audio metadata embedding."
    );
    report.record_yt_dlp_version("2001.01.01");
    assert!(report.notice().unwrap().starts_with("yt-dlp 2001.01.01 is more than 90 days old"));
}

#[test]
fn release_days_are_julian_day_numbers() {
    // 2000-01-01 is Julian day 2_451_545, 2019-12-31 is 2_458_849.
    assert_eq!(version_freshness("2000.01.01", 2_451_545 + 90), VersionFreshness::Current);
    assert_eq!(
        version_freshness("2000.01.01", 2_451_545 + 91),
        VersionFreshness::OlderThan90Days
    );
    assert_eq!(version_freshness("2019.12.31", 2_458_849 + 90), VersionFreshness::Current);
    assert_eq!(
        version_freshness("2019.12.31", 2_458_849 + 91),
        VersionFreshness::OlderThan90Days
    );
}
