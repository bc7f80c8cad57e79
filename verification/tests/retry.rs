use dloor::cli::warning_kind_name;
use dloor::config::{Browser, CookieSource};
use dloor::download::{
    cookie_fallback_warning, parse_height_line, resolution_warning, should_retry_without_cookies,
    DownloadItem, DownloadWarningKind, Format, Quality,
};
use dloor::job::YtDlpRun;
use dloor::platform::Platform;

#[test]
fn youtube_403_with_cookies_is_retried_once_without_them() {
    let cookies = CookieSource::Browser {
        browser: Browser::Chrome,
    };
    let stderr = "ERROR: unable to download video data: HTTP Error 403: Forbidden";
    assert!(should_retry_without_cookies(Platform::YouTube, &cookies, stderr, false));
    assert!(should_retry_without_cookies(Platform::YouTubeShorts, &cookies, stderr, false));
    assert!(!should_retry_without_cookies(Platform::YouTube, &cookies, stderr, true));
}

#[test]
fn other_failures_are_not_retried_without_cookies() {
    let file = CookieSource::File {
        path: "/c.txt".to_string(),
    };
    let stderr = "ERROR: HTTP Error 403: Forbidden";
    assert!(should_retry_without_cookies(Platform::YouTube, &file, stderr, false));
    assert!(!should_retry_without_cookies(Platform::YouTube, &CookieSource::Disabled, stderr, false));
    assert!(!should_retry_without_cookies(Platform::Instagram, &file, stderr, false));
    assert!(!should_retry_without_cookies(
        Platform::YouTube,
        &file,
        "ERROR: HTTP Error 404: Not Found",
        false
    ));
}

#[test]
fn a_successful_retry_is_reported_as_a_warning() {
    let item = DownloadItem {
        index: 1,
        total: 1,
        title: "clip".to_string(),
        playlist_index: None,
    };
    let warning = cookie_fallback_warning(item);
    assert_eq!(warning.kind, DownloadWarningKind::CookieFallback);
    assert_eq!(warning_kind_name(warning.kind), "cookie_fallback");
    assert!(warning.message.contains("HTTP 403"));
}

#[test]
fn a_lower_confirmed_height_is_reported_as_a_warning() {
    let item = DownloadItem {
        index: 1,
        total: 1,
        title: "clip".to_string(),
        playlist_index: None,
    };
    let warning = resolution_warning(item.clone(), Format::Video, Quality::P1080, Some(720)).unwrap();
    assert_eq!(warning.kind, DownloadWarningKind::ResolutionFallback);
    assert_eq!(warning.message, "Downloaded at 720p; 1080p was not available.");
    assert!(resolution_warning(item.clone(), Format::Video, Quality::P1080, Some(1080)).is_none());
    assert!(resolution_warning(item.clone(), Format::Video, Quality::Best, Some(720)).is_none());
    assert!(resolution_warning(item.clone(), Format::Audio, Quality::P720, Some(1080)).is_none());
    assert!(resolution_warning(item, Format::Video, Quality::P720, None).is_none());
    assert_eq!(parse_height_line("DLOOR_HEIGHT|1440"), Some(1440));
    assert_eq!(parse_height_line("DLOOR_HEIGHT|NA"), None);
    assert_eq!(parse_height_line("DLOOR_OUTPUT|/x.mp4"), None);
}

#[test]
fn a_run_keeps_the_confirmed_height() {
    let mut run = YtDlpRun::new(Format::Video);
    assert_eq!(run.confirmed_height(), None);
    run.stdout_line("DLOOR_HEIGHT|720");
    run.stdout_line("DLOOR_OUTPUT|/tmp/clip.mp4");
    assert_eq!(run.confirmed_height(), Some(720));
    assert_eq!(run.finish(true, "exit status: 0").unwrap(), "/tmp/clip.mp4");
}
