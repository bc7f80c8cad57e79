use dloor::config::CookieSource;
use dloor::download::{
    DownloadEvent, DownloadItem, DownloadSuccess, DownloadSummary, DownloadWarning,
    DownloadWarningKind,
};

fn item(index: usize) -> DownloadItem {
    DownloadItem {
        index,
        total: 3,
        title: format!("Item {index}"),
        playlist_index: Some(index),
    }
}

#[test]
fn a_failed_item_does_not_stop_the_summary() {
    let mut summary = DownloadSummary::started(3);
    let first = summary.record_success(DownloadSuccess {
        item: item(1),
        path: "/d/one.mp4".to_string(),
    });
    assert!(matches!(first, DownloadEvent::ItemCompleted { result } if result.path == "/d/one.mp4"));
    let cookies = CookieSource::File {
        path: "/secret/cookies.txt".to_string(),
    };
    let second = summary.record_failure(item(2), "cannot read /secret/cookies.txt", &cookies);
    match second {
        DownloadEvent::ItemFailed { failure } => {
            assert_eq!(failure.item.index, 2);
            assert!(!failure.error.contains("/secret/cookies.txt"));
        }
        _ => panic!("expected an item failure"),
    }
    summary.record_success(DownloadSuccess {
        item: item(3),
        path: "/d/three.mp4".to_string(),
    });
    let warned = summary.record_warning(DownloadWarning {
        item: item(3),
        kind: DownloadWarningKind::ResolutionFallback,
        message: "720p instead of 1080p".to_string(),
    });
    assert!(matches!(warned, DownloadEvent::ItemWarning { .. }));
    assert_eq!(summary.total, 3);
    assert_eq!(summary.succeeded.len(), 2);
    assert_eq!(summary.failed.len(), 1);
    assert_eq!(summary.warnings.len(), 1);
    assert_eq!(summary.succeeded[1].item.index, 3);
}
