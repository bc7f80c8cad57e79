use dloor::config::Config;
use dloor::deps::DependencyReport;
use dloor::download::{
    DownloadItem, DownloadProgress, DownloadRequest, Format, PlaylistSelection, Quality,
};
use dloor::platform::Platform;
use dloor::queue::JobId;
use dloor::metadata::MetadataPreview;
use dloor::tui::{
    apply_setup, clipboard_url_candidate, download_panel, handle_main_key, ActiveStatus,
    DownloadTerminal, DownloadViewState, PreviewTerminal, handle_setup_key, metadata_qualities,
    move_selection, truncate_text, Effect, ErrorState, FormatState, Key, KeyPress, MainState,
    Navigation, QualityState, Screen, SetupField, SetupState, Transition,
};

fn format_screen() -> Screen {
    Screen::Format(FormatState {
        url: "https://youtube.com/watch?v=example".to_string(),
        title: "Example".to_string(),
        playlist: PlaylistSelection::Single,
        selected: 0,
        available_resolutions: vec![Quality::P720],
    })
}

fn quality_screen() -> Screen {
    Screen::Quality(QualityState {
        url: "https://youtube.com/watch?v=example".to_string(),
        title: "Example".to_string(),
        playlist: PlaylistSelection::Single,
        format: Format::Video,
        options: vec![Quality::Best, Quality::Compressed, Quality::P720],
        selected: 0,
        scroll_offset: 0,
        note: None,
    })
}

#[test]
fn navigation_stack_restores_format_then_main() {
    let mut navigation = Navigation::new(Screen::Main(MainState::default()));
    navigation.push(format_screen());
    navigation.push(quality_screen());

    assert!(navigation.back());
    assert!(matches!(navigation.current, Screen::Format(_)));
    assert!(navigation.back());
    assert!(matches!(navigation.current, Screen::Main(_)));
}

#[test]
fn empty_navigation_stack_cannot_go_back() {
    let mut navigation = Navigation::new(Screen::Main(MainState::default()));

    assert!(!navigation.back());
    assert!(matches!(navigation.current, Screen::Main(_)));
}

#[test]
fn return_to_main_preserves_or_clears_the_root_input() {
    let mut navigation = Navigation::new(Screen::Main(MainState {
        url_input: "https://example.com".to_string(),
    }));
    navigation.push(format_screen());
    navigation.return_to_main(false);
    assert!(matches!(
        &navigation.current,
        Screen::Main(MainState { url_input }) if url_input == "https://example.com"
    ));

    navigation.push(format_screen());
    navigation.return_to_main(true);
    assert!(matches!(
        &navigation.current,
        Screen::Main(MainState { url_input }) if url_input.is_empty()
    ));
}

#[test]
fn errors_always_return_to_main() {
    let mut navigation = Navigation::new(Screen::Main(MainState::default()));
    navigation.push(format_screen());
    navigation.show_error(ErrorState::new(
        "failed".to_string(),
        &DependencyReport::default(),
    ));

    assert!(matches!(navigation.current, Screen::Error(_)));
    assert!(navigation.back());
    assert!(matches!(navigation.current, Screen::Main(_)));
}

#[test]
fn escape_stays_on_first_run_setup_but_goes_back_from_settings() {
    let mut config = Config::default();
    let mut first_run_setup = SetupState::from_config(&config, false);
    let escape = KeyPress {
        key: Key::Esc,
        ctrl: false,
    };
    assert!(matches!(
        handle_setup_key(&mut first_run_setup, &mut config, true, false, escape).transition,
        Transition::Stay
    ));

    let mut settings = SetupState::from_config(&config, false);
    assert!(matches!(
        handle_setup_key(&mut settings, &mut config, false, false, escape).transition,
        Transition::Back
    ));
}

#[test]
fn configured_quality_maps_to_the_initial_quality_selection() {
    let options = [Quality::Best, Quality::Compressed, Quality::P1080];
    assert_eq!(
        options
            .iter()
            .position(|quality| *quality == Quality::P1080),
        Some(2)
    );
    let preview = MetadataPreview {
        title: "Example".to_string(),
        uploader: None,
        duration_seconds: None,
        resolutions: vec!["1080p".to_string(), "480p".to_string()],
        playlist: None,
    };
    assert_eq!(metadata_qualities(&preview), [Quality::P1080]);
}

#[test]
fn clipboard_candidates_must_be_valid_new_urls() {
    assert_eq!(
        clipboard_url_candidate(" https://youtube.com/watch?v=example \n", "", None),
        Some("https://youtube.com/watch?v=example".to_string())
    );
    assert_eq!(
        clipboard_url_candidate("https://media.example/video/1", "", None),
        Some("https://media.example/video/1".to_string())
    );
    assert_eq!(
        clipboard_url_candidate(
            "https://media.example/video/1",
            "",
            Some("https://media.example/video/1")
        ),
        None
    );
    assert_eq!(
        clipboard_url_candidate(
            "https://youtube.com/watch?v=clipboard",
            "https://youtube.com/watch?v=typed",
            None
        ),
        None
    );
    for invalid in ["", "not a URL", "youtube.com/watch?v=example", "--exec=bad"] {
        assert_eq!(clipboard_url_candidate(invalid, "", None), None, "{invalid}");
    }
}

#[test]
fn main_screen_commands_and_urls() {
    let config = Config::default();
    let mut state = MainState {
        url_input: " /queue ".to_string(),
    };
    let enter = KeyPress {
        key: Key::Enter,
        ctrl: false,
    };
    let outcome = handle_main_key(&mut state, &config, false, enter);
    assert!(matches!(outcome.transition, Transition::Push(Screen::Queue(_))));
    assert!(state.url_input.is_empty());

    let mut state = MainState {
        url_input: "https://example.com/video".to_string(),
    };
    let outcome = handle_main_key(&mut state, &config, false, enter);
    assert!(matches!(
        outcome.transition,
        Transition::Push(Screen::GenericConfirm(_))
    ));

    let mut state = MainState {
        url_input: "https://youtube.com/watch?v=abc".to_string(),
    };
    let outcome = handle_main_key(&mut state, &config, false, enter);
    assert!(matches!(
        outcome.transition,
        Transition::Push(Screen::PreviewLoading(_))
    ));
    assert!(matches!(outcome.effect, Effect::StartPreview(u) if u == "https://youtube.com/watch?v=abc"));

    let mut state = MainState {
        url_input: "not a url".to_string(),
    };
    let outcome = handle_main_key(&mut state, &config, false, enter);
    assert!(matches!(outcome.transition, Transition::ShowError(m) if m == "unsupported URL: not a url"));

    let mut state = MainState::default();
    let q = KeyPress {
        key: Key::Char('q'),
        ctrl: false,
    };
    assert!(matches!(
        handle_main_key(&mut state, &config, false, q).transition,
        Transition::Quit
    ));
}

#[test]
fn setup_fields_follow_the_choices() {
    let config = Config::default();
    let mut setup = SetupState::from_config(&config, true);
    assert_eq!(setup.fields().len(), 12);
    setup.cloud = true;
    setup.cookie_source_index = 2;
    assert_eq!(setup.fields().len(), 14);
    setup.next_field();
    assert_eq!(setup.field, SetupField::Remote);
    setup.prev_field();
    setup.prev_field();
    assert_eq!(setup.field, SetupField::EmbedChapters);
    assert_eq!(setup.scroll_offset, 8);
    setup.field = SetupField::Remote;
    setup.remote = String::new();
    setup.push_char('g');
    setup.push_char('d');
    setup.backspace_field();
    assert_eq!(setup.remote, "g");
}

#[test]
fn selections_wrap_around() {
    let mut selected = 0;
    move_selection(&mut selected, 3, false);
    assert_eq!(selected, 2);
    move_selection(&mut selected, 3, true);
    assert_eq!(selected, 0);
}

#[test]
fn long_text_is_cut_with_an_ellipsis() {
    assert_eq!(truncate_text("abcdef", 3), "abc…");
    assert_eq!(truncate_text("abc", 3), "abc");
}

#[test]
fn error_screen_scrolls_within_the_text() {
    let mut state = ErrorState::new("x".repeat(800), &DependencyReport::default());
    assert_eq!(state.max_scroll(), 5);
    state.scroll_by(100);
    assert_eq!(state.scroll_offset, 5);
    state.scroll_by(-2);
    assert_eq!(state.scroll_offset, 3);
    assert!(state.diagnostic_text().starts_with("Raw error:\n"));
}

#[test]
fn saving_the_settings_form_unchanged_keeps_the_languages() {
    let mut config = Config::default();
    config.media.subtitle_languages = vec!["en".to_string(), "ja".to_string()];
    config.media.write_subtitles = true;
    let state = SetupState::from_config(&config, true);
    assert_eq!(state.subtitle_languages, "en,ja");
    let mut saved = config.clone();
    saved.media.subtitle_languages = Vec::new();
    assert!(apply_setup(&state, &mut saved).is_ok());
    assert_eq!(saved.media.subtitle_languages, vec!["en".to_string(), "ja".to_string()]);
    assert!(saved.media.write_subtitles);

    let mut edited = SetupState::from_config(&config, true);
    edited.subtitle_languages = " en , ,fr ".to_string();
    assert!(apply_setup(&edited, &mut saved).is_ok());
    assert_eq!(saved.media.subtitle_languages, vec!["en".to_string(), "fr".to_string()]);
}

#[test]
fn pasted_text_lands_in_the_focused_input() {
    let mut navigation = Navigation::new(Screen::Main(MainState::default()));
    navigation.paste("  https://youtu.be/abc \n");
    match &navigation.current {
        Screen::Main(state) => assert_eq!(state.url_input, "https://youtu.be/abc"),
        _ => panic!("expected the main screen"),
    }

    let mut setup = SetupState::from_config(&Config::default(), true);
    setup.field = SetupField::BandwidthLimit;
    let mut navigation = Navigation::new(Screen::Setup(setup));
    navigation.paste("4.2\tM");
    match &navigation.current {
        Screen::Setup(state) => assert_eq!(state.bandwidth_limit, "4.2M"),
        _ => panic!("expected the settings form"),
    }
}

#[test]
fn selections_wrap_modulo_the_count() {
    let mut selected = 7;
    move_selection(&mut selected, 3, true);
    assert_eq!(selected, 2);
    let mut selected = 5;
    move_selection(&mut selected, 3, false);
    assert_eq!(selected, 1);
    let mut selected = 0;
    move_selection(&mut selected, 3, false);
    assert_eq!(selected, 2);
}

fn active_status(progress: Option<DownloadProgress>) -> ActiveStatus {
    ActiveStatus {
        job_id: JobId(1),
        request: DownloadRequest {
            url: "https://youtu.be/abc".to_string(),
            format: Format::Video,
            quality: Quality::Best,
            playlist: PlaylistSelection::Single,
        },
        platform: Platform::YouTube,
        item: Some(DownloadItem {
            index: 2,
            total: 5,
            title: "A".repeat(60),
            playlist_index: Some(2),
        }),
        progress,
        status_text: "Downloading".to_string(),
    }
}

#[test]
fn download_panel_without_a_job_shows_placeholders() {
    let panel = download_panel(None, 6);
    assert_eq!(panel.heading, "Detecting... | Finishing...");
    assert_eq!(panel.item_line, "Resolving download items");
    assert_eq!(panel.item_percent, 0);
    assert_eq!(panel.overall_percent, 0);
    assert_eq!(panel.detail, "- Finishing...");
}

#[test]
fn download_panel_shows_item_and_rounded_progress() {
    let waiting = active_status(None);
    let panel = download_panel(Some(&waiting), 3);
    assert_eq!(panel.heading, "YouTube | Downloading");
    assert_eq!(panel.item_line, format!("2/5 | {}…", "A".repeat(56)));
    assert_eq!(panel.detail, "\\ Downloading");

    let running = active_status(Some(DownloadProgress {
        overall_hundredths: 1250,
        item_hundredths: 6749,
        speed: "1.0MiB/s".to_string(),
        eta: "00:10".to_string(),
    }));
    let panel = download_panel(Some(&running), 0);
    assert_eq!(panel.item_percent, 67);
    assert_eq!(panel.overall_percent, 13);
    assert_eq!(
        panel.detail,
        "Item 67.5% | Overall 12.5% | Speed: 1.0MiB/s | ETA: 00:10"
    );
}

#[test]
fn a_failed_download_shows_its_diagnosis_over_the_main_screen() {
    let report = DependencyReport::default();
    let error = "ERROR: [youtube] abc: Sign in to confirm you\u{2019}re not a bot. Use --cookies-from-browser";
    let mut navigation = Navigation::new(Screen::Main(MainState {
        url_input: "https://youtu.be/abc".to_string(),
    }));
    navigation.push(Screen::Download(DownloadViewState { job_id: JobId(3) }));
    let notice = navigation.download_ended(DownloadTerminal::Failed(JobId(3), error.to_string()), &report);
    assert!(notice.is_none());
    let expected = ErrorState::new(error.to_string(), &report);
    match &navigation.current {
        Screen::Error(e) => {
            assert_eq!(e.raw, error);
            assert!(e.diagnosis.is_some());
            assert!(e.diagnosis == expected.diagnosis);
            assert_eq!(e.scroll_offset, 0);
            assert!(e.copy_status.is_none());
        }
        _ => panic!("the error screen is not shown"),
    }
    assert!(navigation.back());
    assert!(matches!(
        &navigation.current,
        Screen::Main(MainState { url_input }) if url_input == "https://youtu.be/abc"
    ));
}

#[test]
fn a_failed_preview_shows_its_diagnosis() {
    let report = DependencyReport::default();
    let mut navigation = Navigation::new(Screen::Main(MainState::default()));
    navigation.push(format_screen());
    navigation.preview_ended(PreviewTerminal::Failed("ERROR: Unsupported URL: x".to_string()), &report);
    let expected = ErrorState::new("ERROR: Unsupported URL: x".to_string(), &report);
    match &navigation.current {
        Screen::Error(e) => {
            assert!(e.diagnosis == expected.diagnosis);
            assert_eq!(e.scroll_offset, 0);
        }
        _ => panic!("the error screen is not shown"),
    }
}
