use dloor::args::{download_args, media_args, playlist_args};
use dloor::config::{BandwidthLimit, Config, CookieSource, MediaOptions};
use dloor::download::{DownloadRequest, Format, PlaylistSelection, Quality};

fn media() -> MediaOptions {
    MediaOptions {
        write_subtitles: false,
        embed_subtitles: true,
        subtitle_languages: vec!["en".to_string(), "ja".to_string()],
        include_auto_subtitles: true,
        embed_thumbnail: true,
        embed_chapters: true,
    }
}

#[test]
fn playlist_selection_chooses_the_items() {
    assert_eq!(playlist_args(PlaylistSelection::Single), vec!["--no-playlist"]);
    assert_eq!(playlist_args(PlaylistSelection::All), vec!["--yes-playlist"]);
    assert_eq!(
        playlist_args(PlaylistSelection::Item { index: 12 }),
        vec!["--yes-playlist", "--playlist-items", "12"]
    );
}

#[test]
fn video_embeds_subtitles_and_audio_keeps_them_as_files() {
    assert_eq!(
        media_args(&media(), Format::Video, Quality::Best),
        vec![
            "--embed-subs",
            "--write-auto-subs",
            "--sub-langs",
            "en,ja",
            "--embed-thumbnail",
            "--embed-chapters"
        ]
    );
    assert_eq!(
        media_args(&media(), Format::Audio, Quality::Compressed),
        vec!["--write-subs", "--write-auto-subs", "--sub-langs", "en,ja", "--embed-thumbnail"]
    );
    assert_eq!(
        media_args(&media(), Format::Video, Quality::Compressed),
        vec!["--embed-subs", "--write-auto-subs", "--sub-langs", "en,ja", "--embed-chapters"]
    );
}

#[test]
fn default_media_options_add_nothing() {
    assert!(media_args(&MediaOptions::default(), Format::Video, Quality::Best).is_empty());
    let only_auto = MediaOptions {
        include_auto_subtitles: true,
        ..MediaOptions::default()
    };
    assert!(media_args(&only_auto, Format::Video, Quality::Best).is_empty());
}

#[test]
fn download_command_line_ends_with_the_url() {
    let request = DownloadRequest {
        url: "https://youtu.be/abc".to_string(),
        format: Format::Audio,
        quality: Quality::Best,
        playlist: PlaylistSelection::Single,
    };
    let config = Config {
        bandwidth_limit: Some(BandwidthLimit::parse("4.2M").unwrap()),
        ..Config::default()
    };
    let args = download_args("/tmp/%(title)s.%(ext)s", &CookieSource::Disabled, &request, &config);
    assert_eq!(args.last().unwrap(), "https://youtu.be/abc");
    assert_eq!(args[args.len() - 2], "after_move:DLOOR_HEIGHT|%(height)s");
    let at = args.iter().position(|a| a == "--limit-rate").unwrap();
    assert_eq!(args[at + 1], "4.2M");
    assert!(args.contains(&"--no-playlist".to_string()));
    assert!(args.contains(&"m4a".to_string()));
    assert!(!args.contains(&"--cookies".to_string()));
}

#[test]
fn expanded_playlists_number_their_items() {
    let items = dloor::args::playlist_items(&vec![Some("First".to_string()), None, Some("  ".to_string())]);
    assert_eq!(items.len(), 3);
    assert_eq!(items[0].title, "First");
    assert_eq!(items[1].title, "Item 2");
    assert_eq!(items[2].title, "Item 3");
    assert_eq!(items[2].index, 3);
    assert_eq!(items[2].total, 3);
    assert_eq!(items[2].playlist_index, Some(3));
}
