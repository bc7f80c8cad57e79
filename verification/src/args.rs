//! The complete yt-dlp command line of a download: stream selection, which
//! playlist items, the bandwidth limit, and the optional media steps.

use vstd::prelude::*;

use crate::config::{BandwidthLimit, Config, CookieSource, MediaOptions};
use crate::download::{
    base_args_spec, base_ytdlp_args, format_args, format_args_spec, DownloadItem,
    DownloadRequest, Format, PlaylistSelection, Quality,
};
use crate::text::{all_ws, copy_string, decimal, is_blank_str, owned, push_decimal, views};
use crate::tui::{join_commas, join_with_commas};

verus! {

broadcast use vstd::string::group_string_axioms;

/// Which entries of a URL are fetched: only the linked media, the whole
/// playlist, or one item of it.
pub open spec fn playlist_args_spec(selection: PlaylistSelection) -> Seq<Seq<char>> {
    match selection {
        PlaylistSelection::Single => seq!["--no-playlist"@],
        PlaylistSelection::All => seq!["--yes-playlist"@],
        PlaylistSelection::Item { index } => seq![
            "--yes-playlist"@,
            "--playlist-items"@,
            decimal(index as nat),
        ],
    }
}

pub fn playlist_args(selection: PlaylistSelection) -> (r: Vec<String>)
    ensures
        views(r@) == playlist_args_spec(selection),
{
    let mut r: Vec<String> = Vec::new();
    match selection {
        PlaylistSelection::Single => {
            r.push(owned("--no-playlist"));
        },
        PlaylistSelection::All => {
            r.push(owned("--yes-playlist"));
        },
        PlaylistSelection::Item { index } => {
            r.push(owned("--yes-playlist"));
            r.push(owned("--playlist-items"));
            let mut n = String::new();
            push_decimal(&mut n, index as u64);
            r.push(n);
        },
    }
    assert(views(r@) =~= playlist_args_spec(selection));
    r
}

/// `--limit-rate` with the configured rate, where there is one.
pub open spec fn limit_args_spec(limit: Option<BandwidthLimit>) -> Seq<Seq<char>> {
    match limit {
        Some(l) => seq!["--limit-rate"@, l@],
        None => Seq::empty(),
    }
}

pub fn limit_args(limit: &Option<BandwidthLimit>) -> (r: Vec<String>)
    ensures
        views(r@) == limit_args_spec(*limit),
{
    let mut r: Vec<String> = Vec::new();
    match limit {
        Some(l) => {
            r.push(owned("--limit-rate"));
            r.push(owned(l.as_str()));
        },
        None => {},
    }
    assert(views(r@) =~= limit_args_spec(*limit));
    r
}

pub open spec fn when(condition: bool, args: Seq<Seq<char>>) -> Seq<Seq<char>> {
    if condition {
        args
    } else {
        Seq::empty()
    }
}

/// The optional media steps. Subtitle files are kept where asked for, and
/// for audio, which cannot carry them, where embedding was asked for;
/// embedding applies to video only; automatic subtitles and a language
/// choice go with any subtitle request. A thumbnail is not embedded before
/// the compressed-video re-encode, nor chapters into compressed MP3 audio.
pub open spec fn media_args_spec(m: MediaOptions, format: Format, quality: Quality) -> Seq<
    Seq<char>,
> {
    let video = format == Format::Video;
    let subtitles = m.write_subtitles || m.embed_subtitles;
    when(m.write_subtitles || (m.embed_subtitles && !video), seq!["--write-subs"@]) + when(
        m.embed_subtitles && video,
        seq!["--embed-subs"@],
    ) + when(subtitles && m.include_auto_subtitles, seq!["--write-auto-subs"@]) + when(
        subtitles && m.subtitle_languages@.len() > 0,
        seq!["--sub-langs"@, join_commas(views(m.subtitle_languages@))],
    ) + when(
        m.embed_thumbnail && !(video && quality == Quality::Compressed),
        seq!["--embed-thumbnail"@],
    ) + when(
        m.embed_chapters && !(format == Format::Audio && quality == Quality::Compressed),
        seq!["--embed-chapters"@],
    )
}

pub fn media_args(m: &MediaOptions, format: Format, quality: Quality) -> (r: Vec<String>)
    ensures
        views(r@) == media_args_spec(*m, format, quality),
{
    let video = format == Format::Video;
    let subtitles = m.write_subtitles || m.embed_subtitles;
    let mut r: Vec<String> = Vec::new();
    let ghost s0 = views(r@);
    if m.write_subtitles || (m.embed_subtitles && !video) {
        r.push(owned("--write-subs"));
    }
    let ghost s1 = views(r@);
    assert(s1 =~= s0 + when(m.write_subtitles || (m.embed_subtitles && !video), seq!["--write-subs"@]));
    if m.embed_subtitles && video {
        r.push(owned("--embed-subs"));
    }
    let ghost s2 = views(r@);
    assert(s2 =~= s1 + when(m.embed_subtitles && video, seq!["--embed-subs"@]));
    if subtitles && m.include_auto_subtitles {
        r.push(owned("--write-auto-subs"));
    }
    let ghost s3 = views(r@);
    assert(s3 =~= s2 + when(subtitles && m.include_auto_subtitles, seq!["--write-auto-subs"@]));
    if subtitles && m.subtitle_languages.len() > 0 {
        r.push(owned("--sub-langs"));
        r.push(join_with_commas(&m.subtitle_languages));
    }
    let ghost s4 = views(r@);
    assert(s4 =~= s3 + when(
        subtitles && m.subtitle_languages@.len() > 0,
        seq!["--sub-langs"@, join_commas(views(m.subtitle_languages@))],
    ));
    if m.embed_thumbnail && !(video && quality == Quality::Compressed) {
        r.push(owned("--embed-thumbnail"));
    }
    let ghost s5 = views(r@);
    assert(s5 =~= s4 + when(
        m.embed_thumbnail && !(video && quality == Quality::Compressed),
        seq!["--embed-thumbnail"@],
    ));
    if m.embed_chapters && !(format == Format::Audio && quality == Quality::Compressed) {
        r.push(owned("--embed-chapters"));
    }
    assert(views(r@) =~= s5 + when(
        m.embed_chapters && !(format == Format::Audio && quality == Quality::Compressed),
        seq!["--embed-chapters"@],
    ));
    assert(s0 =~= Seq::<Seq<char>>::empty());
    assert(views(r@) =~= media_args_spec(*m, format, quality));
    r
}

/// The whole command line of a download: after the choices, a record of
/// the downloaded height (`DLOOR_HEIGHT|<height>`), and the URL last.
pub open spec fn download_args_spec(
    output_template: Seq<char>,
    cookies: CookieSource,
    request: DownloadRequest,
    config: Config,
) -> Seq<Seq<char>> {
    base_args_spec(output_template, cookies) + format_args_spec(request.format, request.quality)
        + playlist_args_spec(request.playlist) + limit_args_spec(config.bandwidth_limit)
        + media_args_spec(config.media, request.format, request.quality) + seq![
        "--print"@,
        "after_move:DLOOR_HEIGHT|%(height)s"@,
        request.url@,
    ]
}

/// The yt-dlp arguments of a download. `cookies` is passed apart from the
/// configuration so that a retry can run with cookies disabled.
pub fn download_args(
    output_template: &str,
    cookies: &CookieSource,
    request: &DownloadRequest,
    config: &Config,
) -> (r: Vec<String>)
    ensures
        views(r@) == download_args_spec(output_template@, *cookies, *request, *config),
{
    let mut r = base_ytdlp_args(output_template, cookies);
    let ghost a = views(r@);
    let mut f = format_args(request.format, request.quality);
    r.append(&mut f);
    let ghost b = views(r@);
    assert(b =~= a + format_args_spec(request.format, request.quality));
    let mut p = playlist_args(request.playlist);
    r.append(&mut p);
    let ghost c = views(r@);
    assert(c =~= b + playlist_args_spec(request.playlist));
    let mut l = limit_args(&config.bandwidth_limit);
    r.append(&mut l);
    let ghost d = views(r@);
    assert(d =~= c + limit_args_spec(config.bandwidth_limit));
    let mut m = media_args(&config.media, request.format, request.quality);
    r.append(&mut m);
    let ghost e = views(r@);
    assert(e =~= d + media_args_spec(config.media, request.format, request.quality));
    r.push(owned("--print"));
    r.push(owned("after_move:DLOOR_HEIGHT|%(height)s"));
    r.push(owned(request.url.as_str()));
    assert(views(r@) =~= download_args_spec(output_template@, *cookies, *request, *config));
    r
}

/// The title shown for a playlist entry: its own where it has one that
/// is not blank, else its position.
pub open spec fn item_title(entry: Option<String>, index: nat) -> Seq<char> {
    match entry {
        Some(t) => if all_ws(t@) {
            "Item "@ + decimal(index)
        } else {
            t@
        },
        None => "Item "@ + decimal(index),
    }
}

/// The item at position `k` (from 0) of an expanded playlist of `total`
/// entries.
pub open spec fn playlist_item_ok(item: DownloadItem, entry: Option<String>, k: int, total: nat) -> bool {
    &&& item.index == k + 1
    &&& item.total == total
    &&& item.playlist_index == Some((k + 1) as usize)
    &&& item.title@ == item_title(entry, (k + 1) as nat)
}

/// The items of an expanded playlist, one per entry, counted from 1.
pub fn playlist_items(entries: &Vec<Option<String>>) -> (r: Vec<DownloadItem>)
    requires
        entries.len() < usize::MAX,
    ensures
        r.len() == entries.len(),
        forall|i: int|
            0 <= i < r.len() ==> #[trigger] playlist_item_ok(r[i], entries[i], i, entries.len() as nat),
{
    let total = entries.len();
    let mut r: Vec<DownloadItem> = Vec::new();
    let mut i: usize = 0;
    while i < total
        invariant
            total == entries.len(),
            total < usize::MAX,
            i <= total,
            r.len() == i,
            forall|k: int|
                0 <= k < i ==> #[trigger] playlist_item_ok(r[k], entries[k], k, total as nat),
        decreases total - i,
    {
        let title = match &entries[i] {
            Some(t) => if is_blank_str(t.as_str()) {
                let mut n = owned("Item ");
                push_decimal(&mut n, (i + 1) as u64);
                n
            } else {
                copy_string(t)
            },
            None => {
                let mut n = owned("Item ");
                push_decimal(&mut n, (i + 1) as u64);
                n
            },
        };
        assert(title@ == item_title(entries@[i as int], (i + 1) as nat));
        let ghost before = r@;
        r.push(DownloadItem { index: i + 1, total, title, playlist_index: Some(i + 1) });
        assert forall|k: int| 0 <= k < i + 1 implies #[trigger] playlist_item_ok(
            r[k],
            entries[k],
            k,
            total as nat,
        ) by {
            if k < i {
                assert(r[k] == before[k]);
            }
        }
        i = i + 1;
    }
    r
}

} // verus!
