//! The metadata preview shown before a download: title, uploader, length,
//! available resolutions and, for a playlist, a few of its titles.

use vstd::prelude::*;

use crate::config::{sanitized_error, sanitized_ytdlp_error, CookieSource};
use crate::error::Error;
use crate::text::{all_ws, copy_string, decimal, is_blank_str, owned, push_decimal, push_str, views};

verus! {

broadcast use vstd::string::group_string_axioms;

/// How many playlist titles a preview shows, and how far yt-dlp expands a
/// playlist for it.
pub const PREVIEW_ITEM_LIMIT: usize = 5;

#[derive(Debug, Clone)]
pub struct MetadataRequest {
    pub url: String,
    pub cookies: CookieSource,
}

#[derive(Debug, Clone)]
pub struct MetadataPreview {
    pub title: String,
    pub uploader: Option<String>,
    pub duration_seconds: Option<u64>,
    pub resolutions: Vec<String>,
    pub playlist: Option<PlaylistPreview>,
}

#[derive(Debug, Clone)]
pub struct PlaylistPreview {
    pub total_items: Option<usize>,
    pub sample_titles: Vec<String>,
    pub truncated: bool,
}

/// What the preview reads of yt-dlp's JSON dump. `heights` holds the height
/// of each listed format, `entries` the title of each playlist entry (none
/// where the entry or its title is missing), and `duration_seconds` the
/// duration rounded to whole seconds where it was finite and not negative.
#[derive(Debug, Clone)]
pub struct RawMetadata {
    pub title: Option<String>,
    pub uploader: Option<String>,
    pub channel: Option<String>,
    pub duration_seconds: Option<u64>,
    pub heights: Vec<Option<u64>>,
    pub entries: Option<Vec<Option<String>>>,
    pub playlist_count: Option<usize>,
    pub n_entries: Option<usize>,
}

pub open spec fn opt_view(o: Option<String>) -> Option<Seq<char>> {
    match o {
        Some(s) => Some(s@),
        None => None,
    }
}

/// A title that is present and not blank.
pub open spec fn usable(t: Option<String>) -> bool {
    t is Some && !all_ws(t->0@)
}

/// Strictly decreasing.
pub open spec fn descending(s: Seq<u64>) -> bool {
    forall|i: int, j: int| 0 <= i < j < s.len() ==> s[i] > s[j]
}

/// The heights that some format lists.
pub open spec fn listed(heights: Seq<Option<u64>>, h: u64) -> bool {
    exists|k: int| 0 <= k < heights.len() && heights[k] == Some(h)
}

/// The resolution labels, `"{height}p"`.
pub open spec fn resolution_labels(s: Seq<u64>) -> Seq<Seq<char>> {
    s.map_values(|h: u64| decimal(h as nat) + "p"@)
}

/// The usable titles of the entries, in order.
pub open spec fn usable_titles(e: Seq<Option<String>>) -> Seq<Seq<char>>
    decreases e.len(),
{
    if e.len() == 0 {
        Seq::empty()
    } else if usable(e.last()) {
        usable_titles(e.drop_last()).push(e.last()->0@)
    } else {
        usable_titles(e.drop_last())
    }
}

/// At most the first `n` elements.
pub open spec fn first_n<T>(s: Seq<T>, n: nat) -> Seq<T> {
    if s.len() <= n {
        s
    } else {
        s.take(n as int)
    }
}

/// The total that yt-dlp reported for a playlist.
pub open spec fn reported_total(raw: RawMetadata) -> Option<usize> {
    match raw.playlist_count {
        Some(c) => Some(c),
        None => raw.n_entries,
    }
}

/// Whether a playlist preview leaves items out.
pub open spec fn truncation(total: Option<usize>, shown: nat, available: nat) -> bool {
    match total {
        Some(t) => t > shown,
        None => available >= PREVIEW_ITEM_LIMIT,
    }
}

/// The playlist part of a preview, as a spec value.
pub open spec fn playlist_matches(p: Option<PlaylistPreview>, raw: RawMetadata) -> bool {
    match raw.entries {
        None => p is None,
        Some(e) => p matches Some(pl) && {
            let shown = first_n(usable_titles(e@), PREVIEW_ITEM_LIMIT as nat);
            &&& views(pl.sample_titles@) == shown
            &&& pl.total_items == reported_total(raw)
            &&& pl.truncated == truncation(reported_total(raw), shown.len(), e@.len())
        },
    }
}

/// The preview that the metadata gives, when it has a usable title.
pub open spec fn preview_matches(p: MetadataPreview, raw: RawMetadata) -> bool {
    &&& opt_view(raw.title) == Some(p.title@)
    &&& opt_view(p.uploader) == (if raw.uploader is Some {
        opt_view(raw.uploader)
    } else {
        opt_view(raw.channel)
    })
    &&& p.duration_seconds == raw.duration_seconds
    &&& exists|hs: Seq<u64>|
        {
            &&& descending(hs)
            &&& forall|h: u64| #[trigger] hs.contains(h) <==> listed(raw.heights@, h)
            &&& views(p.resolutions@) == resolution_labels(hs)
        }
    &&& playlist_matches(p.playlist, raw)
}

/// Adds `h` to a strictly decreasing list unless it is there already.
fn insert_descending(v: &mut Vec<u64>, h: u64)
    requires
        descending(old(v)@),
    ensures
        descending(final(v)@),
        forall|x: u64| #[trigger] final(v)@.contains(x) <==> (old(v)@.contains(x) || x == h),
{
    let mut i: usize = 0;
    while i < v.len() && v[i] > h
        invariant
            i <= v.len(),
            forall|k: int| 0 <= k < i ==> v@[k] > h,
        decreases v.len() - i,
    {
        i = i + 1;
    }
    if i < v.len() && v[i] == h {
        return;
    }
    let ghost before = v@;
    v.insert(i, h);
    proof {
        assert(v@ =~= before.subrange(0, i as int).push(h) + before.subrange(i as int, before.len() as int));
        assert forall|a: int, b: int| 0 <= a < b < v@.len() implies v@[a] > v@[b] by {
            if a < i && b == i {
            } else if a < i && b > i {
                assert(v@[b] == before[b - 1]);
            } else if a == i {
                assert(v@[b] == before[b - 1]);
                assert(before[i as int] <= h);
                if b - 1 > i {
                    assert(before[i as int] > before[b - 1]);
                }
            } else if a > i {
                assert(v@[a] == before[a - 1]);
                assert(v@[b] == before[b - 1]);
            } else {
                assert(v@[a] == before[a]);
                assert(v@[b] == before[b]);
            }
        }
        assert forall|x: u64| #[trigger] v@.contains(x) <==> (before.contains(x) || x == h) by {
            if v@.contains(x) {
                let k = choose|k: int| 0 <= k < v@.len() && v@[k] == x;
                if k < i {
                    assert(before[k] == x);
                } else if k > i {
                    assert(before[k - 1] == x);
                }
            }
            if before.contains(x) {
                let k = choose|k: int| 0 <= k < before.len() && before[k] == x;
                if k < i {
                    assert(v@[k] == x);
                } else {
                    assert(v@[k + 1] == x);
                }
            }
            if x == h {
                assert(v@[i as int] == h);
            }
        }
    }
}

/// The distinct heights, highest first.
fn distinct_heights(heights: &Vec<Option<u64>>) -> (r: Vec<u64>)
    ensures
        descending(r@),
        forall|h: u64| #[trigger] r@.contains(h) <==> listed(heights@, h),
{
    let mut r: Vec<u64> = Vec::new();
    let mut i: usize = 0;
    while i < heights.len()
        invariant
            i <= heights.len(),
            descending(r@),
            forall|h: u64| #[trigger] r@.contains(h) <==> listed(heights@.subrange(0, i as int), h),
        decreases heights.len() - i,
    {
        let ghost before = r@;
        match heights[i] {
            Some(h) => insert_descending(&mut r, h),
            None => {},
        }
        proof {
            let sub = heights@.subrange(0, i + 1);
            assert forall|h: u64| #[trigger] r@.contains(h) <==> listed(sub, h) by {
                if listed(sub, h) {
                    let k = choose|k: int| 0 <= k < sub.len() && sub[k] == Some(h);
                    if k < i {
                        assert(heights@.subrange(0, i as int)[k] == Some(h));
                        assert(before.contains(h));
                    }
                }
                if listed(heights@.subrange(0, i as int), h) {
                    let k = choose|k: int|
                        0 <= k < i && heights@.subrange(0, i as int)[k] == Some(h);
                    assert(sub[k] == Some(h));
                }
                if heights@[i as int] == Some(h) {
                    assert(sub[i as int] == Some(h));
                }
            }
        }
        i = i + 1;
    }
    assert(heights@.subrange(0, heights.len() as int) =~= heights@);
    r
}

/// The labels `"{height}p"` of the heights, in order.
fn labels_of(heights: &Vec<u64>) -> (r: Vec<String>)
    ensures
        views(r@) == resolution_labels(heights@),
{
    let mut r: Vec<String> = Vec::new();
    let mut i: usize = 0;
    proof {
        reveal_strlit("p");
    }
    while i < heights.len()
        invariant
            i <= heights.len(),
            views(r@) == resolution_labels(heights@.subrange(0, i as int)),
        decreases heights.len() - i,
    {
        let mut label = String::new();
        push_decimal(&mut label, heights[i]);
        push_str(&mut label, "p");
        assert(label@ == decimal(heights@[i as int] as nat) + "p"@);
        let ghost before = r@;
        r.push(label);
        proof {
            assert(views(r@) =~= views(before).push(label@));
            assert(resolution_labels(heights@.subrange(0, i + 1)) =~= resolution_labels(
                heights@.subrange(0, i as int),
            ).push(decimal(heights@[i as int] as nat) + "p"@));
        }
        i = i + 1;
    }
    assert(heights@.subrange(0, heights.len() as int) =~= heights@);
    r
}

proof fn lemma_first_n_push<T>(s: Seq<T>, x: T, n: nat)
    ensures
        first_n(s.push(x), n) == if s.len() < n {
            first_n(s, n).push(x)
        } else {
            first_n(s, n)
        },
{
    if s.len() < n {
        assert(first_n(s.push(x), n) =~= s.push(x));
    } else {
        assert(first_n(s.push(x), n) =~= first_n(s, n));
    }
}

/// The first few usable titles of the playlist entries.
fn sample_titles(entries: &Vec<Option<String>>) -> (r: Vec<String>)
    ensures
        views(r@) == first_n(usable_titles(entries@), PREVIEW_ITEM_LIMIT as nat),
{
    let mut r: Vec<String> = Vec::new();
    let mut i: usize = 0;
    while i < entries.len()
        invariant
            i <= entries.len(),
            views(r@) == first_n(usable_titles(entries@.subrange(0, i as int)), PREVIEW_ITEM_LIMIT as nat),
            r@.len() <= PREVIEW_ITEM_LIMIT,
        decreases entries.len() - i,
    {
        let sub = Ghost(entries@.subrange(0, i + 1));
        assert(sub@.drop_last() =~= entries@.subrange(0, i as int));
        assert(sub@.last() == entries@[i as int]);
        let ghost titles = usable_titles(entries@.subrange(0, i as int));
        match &entries[i] {
            Some(t) => {
                if !is_blank_str(t.as_str()) {
                    proof {
                        lemma_first_n_push(titles, t@, PREVIEW_ITEM_LIMIT as nat);
                    }
                    assert(views(r@).len() == r@.len());
                    if r.len() < PREVIEW_ITEM_LIMIT {
                        assert(titles.len() < PREVIEW_ITEM_LIMIT);
                        r.push(copy_string(t));
                        assert(views(r@) =~= first_n(titles, PREVIEW_ITEM_LIMIT as nat).push(t@));
                    } else {
                        assert(titles.len() >= PREVIEW_ITEM_LIMIT);
                    }
                }
            },
            None => {},
        }
        i = i + 1;
    }
    assert(entries@.subrange(0, entries.len() as int) =~= entries@);
    r
}

fn copy_opt(o: &Option<String>) -> (r: Option<String>)
    ensures
        opt_view(r) == opt_view(*o),
{
    match o {
        Some(s) => Some(copy_string(s)),
        None => None,
    }
}

/// The preview of what yt-dlp reported; metadata without a usable title is
/// refused.
pub fn preview_from_raw(raw: &RawMetadata) -> (r: Result<MetadataPreview, Error>)
    ensures
        usable(raw.title) <==> r is Ok,
        r matches Ok(p) ==> preview_matches(p, *raw),
        r matches Err(e) ==> e matches Error::ProcessFailed(m) && m@
            == "metadata did not contain a title"@,
{
    let title = match &raw.title {
        Some(t) => {
            if is_blank_str(t.as_str()) {
                return Err(Error::ProcessFailed(owned("metadata did not contain a title")));
            }
            copy_string(t)
        },
        None => {
            return Err(Error::ProcessFailed(owned("metadata did not contain a title")));
        },
    };
    let heights = distinct_heights(&raw.heights);
    let resolutions = labels_of(&heights);
    let total_items = match raw.playlist_count {
        Some(c) => Some(c),
        None => raw.n_entries,
    };
    let playlist = match &raw.entries {
        Some(entries) => {
            let sample = sample_titles(entries);
            let truncated = match total_items {
                Some(t) => t > sample.len(),
                None => entries.len() >= PREVIEW_ITEM_LIMIT,
            };
            Some(PlaylistPreview { total_items, sample_titles: sample, truncated })
        },
        None => None,
    };
    let uploader = if raw.uploader.is_some() {
        copy_opt(&raw.uploader)
    } else {
        copy_opt(&raw.channel)
    };
    let preview = MetadataPreview {
        title,
        uploader,
        duration_seconds: raw.duration_seconds,
        resolutions,
        playlist,
    };
    assert(views(preview.resolutions@) == resolution_labels(heights@));
    Ok(preview)
}

/// The fixed arguments of the preview command, before the cookie source.
pub open spec fn metadata_base_args() -> Seq<Seq<char>> {
    seq![
        "--dump-single-json"@,
        "--flat-playlist"@,
        "--playlist-end"@,
        "5"@,
        "--no-download"@,
        "--no-warnings"@,
    ]
}

/// The yt-dlp arguments of a preview: one JSON document for the whole
/// playlist, expanded no further than the preview shows, then the cookie
/// source.
pub fn metadata_args(cookies: &CookieSource) -> (r: Vec<String>)
    ensures
        views(r@) == metadata_base_args() + cookies.args_spec(),
{
    let mut args: Vec<String> = Vec::new();
    args.push(owned("--dump-single-json"));
    args.push(owned("--flat-playlist"));
    args.push(owned("--playlist-end"));
    let mut limit = String::new();
    push_decimal(&mut limit, PREVIEW_ITEM_LIMIT as u64);
    proof {
        reveal_strlit("5");
        assert(decimal(5) =~= "5"@);
    }
    args.push(limit);
    args.push(owned("--no-download"));
    args.push(owned("--no-warnings"));
    let ghost front = views(args@);
    assert(front =~= metadata_base_args());
    let mut extra = cookies.yt_dlp_args();
    args.append(&mut extra);
    assert(views(args@) =~= metadata_base_args() + cookies.args_spec());
    args
}

/// The message of a preview whose yt-dlp run failed: its error output with
/// cookie files hidden, or the exit status where it printed nothing.
pub open spec fn preview_failure_text(stderr: Seq<char>, status: Seq<char>, cookies: CookieSource) -> Seq<char> {
    if all_ws(stderr) {
        "yt-dlp metadata preview exited with "@ + status
    } else {
        sanitized_error(stderr, cookies)
    }
}

pub fn metadata_failure_message(stderr: &str, status: &str, cookies: &CookieSource) -> (r: String)
    ensures
        r@ == preview_failure_text(stderr@, status@, *cookies),
{
    if is_blank_str(stderr) {
        let mut m = owned("yt-dlp metadata preview exited with ");
        push_str(&mut m, status);
        m
    } else {
        sanitized_ytdlp_error(stderr, cookies)
    }
}

/// The preview shows the metadata's own title and length; the uploader
/// shown is the one the metadata names, and the channel stands in only where
/// no uploader is named.
pub proof fn lemma_uploader_before_channel(p: MetadataPreview, raw: RawMetadata)
    requires
        preview_matches(p, raw),
    ensures
        raw.title matches Some(t) && p.title@ == t@,
        p.duration_seconds == raw.duration_seconds,
        raw.uploader matches Some(u) ==> p.uploader matches Some(pu) && pu@ == u@,
        raw.uploader is None ==> opt_view(p.uploader) == opt_view(raw.channel),
        raw.uploader is None && raw.channel is None ==> p.uploader is None,
{
}

} // verus!
