//! The download history: what was fetched or failed, newest last, kept to a
//! bounded length. Reading and writing the history file is the frontend's
//! part; this module decides what the entries are and which of them stay.

use vstd::prelude::*;

use crate::download::{
    DownloadFailure, DownloadRequest, DownloadSuccess, Format, PlaylistSelection, Quality,
};
use crate::platform::Platform;
use crate::text::{copy_string, decimal, owned, push_decimal};

verus! {

broadcast use vstd::string::group_string_axioms;

/// How many entries a history keeps unless configured otherwise.
pub const DEFAULT_HISTORY_LIMIT: usize = 500;

#[derive(Debug, Clone, Copy, PartialEq, Eq, Structural)]
pub enum HistoryStatus {
    Succeeded,
    Failed,
    Cancelled,
}

impl HistoryStatus {
    pub open spec fn label_text(self) -> Seq<char> {
        match self {
            HistoryStatus::Succeeded => "Succeeded"@,
            HistoryStatus::Failed => "Failed"@,
            HistoryStatus::Cancelled => "Cancelled"@,
        }
    }

    pub fn label(self) -> (r: &'static str)
        ensures
            r@ == self.label_text(),
    {
        match self {
            HistoryStatus::Succeeded => "Succeeded",
            HistoryStatus::Failed => "Failed",
            HistoryStatus::Cancelled => "Cancelled",
        }
    }
}

#[derive(Debug, Clone)]
pub struct HistoryEntry {
    pub source_url: String,
    pub playlist_index: Option<usize>,
    pub title: String,
    pub platform: Platform,
    pub format: Format,
    pub quality: Quality,
    pub playlist: PlaylistSelection,
    pub destination_path: Option<String>,
    pub status: HistoryStatus,
    pub recorded_at: String,
}

/// The playlist selection that an entry records: the single item when the
/// entry is about one item of a playlist, else the request's own selection.
pub open spec fn recorded_selection(
    request: PlaylistSelection,
    playlist_index: Option<usize>,
) -> PlaylistSelection {
    match playlist_index {
        Some(index) => PlaylistSelection::Item { index },
        None => request,
    }
}

/// The playlist index that a request names, if it names one item.
pub open spec fn requested_index(selection: PlaylistSelection) -> Option<usize> {
    match selection {
        PlaylistSelection::Item { index } => Some(index),
        _ => None,
    }
}

pub open spec fn opt_view(o: Option<String>) -> Option<Seq<char>> {
    match o {
        Some(s) => Some(s@),
        None => None,
    }
}

/// What a retry of an entry downloads: nothing for a success, else the
/// recorded URL, format, quality and playlist selection.
pub open spec fn retry_target(e: HistoryEntry) -> Option<(Seq<char>, Format, Quality, PlaylistSelection)> {
    if e.status == HistoryStatus::Succeeded {
        None
    } else {
        Some((e.source_url@, e.format, e.quality, e.playlist))
    }
}

/// What an entry records of a request and an item, the time aside.
pub open spec fn records(
    e: HistoryEntry,
    request: DownloadRequest,
    platform: Platform,
    title: Seq<char>,
    playlist_index: Option<usize>,
    destination_path: Option<Seq<char>>,
    status: HistoryStatus,
) -> bool {
    &&& e.source_url@ == request.url@
    &&& e.playlist_index == playlist_index
    &&& e.title@ == title
    &&& e.platform == platform
    &&& e.format == request.format
    &&& e.quality == request.quality
    &&& e.playlist == recorded_selection(request.playlist, playlist_index)
    &&& opt_view(e.destination_path) == destination_path
    &&& e.status == status
}

/// The decimal text of a signed integer (`i64::to_string`).
pub open spec fn signed_decimal(n: int) -> Seq<char> {
    if n < 0 {
        seq!['-'] + decimal((-n) as nat)
    } else {
        decimal(n as nat)
    }
}

pub fn signed_decimal_string(n: i64) -> (r: String)
    ensures
        r@ == signed_decimal(n as int),
{
    let mut r = String::new();
    if n < 0 {
        r = owned("-");
        proof {
            reveal_strlit("-");
        }
        let wide: i128 = 0i128 - (n as i128);
        assert(0 < wide <= u64::MAX);
        let m: u64 = wide as u64;
        assert(m as int == -(n as int));
        push_decimal(&mut r, m);
        assert(r@ =~= seq!['-'] + decimal((-(n as int)) as nat));
    } else {
        push_decimal(&mut r, n as u64);
    }
    r
}

/// The time of recording: RFC 3339 where the clock can be formatted, else
/// the Unix time in seconds.
pub fn stamp_from(formatted: Option<String>, unix_seconds: i64) -> (r: String)
    ensures
        formatted is Some ==> r@ == formatted->0@,
        formatted is None ==> r@ == signed_decimal(unix_seconds as int),
{
    match formatted {
        Some(s) => s,
        None => signed_decimal_string(unix_seconds),
    }
}

/// A time of recording: an RFC 3339 date-time in UTC (ending in `Z`), or a
/// number of seconds since the Unix epoch.
pub open spec fn is_stamp(s: Seq<char>) -> bool {
    (crate::clock::rfc3339_shaped(s) && s.last() == 'Z') || exists|n: int|
        i64::MIN <= n <= i64::MAX && s == #[trigger] signed_decimal(n)
}

/// The time of recording now: the current UTC time as RFC 3339 text, or
/// the current Unix time in seconds where the crate cannot format it.
fn current_timestamp() -> (r: String)
    ensures
        is_stamp(r@),
{
    let now = crate::clock::utc_now();
    let formatted = crate::clock::rfc3339_text(&now);
    let seconds = if formatted.is_none() {
        crate::clock::unix_seconds(&now)
    } else {
        0
    };
    let r = stamp_from(formatted, seconds);
    proof {
        if formatted is None {
            assert(r@ == signed_decimal(seconds as int));
        }
    }
    r
}

fn copy_opt(o: &Option<String>) -> (r: Option<String>)
    ensures
        opt_view(r) == opt_view(*o),
{
    match o {
        Some(s) => Some(copy_string(s)),
        None => None,
    }
}

impl HistoryEntry {
    fn new(
        request: &DownloadRequest,
        platform: Platform,
        title: String,
        playlist_index: Option<usize>,
        destination_path: Option<String>,
        status: HistoryStatus,
    ) -> (e: HistoryEntry)
        ensures
            records(e, *request, platform, title@, playlist_index, opt_view(destination_path), status),
            is_stamp(e.recorded_at@),
    {
        let playlist = match playlist_index {
            Some(index) => PlaylistSelection::Item { index },
            None => request.playlist,
        };
        HistoryEntry {
            source_url: copy_string(&request.url),
            playlist_index,
            title,
            platform,
            format: request.format,
            quality: request.quality,
            playlist,
            destination_path,
            status,
            recorded_at: current_timestamp(),
        }
    }

    /// The entry for an item that was downloaded.
    pub fn succeeded(request: &DownloadRequest, platform: Platform, result: &DownloadSuccess) -> (e:
        HistoryEntry)
        ensures
            records(
                e,
                *request,
                platform,
                result.item.title@,
                result.item.playlist_index,
                Some(result.path@),
                HistoryStatus::Succeeded,
            ),
            is_stamp(e.recorded_at@),
    {
        HistoryEntry::new(
            request,
            platform,
            copy_string(&result.item.title),
            result.item.playlist_index,
            Some(copy_string(&result.path)),
            HistoryStatus::Succeeded,
        )
    }

    /// The entry for an item that failed.
    pub fn failed(request: &DownloadRequest, platform: Platform, failure: &DownloadFailure) -> (e:
        HistoryEntry)
        ensures
            records(
                e,
                *request,
                platform,
                failure.item.title@,
                failure.item.playlist_index,
                None,
                HistoryStatus::Failed,
            ),
            is_stamp(e.recorded_at@),
    {
        HistoryEntry::new(
            request,
            platform,
            copy_string(&failure.item.title),
            failure.item.playlist_index,
            None,
            HistoryStatus::Failed,
        )
    }

    /// The entry for a job that ended before its item finished.
    pub fn unfinished(
        request: &DownloadRequest,
        platform: Platform,
        title: String,
        status: HistoryStatus,
    ) -> (e: HistoryEntry)
        ensures
            records(e, *request, platform, title@, requested_index(request.playlist), None, status),
            is_stamp(e.recorded_at@),
    {
        let playlist_index = match request.playlist {
            PlaylistSelection::Item { index } => Some(index),
            PlaylistSelection::Single | PlaylistSelection::All => None,
        };
        HistoryEntry::new(request, platform, title, playlist_index, None, status)
    }

    /// The request that downloads this entry again; none for an entry that
    /// succeeded.
    pub fn retry_request(&self) -> (r: Option<DownloadRequest>)
        ensures
            self.status == HistoryStatus::Succeeded <==> r is None,
            r matches Some(q) ==> q.url@ == self.source_url@ && q.format == self.format
                && q.quality == self.quality && q.playlist == self.playlist,
            match r {
                Some(q) => retry_target(*self) == Some((q.url@, q.format, q.quality, q.playlist)),
                None => retry_target(*self) is None,
            },
    {
        if self.status == HistoryStatus::Succeeded {
            return None;
        }
        Some(
            DownloadRequest {
                url: copy_string(&self.source_url),
                format: self.format,
                quality: self.quality,
                playlist: self.playlist,
            },
        )
    }

    /// The queue job that retries the entry: its request, titled
    /// `Retry: <title>`; none for an entry that succeeded.
    pub fn retry_job(&self) -> (r: Option<(DownloadRequest, String)>)
        ensures
            self.status == HistoryStatus::Succeeded <==> r is None,
            r matches Some((q, t)) ==> retry_target(*self) == Some((q.url@, q.format, q.quality, q.playlist))
                && t@ == "Retry: "@ + self.title@,
    {
        match self.retry_request() {
            Some(q) => {
                let mut title = owned("Retry: ");
                crate::text::push_str(&mut title, self.title.as_str());
                Some((q, title))
            },
            None => None,
        }
    }

    /// A copy of the entry.
    pub fn duplicate(&self) -> (r: HistoryEntry)
        ensures
            r.source_url@ == self.source_url@,
            r.playlist_index == self.playlist_index,
            r.title@ == self.title@,
            r.platform == self.platform,
            r.format == self.format,
            r.quality == self.quality,
            r.playlist == self.playlist,
            opt_view(r.destination_path) == opt_view(self.destination_path),
            r.status == self.status,
            r.recorded_at@ == self.recorded_at@,
    {
        HistoryEntry {
            source_url: copy_string(&self.source_url),
            playlist_index: self.playlist_index,
            title: copy_string(&self.title),
            platform: self.platform,
            format: self.format,
            quality: self.quality,
            playlist: self.playlist,
            destination_path: copy_opt(&self.destination_path),
            status: self.status,
            recorded_at: copy_string(&self.recorded_at),
        }
    }
}

/// The effective limit: at least one entry is always kept.
pub open spec fn effective_limit(limit: usize) -> nat {
    if limit == 0 {
        1
    } else {
        limit as nat
    }
}

/// The newest `limit` elements of `s` (all of them if there are fewer).
pub open spec fn newest<T>(s: Seq<T>, limit: nat) -> Seq<T> {
    if s.len() > limit {
        s.subrange(s.len() - limit, s.len() as int)
    } else {
        s
    }
}

/// Drops the oldest entries until at most `limit` remain.
fn keep_newest(entries: Vec<HistoryEntry>, limit: usize) -> (r: Vec<HistoryEntry>)
    ensures
        r@ == newest(entries@, limit as nat),
{
    if entries.len() <= limit {
        return entries;
    }
    let start = entries.len() - limit;
    let mut entries = entries;
    entries.split_off(start)
}

/// The in-memory history: the file it lives in, how many entries it keeps,
/// and the entries, oldest first.
#[derive(Debug)]
pub struct HistoryStore {
    path: String,
    limit: usize,
    entries: Vec<HistoryEntry>,
}

impl HistoryStore {
    /// The store's own invariant: a positive limit that the entries keep to.
    pub closed spec fn wf(&self) -> bool {
        self.limit >= 1 && self.entries@.len() <= self.limit
    }

    pub closed spec fn entries_view(&self) -> Seq<HistoryEntry> {
        self.entries@
    }

    pub closed spec fn limit_view(&self) -> nat {
        self.limit as nat
    }

    pub closed spec fn path_view(&self) -> Seq<char> {
        self.path@
    }

    /// A store over the entries read from its file, oldest first; only the
    /// newest `limit` of them (at least one) are kept.
    pub fn from_loaded(path: String, limit: usize, loaded: Vec<HistoryEntry>) -> (s: HistoryStore)
        ensures
            s.wf(),
            s.path_view() == path@,
            s.limit_view() == effective_limit(limit),
            s.entries_view() == newest(loaded@, effective_limit(limit)),
    {
        let limit = if limit == 0 {
            1
        } else {
            limit
        };
        let entries = keep_newest(loaded, limit);
        HistoryStore { path, limit, entries }
    }

    /// Adds an entry as the newest and drops the oldest beyond the limit.
    /// Returns whether any was dropped, which is when the file has to be
    /// rewritten.
    pub fn record(&mut self, entry: HistoryEntry) -> (compacted: bool)
        requires
            old(self).wf(),
        ensures
            final(self).wf(),
            final(self).limit_view() == old(self).limit_view(),
            final(self).path_view() == old(self).path_view(),
            final(self).entries_view() == newest(
                old(self).entries_view().push(entry),
                old(self).limit_view(),
            ),
            compacted == (old(self).entries_view().len() + 1 > old(self).limit_view()),
    {
        let mut entries = Vec::new();
        core::mem::swap(&mut entries, &mut self.entries);
        entries.push(entry);
        let compacted = entries.len() > self.limit;
        self.entries = keep_newest(entries, self.limit);
        compacted
    }

    /// The entries, oldest first.
    pub fn entries(&self) -> (r: &[HistoryEntry])
        ensures
            r@ == self.entries_view(),
    {
        self.entries.as_slice()
    }

    /// The file the history lives in.
    pub fn path(&self) -> (r: &str)
        ensures
            r@ == self.path_view(),
    {
        self.path.as_str()
    }

    /// How many entries the store keeps.
    pub fn limit(&self) -> (r: usize)
        ensures
            r == self.limit_view(),
    {
        self.limit
    }
}

/// A store never holds more entries than its limit, and recording keeps the
/// newest entries in the order they were recorded, the new one last.
pub proof fn lemma_record_keeps_newest(
    before: Seq<HistoryEntry>,
    entry: HistoryEntry,
    limit: nat,
)
    requires
        limit >= 1,
        before.len() <= limit,
    ensures
        newest(before.push(entry), limit).len() <= limit,
        newest(before.push(entry), limit).last() == entry,
        newest(before.push(entry), limit).len() == if before.len() < limit {
            before.len() + 1
        } else {
            limit
        },
        forall|i: int|
            0 <= i < newest(before.push(entry), limit).len() - 1 ==> #[trigger] newest(
                before.push(entry),
                limit,
            )[i] == before[i + before.len() + 1 - newest(before.push(entry), limit).len()],
{
}

/// Retrying an entry that did not succeed downloads what it recorded
/// again: the same URL, format and quality, and for an item of a playlist
/// that item alone, so the playlist's successful items are not repeated.
pub proof fn lemma_retry_repeats_only_what_failed(
    e: HistoryEntry,
    request: DownloadRequest,
    platform: Platform,
    title: Seq<char>,
    playlist_index: Option<usize>,
    status: HistoryStatus,
)
    requires
        records(e, request, platform, title, playlist_index, None, status),
        status != HistoryStatus::Succeeded,
    ensures
        retry_target(e) == Some(
            (
                request.url@,
                request.format,
                request.quality,
                recorded_selection(request.playlist, playlist_index),
            ),
        ),
        playlist_index matches Some(i) ==> (recorded_selection(request.playlist, playlist_index)
            == (PlaylistSelection::Item { index: i })),
{
}

} // verus!
