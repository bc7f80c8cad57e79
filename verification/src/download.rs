//! Download requests, their results, and the text protocol spoken with yt-dlp.

use vstd::prelude::*;

use crate::config::{sanitized_error, sanitized_ytdlp_error, CookieSource};
use crate::deps::{DependencyReport, YtDlpUpdateOutcome};
use crate::metadata::MetadataPreview;
use crate::platform::Platform;
use crate::text::{
    all_digits, chars_of, contains_str, lower, lower_vec, seq_contains, concat3, decimal, decimal_string, first_occurrence, has_prefix,
    index_of_char_from, index_where, is_char, lemma_index_where, owned, parse_u64,
    parse_u64_spec, push_decimal, push_str, slice_vec, starts_with_str, string_from_chars,
    trim, trim_char, trim_char_str, trim_vec, views,
};

verus! {

broadcast use vstd::string::group_string_axioms;

#[derive(Debug, Clone, Copy, PartialEq, Eq, Structural)]
pub enum Format {
    Audio,
    Video,
}

impl Format {
    pub open spec fn label_text(self) -> Seq<char> {
        match self {
            Format::Audio => "Audio"@,
            Format::Video => "Video"@,
        }
    }

    pub fn label(self) -> (r: &'static str)
        ensures
            r@ == self.label_text(),
    {
        match self {
            Format::Audio => "Audio",
            Format::Video => "Video",
        }
    }
}

#[derive(Debug, Clone, Copy, PartialEq, Eq, Structural)]
pub enum Quality {
    Best,
    Compressed,
    P720,
    P1080,
    P1440,
    P2160,
}

impl Quality {
    /// The resolution presets, from lowest to highest.
    pub const RESOLUTIONS: [Quality; 4] = [Quality::P720, Quality::P1080, Quality::P1440, Quality::P2160];

    pub open spec fn label_text(self) -> Seq<char> {
        match self {
            Quality::Best => "Best"@,
            Quality::Compressed => "Compressed"@,
            Quality::P720 => "720p"@,
            Quality::P1080 => "1080p"@,
            Quality::P1440 => "1440p"@,
            Quality::P2160 => "2160p"@,
        }
    }

    pub open spec fn height_spec(self) -> Option<u32> {
        match self {
            Quality::Best => None,
            Quality::Compressed => None,
            Quality::P720 => Some(720),
            Quality::P1080 => Some(1080),
            Quality::P1440 => Some(1440),
            Quality::P2160 => Some(2160),
        }
    }

    pub fn label(self) -> (r: &'static str)
        ensures
            r@ == self.label_text(),
    {
        match self {
            Quality::Best => "Best",
            Quality::Compressed => "Compressed",
            Quality::P720 => "720p",
            Quality::P1080 => "1080p",
            Quality::P1440 => "1440p",
            Quality::P2160 => "2160p",
        }
    }

    /// The height bound of a resolution preset.
    #[verifier::when_used_as_spec(height_spec)]
    pub fn height(self) -> (r: Option<u32>)
        ensures
            r == self.height_spec(),
    {
        match self {
            Quality::Best => None,
            Quality::Compressed => None,
            Quality::P720 => Some(720),
            Quality::P1080 => Some(1080),
            Quality::P1440 => Some(1440),
            Quality::P2160 => Some(2160),
        }
    }
}

/// Which part of a playlist URL to download.
#[derive(Debug, Clone, Copy, PartialEq, Eq, Structural)]
pub enum PlaylistSelection {
    Single,
    All,
    Item { index: usize },
}

#[derive(Debug, Clone)]
pub struct DownloadRequest {
    pub url: String,
    pub format: Format,
    pub quality: Quality,
    pub playlist: PlaylistSelection,
}

/// One item of a download job; `index` counts from 1 within the job.
#[derive(Debug, Clone)]
pub struct DownloadItem {
    pub index: usize,
    pub total: usize,
    pub title: String,
    pub playlist_index: Option<usize>,
}

#[derive(Debug, Clone)]
pub struct DownloadSuccess {
    pub item: DownloadItem,
    pub path: String,
}

#[derive(Debug, Clone)]
pub struct DownloadFailure {
    pub item: DownloadItem,
    pub error: String,
}

#[derive(Debug, Clone, Copy, PartialEq, Eq, Structural)]
pub enum DownloadWarningKind {
    SubtitleEmbedding,
    ThumbnailEmbedding,
    ChapterEmbedding,
    SubtitleSidecar,
    OptionalPostProcessing,
    ResolutionFallback,
    CookieFallback,
}

#[derive(Debug, Clone)]
pub struct DownloadWarning {
    pub item: DownloadItem,
    pub kind: DownloadWarningKind,
    pub message: String,
}

#[derive(Debug, Clone)]
pub struct DownloadSummary {
    pub total: usize,
    pub succeeded: Vec<DownloadSuccess>,
    pub failed: Vec<DownloadFailure>,
    pub warnings: Vec<DownloadWarning>,
}

/// Progress of the running item and of the whole job, in hundredths of a
/// percent (0 to 10000).
#[derive(Debug, Clone)]
pub struct DownloadProgress {
    pub overall_hundredths: u32,
    pub item_hundredths: u32,
    pub speed: String,
    pub eta: String,
}

/// An exact copy (`Clone` for these types, with its result stated).
pub trait Duplicate: Sized {
    fn duplicate(&self) -> (r: Self)
        ensures
            r == *self,
    ;
}

impl Duplicate for DownloadItem {
    fn duplicate(&self) -> (r: DownloadItem) {
        DownloadItem {
            index: self.index,
            total: self.total,
            title: self.title.clone(),
            playlist_index: self.playlist_index,
        }
    }
}

impl Duplicate for DownloadRequest {
    fn duplicate(&self) -> (r: DownloadRequest) {
        DownloadRequest {
            url: self.url.clone(),
            format: self.format,
            quality: self.quality,
            playlist: self.playlist,
        }
    }
}

impl Duplicate for DownloadSuccess {
    fn duplicate(&self) -> (r: DownloadSuccess) {
        DownloadSuccess { item: self.item.duplicate(), path: self.path.clone() }
    }
}

impl Duplicate for DownloadFailure {
    fn duplicate(&self) -> (r: DownloadFailure) {
        DownloadFailure { item: self.item.duplicate(), error: self.error.clone() }
    }
}

impl Duplicate for DownloadWarning {
    fn duplicate(&self) -> (r: DownloadWarning) {
        DownloadWarning {
            item: self.item.duplicate(),
            kind: self.kind,
            message: self.message.clone(),
        }
    }
}

impl Duplicate for DownloadProgress {
    fn duplicate(&self) -> (r: DownloadProgress) {
        DownloadProgress {
            overall_hundredths: self.overall_hundredths,
            item_hundredths: self.item_hundredths,
            speed: self.speed.clone(),
            eta: self.eta.clone(),
        }
    }
}

/// Copies every element of a vector.
pub fn copy_all<T: Duplicate>(v: &Vec<T>) -> (r: Vec<T>)
    ensures
        r@ == v@,
{
    let mut r: Vec<T> = Vec::new();
    let mut i: usize = 0;
    while i < v.len()
        invariant
            i <= v.len(),
            r@ == v@.subrange(0, i as int),
        decreases v.len() - i,
    {
        r.push(v[i].duplicate());
        assert(r@ =~= v@.subrange(0, i + 1));
        i = i + 1;
    }
    assert(v@.subrange(0, v.len() as int) =~= v@);
    r
}

impl DownloadSummary {
    /// Same counts and the same items; vectors are compared by contents.
    pub open spec fn same_as(self, other: DownloadSummary) -> bool {
        &&& self.total == other.total
        &&& self.succeeded@ == other.succeeded@
        &&& self.failed@ == other.failed@
        &&& self.warnings@ == other.warnings@
    }

    pub fn duplicate(&self) -> (r: DownloadSummary)
        ensures
            r.same_as(*self),
    {
        DownloadSummary {
            total: self.total,
            succeeded: copy_all(&self.succeeded),
            failed: copy_all(&self.failed),
            warnings: copy_all(&self.warnings),
        }
    }

    /// The summary of a job of `total` items before any has ended.
    pub fn started(total: usize) -> (s: DownloadSummary)
        ensures
            s.total == total,
            s.succeeded@.len() == 0,
            s.failed@.len() == 0,
            s.warnings@.len() == 0,
    {
        DownloadSummary { total, succeeded: Vec::new(), failed: Vec::new(), warnings: Vec::new() }
    }

    /// Records an item that was saved; the event reports it.
    pub fn record_success(&mut self, result: DownloadSuccess) -> (e: DownloadEvent)
        ensures
            final(self).succeeded@ == old(self).succeeded@.push(result),
            final(self).failed@ == old(self).failed@,
            final(self).warnings@ == old(self).warnings@,
            final(self).total == old(self).total,
            e == (DownloadEvent::ItemCompleted { result }),
    {
        let reported = result.duplicate();
        self.succeeded.push(result);
        DownloadEvent::ItemCompleted { result: reported }
    }

    /// Records an item that failed, with its error as shown (a cookie file
    /// hidden); the job goes on with the next item.
    pub fn record_failure(&mut self, item: DownloadItem, error: &str, cookies: &CookieSource) -> (e: DownloadEvent)
        ensures
            final(self).failed@.len() == old(self).failed@.len() + 1,
            final(self).failed@.drop_last() == old(self).failed@,
            final(self).failed@.last().item == item,
            final(self).failed@.last().error@ == sanitized_error(error@, *cookies),
            final(self).succeeded@ == old(self).succeeded@,
            final(self).warnings@ == old(self).warnings@,
            final(self).total == old(self).total,
            e == (DownloadEvent::ItemFailed { failure: final(self).failed@.last() }),
    {
        let failure = DownloadFailure { item, error: sanitized_ytdlp_error(error, cookies) };
        let reported = failure.duplicate();
        self.failed.push(failure);
        proof {
            assert(self.failed@.drop_last() =~= old(self).failed@);
        }
        DownloadEvent::ItemFailed { failure: reported }
    }

    /// Records a warning about an item; the event reports it.
    pub fn record_warning(&mut self, warning: DownloadWarning) -> (e: DownloadEvent)
        ensures
            final(self).warnings@ == old(self).warnings@.push(warning),
            final(self).succeeded@ == old(self).succeeded@,
            final(self).failed@ == old(self).failed@,
            final(self).total == old(self).total,
            e == (DownloadEvent::ItemWarning { warning }),
    {
        let reported = warning.duplicate();
        self.warnings.push(warning);
        DownloadEvent::ItemWarning { warning: reported }
    }
}

/// What a running job, a metadata preview or a tool check reports to the
/// frontend.
#[derive(Debug, Clone)]
pub enum DownloadEvent {
    Resolving,
    ItemStarted { item: DownloadItem, platform: Platform },
    Progress { progress: DownloadProgress, item: DownloadItem, platform: Platform },
    Converting { item: DownloadItem },
    Uploading { item: DownloadItem },
    ItemCompleted { result: DownloadSuccess },
    ItemFailed { failure: DownloadFailure },
    ItemWarning { warning: DownloadWarning },
    Finished { summary: DownloadSummary },
    Failed { error: String },
    Cancelled { summary: DownloadSummary },
    PreviewReady { preview: MetadataPreview },
    PreviewFailed { error: String },
    PreviewCancelled,
    DependenciesChecked { report: DependencyReport },
    YtDlpUpdateFinished { outcome: YtDlpUpdateOutcome },
}

// ---------------------------------------------------------------------
// yt-dlp arguments
// ---------------------------------------------------------------------

/// The filter that bounds the height of a video format choice.
pub open spec fn height_filter(h: nat) -> Seq<char> {
    "[height<="@ + decimal(h) + "]"@
}

/// The video selector that prefers H.264 (`avc1`) video with AAC (`mp4a`)
/// audio, merged or as one file, and where codec metadata is missing falls
/// back to MP4 video with M4A audio, or one MP4 file; every choice is
/// narrowed by `filter`.
pub open spec fn h264_selector(filter: Seq<char>) -> Seq<char> {
    "bv*"@ + filter + "[vcodec^=avc1]+ba[acodec^=mp4a]/b"@ + filter
        + "[vcodec^=avc1][acodec^=mp4a]/bv*"@ + filter + "[ext=mp4]+ba[ext=m4a]/b"@ + filter
        + "[ext=mp4]"@
}

/// The selector of a resolution preset: the H.264/AAC preference at or
/// below the height, then yt-dlp's `best` where nothing is that low.
pub open spec fn height_selector(h: nat) -> Seq<char> {
    h264_selector(height_filter(h)) + "/best"@
}

/// The yt-dlp arguments that select the streams and the container.
pub open spec fn format_args_spec(format: Format, quality: Quality) -> Seq<Seq<char>> {
    match format {
        Format::Video => match quality {
            Quality::Best => seq![
                "-f"@,
                h264_selector(Seq::empty()),
                "--merge-output-format"@,
                "mp4"@,
            ],
            Quality::Compressed => seq![
                "-f"@,
                "bv*[height<=1080]+ba/b[height<=1080]/best"@,
                "--merge-output-format"@,
                "mp4"@,
            ],
            _ => seq![
                "-f"@,
                height_selector(quality.height_spec()->0 as nat),
                "--merge-output-format"@,
                "mp4"@,
            ],
        },
        Format::Audio => match quality {
            Quality::Compressed => seq![
                "-f"@,
                "bestaudio"@,
                "-x"@,
                "--audio-format"@,
                "mp3"@,
                "--audio-quality"@,
                "5"@,
            ],
            _ => seq![
                "-f"@,
                "bestaudio"@,
                "-x"@,
                "--audio-format"@,
                "m4a"@,
                "--audio-quality"@,
                "0"@,
            ],
        },
    }
}

fn h264_selector_string(filter: &str) -> (r: String)
    ensures
        r@ == h264_selector(filter@),
{
    let mut r = owned("bv*");
    push_str(&mut r, filter);
    push_str(&mut r, "[vcodec^=avc1]+ba[acodec^=mp4a]/b");
    push_str(&mut r, filter);
    push_str(&mut r, "[vcodec^=avc1][acodec^=mp4a]/bv*");
    push_str(&mut r, filter);
    push_str(&mut r, "[ext=mp4]+ba[ext=m4a]/b");
    push_str(&mut r, filter);
    push_str(&mut r, "[ext=mp4]");
    r
}

/// The format-selection arguments for a request. A resolution preset bounds
/// the video height; audio has no resolution and is extracted as for Best.
pub fn format_args(format: Format, quality: Quality) -> (r: Vec<String>)
    ensures
        views(r@) == format_args_spec(format, quality),
{
    let mut r: Vec<String> = Vec::new();
    match format {
        Format::Video => {
            r.push(owned("-f"));
            match quality {
                Quality::Best => {
                    let none = String::new();
                    proof {
                        assert(none@ =~= Seq::<char>::empty());
                    }
                    r.push(h264_selector_string(none.as_str()));
                },
                Quality::Compressed => r.push(owned("bv*[height<=1080]+ba/b[height<=1080]/best")),
                _ => {
                    let h = match quality.height() {
                        Some(h) => h,
                        None => 0,
                    };
                    let mut filter = owned("[height<=");
                    push_decimal(&mut filter, h as u64);
                    push_str(&mut filter, "]");
                    let mut sel = h264_selector_string(filter.as_str());
                    push_str(&mut sel, "/best");
                    r.push(sel);
                },
            }
            r.push(owned("--merge-output-format"));
            r.push(owned("mp4"));
        },
        Format::Audio => {
            r.push(owned("-f"));
            r.push(owned("bestaudio"));
            r.push(owned("-x"));
            r.push(owned("--audio-format"));
            match quality {
                Quality::Compressed => {
                    r.push(owned("mp3"));
                    r.push(owned("--audio-quality"));
                    r.push(owned("5"));
                },
                _ => {
                    r.push(owned("m4a"));
                    r.push(owned("--audio-quality"));
                    r.push(owned("0"));
                },
            }
        },
    }
    assert(views(r@) =~= format_args_spec(format, quality));
    r
}

pub open spec fn progress_template() -> Seq<char> {
    "download:DLOOR_PROGRESS|%(progress._percent_str)s|%(progress.downloaded_bytes)s|%(progress.total_bytes,progress.total_bytes_estimate)s|%(info.playlist_index)s|%(info.n_entries)s|%(info.format_id)s|%(progress._speed_str)s|%(progress._eta_str)s"@
}

pub open spec fn plan_template() -> Seq<char> {
    "before_dl:DLOOR_PLAN|%(playlist_index)s|%(n_entries)s|%(format_id)s|%(filesize,filesize_approx)s|%(requested_formats.0.format_id)s|%(requested_formats.0.filesize,requested_formats.0.filesize_approx)s|%(requested_formats.1.format_id)s|%(requested_formats.1.filesize,requested_formats.1.filesize_approx)s"@
}

/// The arguments common to every download: machine-readable progress and
/// plan records, the confirmed output path, the output template, then the
/// cookie arguments.
pub open spec fn base_args_spec(output_template: Seq<char>, cookies: CookieSource) -> Seq<Seq<char>> {
    seq![
        "--newline"@,
        "--progress"@,
        "--progress-template"@,
        progress_template(),
        "--print"@,
        plan_template(),
        "--print"@,
        "after_move:DLOOR_OUTPUT|%(filepath)s"@,
        "-o"@,
        output_template,
    ] + cookies.args_spec()
}

pub fn base_ytdlp_args(output_template: &str, cookies: &CookieSource) -> (r: Vec<String>)
    ensures
        views(r@) == base_args_spec(output_template@, *cookies),
{
    let mut r: Vec<String> = Vec::new();
    r.push(owned("--newline"));
    r.push(owned("--progress"));
    r.push(owned("--progress-template"));
    r.push(
        owned(
            "download:DLOOR_PROGRESS|%(progress._percent_str)s|%(progress.downloaded_bytes)s|%(progress.total_bytes,progress.total_bytes_estimate)s|%(info.playlist_index)s|%(info.n_entries)s|%(info.format_id)s|%(progress._speed_str)s|%(progress._eta_str)s",
        ),
    );
    r.push(owned("--print"));
    r.push(
        owned(
            "before_dl:DLOOR_PLAN|%(playlist_index)s|%(n_entries)s|%(format_id)s|%(filesize,filesize_approx)s|%(requested_formats.0.format_id)s|%(requested_formats.0.filesize,requested_formats.0.filesize_approx)s|%(requested_formats.1.format_id)s|%(requested_formats.1.filesize,requested_formats.1.filesize_approx)s",
        ),
    );
    r.push(owned("--print"));
    r.push(owned("after_move:DLOOR_OUTPUT|%(filepath)s"));
    r.push(owned("-o"));
    r.push(owned(output_template));
    let mut extra = cookies.yt_dlp_args();
    r.append(&mut extra);
    assert(views(r@) =~= base_args_spec(output_template@, *cookies));
    r
}

// ---------------------------------------------------------------------
// Records printed by yt-dlp
// ---------------------------------------------------------------------

/// The path in an output record (`DLOOR_OUTPUT|<path>`); other lines give
/// nothing.
pub open spec fn output_record(line: Seq<char>) -> Option<Seq<char>> {
    if has_prefix(line, "DLOOR_OUTPUT|"@) {
        Some(line.subrange("DLOOR_OUTPUT|"@.len() as int, line.len() as int))
    } else {
        None
    }
}

pub fn parse_output_line(line: &str) -> (r: Option<String>)
    ensures
        match output_record(line@) {
            Some(p) => r matches Some(s) && s@ == p,
            None => r is None,
        },
{
    let v = chars_of(line);
    let prefix = chars_of("DLOOR_OUTPUT|");
    if crate::text::starts_with(v.as_slice(), prefix.as_slice()) {
        let rest = slice_vec(v.as_slice(), prefix.len(), v.len());
        Some(string_from_chars(rest.as_slice()))
    } else {
        None
    }
}

/// The height in a height record (`DLOOR_HEIGHT|<height>`), where it is a
/// number; other lines, and `NA`, give nothing.
pub open spec fn height_record(line: Seq<char>) -> Option<u64> {
    if has_prefix(line, "DLOOR_HEIGHT|"@) {
        parse_u64_spec(line.subrange("DLOOR_HEIGHT|"@.len() as int, line.len() as int))
    } else {
        None
    }
}

pub fn parse_height_line(line: &str) -> (r: Option<u64>)
    ensures
        r == height_record(line@),
{
    let v = chars_of(line);
    let prefix = chars_of("DLOOR_HEIGHT|");
    if crate::text::starts_with(v.as_slice(), prefix.as_slice()) {
        let rest = slice_vec(v.as_slice(), prefix.len(), v.len());
        parse_u64(rest.as_slice())
    } else {
        None
    }
}

/// `value.parse::<u64>().ok()`.
pub fn parse_optional_u64(value: &str) -> (r: Option<u64>)
    ensures
        r == parse_u64_spec(value@),
{
    let v = chars_of(value);
    parse_u64(v.as_slice())
}

/// The fields of `s` split at `|`, at most `n` of them: the last field
/// holds the rest of the line (`str::splitn`).
pub open spec fn splitn_bar(s: Seq<char>, n: nat) -> Seq<Seq<char>>
    decreases n,
{
    if n <= 1 {
        seq![s]
    } else {
        let i = index_where(s, is_char('|'));
        if i >= s.len() {
            seq![s]
        } else {
            seq![s.subrange(0, i as int)] + splitn_bar(s.subrange(i as int + 1, s.len() as int), (n - 1) as nat)
        }
    }
}

/// The per-format sizes that a plan record announces for one item.
#[derive(Debug, Clone)]
pub struct ProgressPlan {
    pub n_entries: Option<u64>,
    /// Format id and size in bytes; no id occurs twice.
    pub sizes: Vec<(String, u64)>,
}

pub open spec fn pair_views(v: Seq<(String, u64)>) -> Seq<(Seq<char>, u64)> {
    v.map_values(|p: (String, u64)| (p.0@, p.1))
}

/// A requested stream counts when its id is neither empty nor `NA` and it
/// reports a size.
pub open spec fn stream_entry(id: Seq<char>, size: Seq<char>) -> Option<(Seq<char>, u64)> {
    if id != "NA"@ && id.len() > 0 && parse_u64_spec(trim(size)) is Some {
        Some((id, parse_u64_spec(trim(size))->0))
    } else {
        None
    }
}

/// The sizes of a plan: the two requested streams (the second replacing
/// the first when both have one id), or else the whole format's size.
pub open spec fn plan_sizes(f: Seq<Seq<char>>) -> Seq<(Seq<char>, u64)> {
    let first = stream_entry(trim(f[4]), f[5]);
    let second = stream_entry(trim(f[6]), f[7]);
    let requested = match (first, second) {
        (Some(a), Some(b)) => if a.0 == b.0 {
            seq![b]
        } else {
            seq![a, b]
        },
        (Some(a), None) => seq![a],
        (None, Some(b)) => seq![b],
        (None, None) => Seq::empty(),
    };
    if requested.len() > 0 {
        requested
    } else {
        match parse_u64_spec(trim(f[3])) {
            Some(size) => seq![(trim(f[2]), size)],
            None => Seq::empty(),
        }
    }
}

/// A plan record (`DLOOR_PLAN|index|entries|format|size|id0|size0|id1|size1`),
/// as playlist index (at least 1), entry count and sizes.
pub open spec fn plan_record(line: Seq<char>) -> Option<(u64, Option<u64>, Seq<(Seq<char>, u64)>)> {
    if !has_prefix(line, "DLOOR_PLAN|"@) {
        None
    } else {
        let f = splitn_bar(line.subrange("DLOOR_PLAN|"@.len() as int, line.len() as int), 8);
        if f.len() < 8 {
            None
        } else {
            let index = match parse_u64_spec(trim(f[0])) {
                Some(i) => if i == 0 {
                    1u64
                } else {
                    i
                },
                None => 1u64,
            };
            Some((index, parse_u64_spec(trim(f[1])), plan_sizes(f)))
        }
    }
}

pub(crate) proof fn lemma_splitn_len(s: Seq<char>, n: nat)
    ensures
        splitn_bar(s, n).len() >= 1,
        splitn_bar(s, n).len() <= if n == 0 { 1 } else { n },
    decreases n,
{
    if n > 1 {
        let i = index_where(s, is_char('|'));
        if i < s.len() {
            lemma_splitn_len(s.subrange(i as int + 1, s.len() as int), (n - 1) as nat);
        }
    }
}

/// The fields of `s[from..]` split at `|`, at most `n`, each as a start and
/// end index into `s`.
pub(crate) fn split_fields(s: &[char], from: usize, n: usize) -> (r: Vec<(usize, usize)>)
    requires
        from <= s.len(),
        n >= 1,
    ensures
        r@.len() == splitn_bar(s@.subrange(from as int, s@.len() as int), n as nat).len(),
        forall|k: int| 0 <= k < r@.len() ==> (#[trigger] r@[k]).0 <= r@[k].1,
        forall|k: int| 0 <= k < r@.len() ==> (#[trigger] r@[k]).1 <= s@.len(),
        forall|k: int|
            0 <= k < r@.len() ==> s@.subrange((#[trigger] r@[k]).0 as int, r@[k].1 as int)
                == splitn_bar(s@.subrange(from as int, s@.len() as int), n as nat)[k],
    decreases n,
{
    let ghost t = s@.subrange(from as int, s@.len() as int);
    if n == 1 {
        let mut r = Vec::new();
        r.push((from, s.len()));
        assert(splitn_bar(t, 1) == seq![t]);
        return r;
    }
    let i = index_of_char_from(s, '|', from);
    proof {
        lemma_index_where(t, is_char('|'));
    }
    if i == s.len() {
        let mut r = Vec::new();
        r.push((from, s.len()));
        assert(splitn_bar(t, n as nat) == seq![t]);
        return r;
    }
    let rest = split_fields(s, i + 1, n - 1);
    proof {
        assert(t.subrange(i - from + 1, t.len() as int) =~= s@.subrange(i + 1, s@.len() as int));
        assert(t.subrange(0, i - from) =~= s@.subrange(from as int, i as int));
    }
    let mut r = Vec::new();
    r.push((from, i));
    let mut k: usize = 0;
    while k < rest.len()
        invariant
            k <= rest.len(),
            r@.len() == k + 1,
            r@[0] == (from, i),
            forall|j: int| 0 <= j < k ==> r@[j + 1] == rest@[j],
        decreases rest.len() - k,
    {
        r.push(rest[k]);
        k = k + 1;
    }
    proof {
        let sp = splitn_bar(t, n as nat);
        let tail = splitn_bar(t.subrange(i - from + 1, t.len() as int), (n - 1) as nat);
        assert(index_where(t, is_char('|')) == i - from);
        assert(sp == seq![t.subrange(0, i - from)] + tail);
        assert(r@.len() == sp.len());
        assert forall|j: int| 0 <= j < r@.len() implies (#[trigger] r@[j]).0 <= r@[j].1 && r@[j].1
            <= s@.len() && s@.subrange(r@[j].0 as int, r@[j].1 as int) == sp[j] by {
            if j > 0 {
                assert(r@[j] == rest@[j - 1]);
                assert(sp[j] == tail[j - 1]);
            } else {
                assert(sp[0] == t.subrange(0, i - from));
            }
        }
    }
    r
}

fn stream_entry_exec(s: &[char], id: (usize, usize), size: (usize, usize)) -> (r: Option<
    (String, u64),
>)
    requires
        id.0 <= id.1 <= s.len(),
        size.0 <= size.1 <= s.len(),
    ensures
        match stream_entry(
            trim(s@.subrange(id.0 as int, id.1 as int)),
            s@.subrange(size.0 as int, size.1 as int),
        ) {
            Some(e) => r matches Some(p) && p.0@ == e.0 && p.1 == e.1,
            None => r is None,
        },
{
    let id_chars = trim_vec(slice_vec(s, id.0, id.1).as_slice());
    let size_chars = trim_vec(slice_vec(s, size.0, size.1).as_slice());
    if crate::text::chars_eq_str(id_chars.as_slice(), "NA") || id_chars.len() == 0 {
        return None;
    }
    match parse_u64(size_chars.as_slice()) {
        Some(v) => Some((string_from_chars(id_chars.as_slice()), v)),
        None => None,
    }
}

/// Reads a plan record; other lines give `None`.
pub fn parse_plan_line(line: &str) -> (r: Option<(u64, ProgressPlan)>)
    ensures
        match plan_record(line@) {
            None => r is None,
            Some((index, n_entries, sizes)) => r matches Some((i, plan)) && i == index
                && plan.n_entries == n_entries && pair_views(plan.sizes@) == sizes,
        },
{
    let v = chars_of(line);
    let prefix = chars_of("DLOOR_PLAN|");
    if !crate::text::starts_with(v.as_slice(), prefix.as_slice()) {
        return None;
    }
    let f = split_fields(v.as_slice(), prefix.len(), 8);
    proof {
        lemma_splitn_len(v@.subrange(prefix.len() as int, v.len() as int), 8);
    }
    if f.len() < 8 {
        return None;
    }
    let ghost fs = splitn_bar(v@.subrange(prefix.len() as int, v.len() as int), 8);
    let part0 = trim_vec(slice_vec(v.as_slice(), f[0].0, f[0].1).as_slice());
    let index = match parse_u64(part0.as_slice()) {
        Some(i) => if i == 0 {
            1
        } else {
            i
        },
        None => 1,
    };
    let part1 = trim_vec(slice_vec(v.as_slice(), f[1].0, f[1].1).as_slice());
    let n_entries = parse_u64(part1.as_slice());
    let first = stream_entry_exec(v.as_slice(), f[4], f[5]);
    let second = stream_entry_exec(v.as_slice(), f[6], f[7]);
    let mut sizes: Vec<(String, u64)> = Vec::new();
    match first {
        Some(a) => {
            match second {
                Some(b) => {
                    if !crate::text::str_eq(a.0.as_str(), b.0.as_str()) {
                        sizes.push(a);
                    }
                    sizes.push(b);
                },
                None => sizes.push(a),
            }
        },
        None => match second {
            Some(b) => sizes.push(b),
            None => {},
        },
    }
    if sizes.len() == 0 {
        let part3 = trim_vec(slice_vec(v.as_slice(), f[3].0, f[3].1).as_slice());
        match parse_u64(part3.as_slice()) {
            Some(size) => {
                let id = trim_vec(slice_vec(v.as_slice(), f[2].0, f[2].1).as_slice());
                sizes.push((string_from_chars(id.as_slice()), size));
            },
            None => {},
        }
    }
    proof {
        assert(pair_views(sizes@) =~= plan_sizes(fs));
    }
    Some((index, ProgressPlan { n_entries, sizes }))
}

// ---------------------------------------------------------------------
// Output names
// ---------------------------------------------------------------------

/// The name tried after `stem.ext` is taken: `stem (counter).ext`, or
/// `stem (counter)` for a name without extension.
pub open spec fn numbered_name(stem: Seq<char>, ext: Option<Seq<char>>, counter: nat) -> Seq<char> {
    match ext {
        Some(e) => stem + " ("@ + decimal(counter) + ")."@ + e,
        None => stem + " ("@ + decimal(counter) + ")"@,
    }
}

pub fn numbered_file_name(stem: &str, extension: Option<&str>, counter: u32) -> (r: String)
    ensures
        r@ == numbered_name(
            stem@,
            match extension {
                Some(e) => Some(e@),
                None => None,
            },
            counter as nat,
        ),
{
    let mut r = owned(stem);
    push_str(&mut r, " (");
    push_decimal(&mut r, counter as u64);
    match extension {
        Some(e) => {
            push_str(&mut r, ").");
            push_str(&mut r, e);
        },
        None => {
            push_str(&mut r, ")");
        },
    }
    r
}

/// How many numbered names are tried once a file's own name is taken.
pub const NUMBERED_NAME_LIMIT: u32 = 10000;

pub open spec fn opt_view_str(o: Option<&str>) -> Option<Seq<char>> {
    match o {
        Some(e) => Some(e@),
        None => None,
    }
}

/// The name to try at attempt `attempt` of the search for a free
/// destination: the file's own name first, then `stem (1).ext` up to
/// `stem (10000).ext`; after that, none, and the search gives up.
pub open spec fn candidate_name(
    file_name: Seq<char>,
    stem: Seq<char>,
    ext: Option<Seq<char>>,
    attempt: nat,
) -> Option<Seq<char>> {
    if attempt == 0 {
        Some(file_name)
    } else if attempt <= NUMBERED_NAME_LIMIT {
        Some(numbered_name(stem, ext, attempt))
    } else {
        None
    }
}

/// The name to try at attempt `attempt`, counting from 0, where every
/// earlier name was taken; `None` once no name is left to try.
pub fn destination_candidate(file_name: &str, stem: &str, extension: Option<&str>, attempt: u32) -> (r:
    Option<String>)
    ensures
        match (r, candidate_name(file_name@, stem@, opt_view_str(extension), attempt as nat)) {
            (Some(n), Some(c)) => n@ == c,
            (None, None) => true,
            _ => false,
        },
{
    if attempt == 0 {
        Some(owned(file_name))
    } else if attempt <= NUMBERED_NAME_LIMIT {
        Some(numbered_file_name(stem, extension, attempt))
    } else {
        None
    }
}

/// The rclone target of a cloud destination: `remote:path`, the path
/// without leading or trailing `/`.
pub open spec fn cloud_target_spec(remote: Seq<char>, path: Seq<char>) -> Seq<char> {
    remote + ":"@ + trim_char(path, '/')
}

pub fn cloud_target(remote: &str, path: &str) -> (r: String)
    ensures
        r@ == cloud_target_spec(remote@, path@),
{
    let trimmed = trim_char_str(path, '/');
    concat3(remote, ":", trimmed.as_str())
}

/// Where an uploaded file is reported to be: `remote:path/file`.
pub fn cloud_file_path(remote: &str, path: &str, file_name: &str) -> (r: String)
    ensures
        r@ == cloud_target_spec(remote@, path@) + "/"@ + file_name@,
{
    let mut r = cloud_target(remote, path);
    push_str(&mut r, "/");
    push_str(&mut r, file_name);
    r
}

// ---------------------------------------------------------------------
// The YouTube HTTP 403 fallback
// ---------------------------------------------------------------------

/// An item of YouTube or YouTube Shorts whose cookie-backed request was
/// refused with HTTP 403 is tried once more with cookies disabled.
pub open spec fn retries_without_cookies(
    platform: Platform,
    cookies: CookieSource,
    stderr: Seq<char>,
    already_retried: bool,
) -> bool {
    &&& !already_retried
    &&& (platform == Platform::YouTube || platform == Platform::YouTubeShorts)
    &&& !(cookies is Disabled)
    &&& seq_contains(lower(stderr), "http error 403"@)
}

/// Whether a failed item is retried without cookies.
pub fn should_retry_without_cookies(
    platform: Platform,
    cookies: &CookieSource,
    stderr: &str,
    already_retried: bool,
) -> (r: bool)
    ensures
        r == retries_without_cookies(platform, *cookies, stderr@, already_retried),
{
    if already_retried {
        return false;
    }
    if !(platform == Platform::YouTube || platform == Platform::YouTubeShorts) {
        return false;
    }
    let uses_cookies = match cookies {
        CookieSource::Disabled => false,
        _ => true,
    };
    if !uses_cookies {
        return false;
    }
    let lowered = lower_vec(chars_of(stderr).as_slice());
    contains_str(lowered.as_slice(), "http error 403")
}

pub open spec fn cookie_fallback_text() -> Seq<char> {
    "The cookie-backed request was rejected with HTTP 403; the item was downloaded with cookies disabled."@
}

/// The completion warning for an item that succeeded only without cookies.
pub fn cookie_fallback_warning(item: DownloadItem) -> (w: DownloadWarning)
    ensures
        w.item == item,
        w.kind == DownloadWarningKind::CookieFallback,
        w.message@ == cookie_fallback_text(),
{
    DownloadWarning {
        item,
        kind: DownloadWarningKind::CookieFallback,
        message: owned(
            "The cookie-backed request was rejected with HTTP 403; the item was downloaded with cookies disabled.",
        ),
    }
}

// ---------------------------------------------------------------------
// Resolution fallback
// ---------------------------------------------------------------------

/// A video asked for at a resolution that came out at another height: the
/// requested and the confirmed heights.
pub open spec fn resolution_fallback(format: Format, quality: Quality, confirmed: Option<u64>) -> Option<(u32, u64)> {
    match (quality.height_spec(), confirmed) {
        (Some(h), Some(c)) => if format == Format::Video && c != h {
            Some((h, c))
        } else {
            None
        },
        _ => None,
    }
}

pub open spec fn resolution_fallback_text(requested: nat, confirmed: nat) -> Seq<char> {
    "Downloaded at "@ + decimal(confirmed) + "p; "@ + decimal(requested) + "p was not available."@
}

/// The completion warning for a video whose confirmed height differs from
/// the resolution asked for.
pub fn resolution_warning(item: DownloadItem, format: Format, quality: Quality, confirmed: Option<u64>) -> (r: Option<DownloadWarning>)
    ensures
        match resolution_fallback(format, quality, confirmed) {
            Some((h, c)) => (r matches Some(w) && w.item == item && w.kind
                == DownloadWarningKind::ResolutionFallback && w.message@ == resolution_fallback_text(
                h as nat,
                c as nat,
            )),
            None => r is None,
        },
{
    if format != Format::Video {
        return None;
    }
    match (quality.height(), confirmed) {
        (Some(h), Some(c)) => {
            if c == h as u64 {
                return None;
            }
            let mut m = owned("Downloaded at ");
            push_decimal(&mut m, c);
            push_str(&mut m, "p; ");
            push_decimal(&mut m, h as u64);
            push_str(&mut m, "p was not available.");
            Some(DownloadWarning { item, kind: DownloadWarningKind::ResolutionFallback, message: m })
        },
        _ => None,
    }
}

} // verus!
