//! The terminal frontend's logic: its screens, how keys move between them,
//! and what each screen shows of the library's state. Drawing the screens
//! and running the event loop is the frontend's part.

use vstd::prelude::*;

use crate::config::{
    default_download_dir, BandwidthLimit, Browser, Config, CookieSource, Destination,
};
use crate::deps::{DependencyReport, Tool, YtDlpUpdateOutcome};
use crate::diagnostics::{diagnose_ytdlp_error, diagnosis_of, ErrorDiagnosis};
use crate::download::{
    DownloadEvent, DownloadItem, DownloadProgress, DownloadRequest, DownloadSummary, Duplicate,
    Format, PlaylistSelection, Quality,
};
use crate::history::{records, requested_index, HistoryEntry, HistoryStatus};
use crate::queue::QueuedJob;
use crate::metadata::MetadataPreview;
use crate::platform::{detect_platform, platform_of, Platform};
use crate::queue::{DownloadQueue, JobId, QueueStatus};
use crate::text::{
    all_ws, chars_of, copy_string, decimal, is_blank_str, owned, push_decimal, push_str, str_eq,
    string_from_chars, trim, trim_str, views,
};

verus! {

broadcast use vstd::string::group_string_axioms;

// ---------------------------------------------------------------------
// Screens
// ---------------------------------------------------------------------

pub struct MainState {
    pub url_input: String,
}

impl Default for MainState {
    fn default() -> (r: MainState)
        ensures
            r.url_input@.len() == 0,
    {
        MainState { url_input: String::new() }
    }
}

pub struct PreviewLoadingState {
    pub cancelling: bool,
}

pub struct PreviewState {
    pub url: String,
    pub preview: MetadataPreview,
}

pub struct GenericConfirmState {
    pub url: String,
}

pub struct FormatState {
    pub url: String,
    pub title: String,
    pub playlist: PlaylistSelection,
    pub selected: usize,
    pub available_resolutions: Vec<Quality>,
}

pub struct PlaylistState {
    pub url: String,
    pub title: String,
    pub selected: usize,
}

pub struct QualityState {
    pub url: String,
    pub title: String,
    pub playlist: PlaylistSelection,
    pub format: Format,
    pub options: Vec<Quality>,
    pub selected: usize,
    pub scroll_offset: usize,
    pub note: Option<String>,
}

pub struct DownloadViewState {
    pub job_id: JobId,
}

pub struct QueueState {
    pub selected: usize,
}

pub struct HistoryState {
    pub selected: usize,
}

pub struct CompleteState {
    pub summary: DownloadSummary,
}

pub struct UpdateResultState {
    pub outcome: YtDlpUpdateOutcome,
}

/// An error on screen: the raw text, what it was recognized as, how far it
/// is scrolled, and the outcome of copying it.
pub struct ErrorState {
    pub raw: String,
    pub diagnosis: Option<ErrorDiagnosis>,
    pub scroll_offset: u16,
    pub copy_status: Option<String>,
}

#[derive(Debug, Clone, Copy, PartialEq, Eq, Structural)]
pub enum SetupField {
    Destination,
    LocalPath,
    Remote,
    RemotePath,
    CookieSource,
    Browser,
    CookieFile,
    GenericConfirmation,
    ClipboardAutofill,
    BandwidthLimit,
    WriteSubtitles,
    EmbedSubtitles,
    SubtitleLanguages,
    AutoSubtitles,
    EmbedThumbnail,
    EmbedChapters,
}

/// The settings form. `cookie_source_index` is 0 for none, 1 for a browser
/// session and 2 for a cookie file.
pub struct SetupState {
    pub cloud: bool,
    pub field: SetupField,
    pub local_path: String,
    pub remote: String,
    pub remote_path: String,
    pub cookie_source_index: usize,
    pub browser_index: usize,
    pub cookie_file_path: String,
    pub confirm_generic_urls: bool,
    pub clipboard_autofill: bool,
    pub bandwidth_limit: String,
    pub write_subtitles: bool,
    pub embed_subtitles: bool,
    pub subtitle_languages: String,
    pub include_auto_subtitles: bool,
    pub embed_thumbnail: bool,
    pub embed_chapters: bool,
    pub scroll_offset: usize,
}

pub enum Screen {
    Setup(SetupState),
    Main(MainState),
    HowToUse,
    PreviewLoading(PreviewLoadingState),
    Preview(PreviewState),
    GenericConfirm(GenericConfirmState),
    Playlist(PlaylistState),
    Format(FormatState),
    Quality(QualityState),
    Download(DownloadViewState),
    Queue(QueueState),
    History(HistoryState),
    Complete(CompleteState),
    UpdateConfirm,
    UpdateRunning,
    UpdateResult(UpdateResultState),
    ExitConfirm,
    Error(ErrorState),
}

#[derive(Debug, Clone, Copy, PartialEq, Eq, Structural)]
pub enum AppAction {
    Continue,
    Quit,
}

// ---------------------------------------------------------------------
// Navigation
// ---------------------------------------------------------------------

/// The screen shown and the screens to go back to, the oldest first.
pub struct Navigation {
    pub current: Screen,
    back_stack: Vec<Screen>,
}

/// The input of the main screen that a return to it keeps: that of the
/// oldest main screen on the stack, else of the current one, else none.
pub open spec fn root_input(current: Screen, stack: Seq<Screen>) -> Seq<char> {
    match first_main(stack) {
        Some(input) => input,
        None => match current {
            Screen::Main(m) => m.url_input@,
            _ => Seq::empty(),
        },
    }
}

pub open spec fn first_main(stack: Seq<Screen>) -> Option<Seq<char>>
    decreases stack.len(),
{
    if stack.len() == 0 {
        None
    } else {
        match stack[0] {
            Screen::Main(m) => Some(m.url_input@),
            _ => first_main(stack.drop_first()),
        }
    }
}

pub open spec fn main_with(input: Seq<char>, s: Screen) -> bool {
    s matches Screen::Main(m) && m.url_input@ == input
}

impl Navigation {
    pub closed spec fn stack(&self) -> Seq<Screen> {
        self.back_stack@
    }

    /// The screen shown.
    pub closed spec fn shown(&self) -> Screen {
        self.current
    }

    /// Starts at `current` with nothing to go back to.
    pub fn new(current: Screen) -> (n: Navigation)
        ensures
            n.shown() == current,
            n.stack().len() == 0,
    {
        Navigation { current, back_stack: Vec::new() }
    }

    /// Shows `screen`; the screen it covers can be gone back to.
    pub fn push(&mut self, screen: Screen)
        ensures
            final(self).shown() == screen,
            final(self).stack() == old(self).stack().push(old(self).shown()),
    {
        let mut previous = screen;
        core::mem::swap(&mut self.current, &mut previous);
        self.back_stack.push(previous);
    }

    /// Shows `screen` in place of the current one.
    pub fn replace(&mut self, screen: Screen)
        ensures
            final(self).shown() == screen,
            final(self).stack() == old(self).stack(),
    {
        self.current = screen;
    }

    /// Goes back to the previous screen; `false`, and nothing changes,
    /// where there is none.
    pub fn back(&mut self) -> (r: bool)
        ensures
            r == (old(self).stack().len() > 0),
            r ==> final(self).shown() == old(self).stack().last() && final(self).stack()
                == old(self).stack().drop_last(),
            !r ==> final(self).shown() == old(self).shown() && final(self).stack() == old(self).stack(),
    {
        match self.back_stack.pop() {
            Some(previous) => {
                self.current = previous;
                true
            },
            None => false,
        }
    }

    /// Returns to the main screen with nothing to go back to, keeping the
    /// main screen's input unless `clear_input`.
    pub fn return_to_main(&mut self, clear_input: bool)
        ensures
            final(self).stack().len() == 0,
            main_with(
                if clear_input {
                    Seq::empty()
                } else {
                    root_input(old(self).shown(), old(self).stack())
                },
                final(self).shown(),
            ),
    {
        let ghost old_stack = self.back_stack@;
        let ghost old_current = self.current;
        let ghost expected = root_input(old_current, old_stack);
        let mut rest: Vec<Screen> = Vec::new();
        core::mem::swap(&mut rest, &mut self.back_stack);
        let mut found: Option<MainState> = None;
        while rest.len() > 0 && found.is_none()
            invariant
                found is None ==> first_main(old_stack) == first_main(rest@),
                found matches Some(m) ==> first_main(old_stack) == Some(m.url_input@),
                self.back_stack@.len() == 0,
            decreases rest@.len(),
        {
            let ghost before = rest@;
            let screen = rest.remove(0);
            assert(before.drop_first() =~= rest@);
            match screen {
                Screen::Main(m) => {
                    found = Some(m);
                },
                _ => {},
            }
        }
        let main = match found {
            Some(m) => m,
            None => {
                assert(rest@.len() == 0);
                let mut current = Screen::HowToUse;
                core::mem::swap(&mut current, &mut self.current);
                assert(current == old_current);
                match current {
                    Screen::Main(m) => m,
                    _ => {
                        let m = MainState::default();
                        assert(m.url_input@ =~= Seq::<char>::empty());
                        m
                    },
                }
            },
        };
        assert(main.url_input@ == expected);
        let main = if clear_input {
            let m = MainState::default();
            assert(m.url_input@ =~= Seq::<char>::empty());
            m
        } else {
            main
        };
        self.current = Screen::Main(main);
    }

    /// Shows an error over the main screen, so that going back from it
    /// always leads there.
    pub fn show_error(&mut self, state: ErrorState)
        ensures
            final(self).shown() == Screen::Error(state),
            final(self).stack().len() == 1,
            main_with(root_input(old(self).shown(), old(self).stack()), final(self).stack()[0]),
    {
        self.return_to_main(false);
        self.push(Screen::Error(state));
    }
}

/// Going back undoes showing a screen.
pub proof fn lemma_back_undoes_push(current: Screen, stack: Seq<Screen>, shown: Screen)
    ensures
        stack.push(current).len() > 0,
        stack.push(current).last() == current,
        stack.push(current).drop_last() == stack,
{
    assert(stack.push(current).drop_last() =~= stack);
}

// ---------------------------------------------------------------------
// The error screen
// ---------------------------------------------------------------------

pub open spec fn opt_view(o: Option<String>) -> Option<Seq<char>> {
    match o {
        Some(s) => Some(s@),
        None => None,
    }
}

/// The full diagnostics: what the error was recognized as and the advice,
/// then the raw error.
pub open spec fn diagnostic_spec(raw: Seq<char>, diagnosis: Option<ErrorDiagnosis>) -> Seq<char> {
    (match diagnosis {
        Some(d) => d.summary@ + "\n\nSuggested action:\n"@ + d.advice@ + "\n\n"@,
        None => Seq::empty(),
    }) + "Raw error:\n"@ + raw
}

/// The screen rows a line of `len` characters takes at 80 per row.
pub open spec fn line_rows(len: nat) -> nat {
    if len == 0 {
        1
    } else {
        ((len + 79) / 80) as nat
    }
}

/// Rows of the complete lines so far, the length of the open line, and
/// whether its last character is a carriage return; lines end at `\n`,
/// and a `\r` before it belongs to the line end (`str::lines`).
pub open spec fn row_scan(s: Seq<char>) -> (nat, nat, bool)
    decreases s.len(),
{
    if s.len() == 0 {
        (0, 0, false)
    } else {
        let (rows, open, cr) = row_scan(s.drop_last());
        if s.last() == '\n' {
            (rows + line_rows(if cr {
                (open - 1) as nat
            } else {
                open
            }), 0, false)
        } else {
            (rows, open + 1, s.last() == '\r')
        }
    }
}

/// The rows a text takes, a final line without line end included.
pub open spec fn text_rows(s: Seq<char>) -> nat {
    let (rows, open, _) = row_scan(s);
    if open > 0 {
        rows + line_rows(open)
    } else {
        rows
    }
}

/// How far the diagnostics can be scrolled: six rows stay in view.
pub open spec fn max_scroll_of(text: Seq<char>) -> u16 {
    let extra = if text_rows(text) > 6 {
        (text_rows(text) - 6) as nat
    } else {
        0
    };
    if extra > u16::MAX {
        u16::MAX
    } else {
        extra as u16
    }
}

proof fn lemma_line_rows(len: nat)
    ensures
        line_rows(len) <= len + 1,
        line_rows(len) >= 1,
        len > 0 ==> line_rows(len) == len / 80 + if len % 80 > 0 {
            1nat
        } else {
            0nat
        },
{
    if len > 0 {
        assert((len + 79) / 80 <= len) by (nonlinear_arith)
            requires
                len >= 1,
        ;
        assert((len + 79) / 80 >= 1) by (nonlinear_arith)
            requires
                len >= 1,
        ;
        assert((len + 79) / 80 == len / 80 + if len % 80 > 0 {
            1nat
        } else {
            0nat
        }) by (nonlinear_arith)
            requires
                len >= 1,
        ;
    }
}

proof fn lemma_row_scan(s: Seq<char>)
    ensures
        row_scan(s).2 ==> row_scan(s).1 > 0,
        row_scan(s).0 + row_scan(s).1 <= s.len(),
    decreases s.len(),
{
    if s.len() > 0 {
        lemma_row_scan(s.drop_last());
        let (rows, open, cr) = row_scan(s.drop_last());
        lemma_line_rows(open);
        if cr {
            lemma_line_rows((open - 1) as nat);
        }
    }
}

/// The error screen for `raw`, freshly opened: the text, its diagnosis
/// against the installed yt-dlp, at the top, with nothing copied yet.
pub open spec fn error_screen_for(e: ErrorState, raw: String, report: DependencyReport) -> bool {
    &&& e.raw == raw
    &&& e.scroll_offset == 0
    &&& e.copy_status is None
    &&& match diagnosis_of(raw@, opt_view(report.yt_dlp_version), report.yt_dlp_freshness) {
        None => e.diagnosis is None,
        Some((cause, summary, advice)) => e.diagnosis matches Some(d) && d.cause == cause
            && d.summary@ == summary && d.advice@ == advice,
    }
}

impl ErrorState {
    /// An error on screen, recognized against the installed yt-dlp.
    pub fn new(raw: String, report: &DependencyReport) -> (e: ErrorState)
        ensures
            error_screen_for(e, raw, *report),
    {
        let version = report.version(Tool::YtDlp);
        let diagnosis = diagnose_ytdlp_error(raw.as_str(), version, report.yt_dlp_freshness);
        ErrorState { raw, diagnosis, scroll_offset: 0, copy_status: None }
    }

    /// The diagnostics as copied to the clipboard.
    pub fn diagnostic_text(&self) -> (r: String)
        ensures
            r@ == diagnostic_spec(self.raw@, self.diagnosis),
    {
        let mut r = String::new();
        match &self.diagnosis {
            Some(d) => {
                push_str(&mut r, d.summary.as_str());
                push_str(&mut r, "\n\nSuggested action:\n");
                push_str(&mut r, d.advice.as_str());
                push_str(&mut r, "\n\n");
            },
            None => {},
        }
        push_str(&mut r, "Raw error:\n");
        push_str(&mut r, self.raw.as_str());
        r
    }

    /// How far the diagnostics can be scrolled.
    pub fn max_scroll(&self) -> (r: u16)
        ensures
            r == max_scroll_of(diagnostic_spec(self.raw@, self.diagnosis)),
    {
        let text = self.diagnostic_text();
        let v = chars_of(text.as_str());
        let mut rows: usize = 0;
        let mut open: usize = 0;
        let mut cr = false;
        let mut i: usize = 0;
        while i < v.len()
            invariant
                i <= v.len(),
                (rows as nat, open as nat, cr) == row_scan(v@.subrange(0, i as int)),
                rows + open <= i,
                cr ==> open > 0,
            decreases v.len() - i,
        {
            proof {
                lemma_row_scan(v@.subrange(0, i as int));
                assert(v@.subrange(0, i + 1).drop_last() =~= v@.subrange(0, i as int));
            }
            let c = v[i];
            if c == '\n' {
                let len = if cr {
                    open - 1
                } else {
                    open
                };
                proof {
                    lemma_line_rows(len as nat);
                }
                let line = if len == 0 {
                    1
                } else {
                    len / 80 + if len % 80 > 0 {
                        1
                    } else {
                        0
                    }
                };
                rows = rows + line;
                open = 0;
                cr = false;
            } else {
                open = open + 1;
                cr = c == '\r';
            }
            i = i + 1;
        }
        assert(v@.subrange(0, v.len() as int) =~= v@);
        proof {
            lemma_row_scan(v@);
        }
        proof {
            lemma_line_rows(open as nat);
        }
        let total = if open > 0 {
            rows + (open / 80 + if open % 80 > 0 {
                1
            } else {
                0
            })
        } else {
            rows
        };
        let extra = if total > 6 {
            total - 6
        } else {
            0
        };
        if extra > u16::MAX as usize {
            u16::MAX
        } else {
            extra as u16
        }
    }

    /// Scrolls up (negative) or down, within the text.
    pub fn scroll_by(&mut self, amount: i16)
        ensures
            final(self).raw == old(self).raw,
            final(self).diagnosis == old(self).diagnosis,
            final(self).copy_status == old(self).copy_status,
            final(self).scroll_offset == if amount < 0 {
                if old(self).scroll_offset + amount < 0 {
                    0
                } else {
                    (old(self).scroll_offset + amount) as u16
                }
            } else {
                let down = if old(self).scroll_offset + amount > u16::MAX {
                    u16::MAX as int
                } else {
                    old(self).scroll_offset + amount
                };
                let limit = max_scroll_of(diagnostic_spec(old(self).raw@, old(self).diagnosis));
                if down > limit {
                    limit
                } else {
                    down as u16
                }
            },
    {
        if amount < 0 {
            let up: u16 = (0i32 - amount as i32) as u16;
            self.scroll_offset = if self.scroll_offset < up {
                0
            } else {
                self.scroll_offset - up
            };
        } else {
            let step = amount as u16;
            let down = if self.scroll_offset > u16::MAX - step {
                u16::MAX
            } else {
                self.scroll_offset + step
            };
            let limit = self.max_scroll();
            self.scroll_offset = if down > limit {
                limit
            } else {
                down
            };
        }
    }
}

// ---------------------------------------------------------------------
// Helpers of the screens
// ---------------------------------------------------------------------

/// A URL taken from the clipboard for an empty main input: trimmed, valid,
/// and not the one taken last time.
pub open spec fn clipboard_candidate(raw: Seq<char>, input: Seq<char>, last: Option<Seq<char>>) -> Option<Seq<char>> {
    let candidate = trim(raw);
    if input.len() > 0 || candidate.len() == 0 || last == Some(candidate) || platform_of(candidate)
        is None {
        None
    } else {
        Some(candidate)
    }
}

pub fn clipboard_url_candidate(raw: &str, current_input: &str, last_candidate: Option<&str>) -> (r:
    Option<String>)
    ensures
        opt_view(r) == clipboard_candidate(
            raw@,
            current_input@,
            match last_candidate {
                Some(l) => Some(l@),
                None => None,
            },
        ),
{
    let candidate = trim_str(raw);
    if current_input.unicode_len() > 0 || candidate.unicode_len() == 0 {
        return None;
    }
    match last_candidate {
        Some(last) => {
            if str_eq(last, candidate.as_str()) {
                return None;
            }
        },
        None => {},
    }
    match detect_platform(candidate.as_str()) {
        Ok(_) => Some(candidate),
        Err(_) => None,
    }
}

/// Moves a selection among `count` choices, wrapping around.
pub fn move_selection(selection: &mut usize, count: usize, forward: bool)
    requires
        count > 0,
        forward ==> *old(selection) + 1 <= usize::MAX,
        !forward ==> *old(selection) < count || *old(selection) + count - 1 <= usize::MAX,
    ensures
        *final(selection) == if forward {
            (*old(selection) + 1) % (count as int)
        } else {
            (*old(selection) + count - 1) % (count as int)
        },
{
    let s = *selection;
    if forward {
        *selection = (s + 1) % count;
    } else if s < count {
        assert((s + count - 1) % (count as int) == if s == 0 {
            count - 1
        } else {
            s - 1
        }) by (nonlinear_arith)
            requires
                s < count,
        ;
        *selection = if s == 0 {
            count - 1
        } else {
            s - 1
        };
    } else {
        *selection = (s + (count - 1)) % count;
    }
}

/// The resolution presets that the preview lists, lowest first.
pub open spec fn listed_presets(resolutions: Seq<Seq<char>>) -> Seq<Quality> {
    seq![Quality::P720, Quality::P1080, Quality::P1440, Quality::P2160].filter(
        |q: Quality| resolutions.contains(q.label_text()),
    )
}

fn lists_label(resolutions: &Vec<String>, label: &str) -> (r: bool)
    ensures
        r == views(resolutions@).contains(label@),
{
    let mut i: usize = 0;
    while i < resolutions.len()
        invariant
            i <= resolutions.len(),
            forall|j: int| 0 <= j < i ==> resolutions@[j]@ != label@,
        decreases resolutions.len() - i,
    {
        if str_eq(resolutions[i].as_str(), label) {
            assert(views(resolutions@)[i as int] == label@);
            return true;
        }
        i = i + 1;
    }
    proof {
        if views(resolutions@).contains(label@) {
            let j = choose|j: int| 0 <= j < views(resolutions@).len() && views(resolutions@)[j] == label@;
            assert(resolutions@[j]@ == label@);
        }
    }
    false
}

pub fn metadata_qualities(preview: &MetadataPreview) -> (r: Vec<Quality>)
    ensures
        r@ == listed_presets(views(preview.resolutions@)),
{
    let mut r: Vec<Quality> = Vec::new();
    let mut i: usize = 0;
    let ghost presets = seq![Quality::P720, Quality::P1080, Quality::P1440, Quality::P2160];
    let ghost pred = |q: Quality| views(preview.resolutions@).contains(q.label_text());
    while i < 4
        invariant
            i <= 4,
            presets == seq![Quality::P720, Quality::P1080, Quality::P1440, Quality::P2160],
            pred == (|q: Quality| views(preview.resolutions@).contains(q.label_text())),
            r@ == presets.subrange(0, i as int).filter(pred),
        decreases 4 - i,
    {
        let q = Quality::RESOLUTIONS[i];
        assert(q == presets[i as int]);
        proof {
            let sub = presets.subrange(0, i + 1);
            assert(sub.drop_last() =~= presets.subrange(0, i as int));
            assert(sub.last() == q);
            reveal(Seq::filter);
            assert(presets.subrange(0, i as int).push(q) =~= sub);
        }
        if lists_label(&preview.resolutions, q.label()) {
            r.push(q);
        }
        i = i + 1;
    }
    assert(presets.subrange(0, 4) =~= presets);
    r
}

/// The first visible row of a list of quality options, six rows high,
/// after the selection moved.
pub open spec fn synced_scroll(selected: usize, scroll: usize) -> usize {
    if selected < scroll {
        selected
    } else if selected - scroll >= 6 {
        (selected + 1 - 6) as usize
    } else {
        scroll
    }
}

impl QualityState {
    /// Keeps the selection in view.
    pub fn sync_scroll(&mut self)
        ensures
            final(self).scroll_offset == synced_scroll(old(self).selected, old(self).scroll_offset),
            final(self).selected == old(self).selected,
            final(self).options == old(self).options,
            final(self).format == old(self).format,
            final(self).playlist == old(self).playlist,
            final(self).url == old(self).url,
            final(self).title == old(self).title,
            final(self).note == old(self).note,
    {
        if self.selected < self.scroll_offset {
            self.scroll_offset = self.selected;
        } else if self.selected - self.scroll_offset >= 6 {
            self.scroll_offset = self.selected - 5;
        }
    }
}

/// At most `max_chars` characters, with an ellipsis where some were cut.
pub open spec fn truncated(value: Seq<char>, max_chars: nat) -> Seq<char> {
    if value.len() > max_chars {
        value.take(max_chars as int).push('…')
    } else {
        value
    }
}

pub fn truncate_text(value: &str, max_chars: usize) -> (r: String)
    ensures
        r@ == truncated(value@, max_chars as nat),
{
    let v = chars_of(value);
    if v.len() > max_chars {
        let mut r = string_from_chars(crate::text::slice_vec(v.as_slice(), 0, max_chars).as_slice());
        r.push('…');
        r
    } else {
        string_from_chars(v.as_slice())
    }
}

/// Where downloads go, for the status line.
pub open spec fn destination_text(d: Destination) -> Seq<char> {
    match d {
        Destination::Local { path } => "local: "@ + path@,
        Destination::Cloud { remote, .. } => "cloud: Google Drive ("@ + remote@ + ")"@,
    }
}

pub fn destination_label(config: &Config) -> (r: String)
    ensures
        r@ == destination_text(config.destination),
{
    match &config.destination {
        Destination::Local { path } => {
            let mut r = owned("local: ");
            push_str(&mut r, path.as_str());
            r
        },
        Destination::Cloud { remote, .. } => {
            let mut r = owned("cloud: Google Drive (");
            push_str(&mut r, remote.as_str());
            push_str(&mut r, ")");
            r
        },
    }
}

/// How downloads authenticate, for the status line.
pub fn authentication_label(config: &Config) -> (r: String)
    ensures
        r@ == "auth: "@ + config.cookies.label_spec(),
{
    let mut r = owned("auth: ");
    let label = config.cookies.label();
    push_str(&mut r, label.as_str());
    r
}

// ---------------------------------------------------------------------
// The settings form
// ---------------------------------------------------------------------

/// The fields of the form, in order: the destination and its details, the
/// cookie source and its detail, then the switches and media options.
pub open spec fn setup_fields(cloud: bool, cookie_source_index: usize) -> Seq<SetupField> {
    seq![SetupField::Destination] + (if cloud {
        seq![SetupField::Remote, SetupField::RemotePath]
    } else {
        seq![SetupField::LocalPath]
    }) + seq![SetupField::CookieSource] + (if cookie_source_index == 1 {
        seq![SetupField::Browser]
    } else if cookie_source_index == 2 {
        seq![SetupField::CookieFile]
    } else {
        Seq::empty()
    }) + seq![
        SetupField::GenericConfirmation,
        SetupField::ClipboardAutofill,
        SetupField::BandwidthLimit,
        SetupField::WriteSubtitles,
        SetupField::EmbedSubtitles,
        SetupField::SubtitleLanguages,
        SetupField::AutoSubtitles,
        SetupField::EmbedThumbnail,
        SetupField::EmbedChapters,
    ]
}

/// The position of `f` in `s`, or 0 where it is absent.
pub open spec fn position_of(s: Seq<SetupField>, f: SetupField) -> nat
    decreases s.len(),
{
    if s.len() == 0 {
        0
    } else if s[0] == f {
        0
    } else if !s.drop_first().contains(f) {
        0
    } else {
        1 + position_of(s.drop_first(), f)
    }
}

proof fn lemma_position_of(s: Seq<SetupField>, f: SetupField)
    ensures
        s.len() > 0 ==> position_of(s, f) < s.len(),
        s.contains(f) ==> s[position_of(s, f) as int] == f,
        s.contains(f) ==> forall|j: int| 0 <= j < position_of(s, f) ==> s[j] != f,
        !s.contains(f) ==> position_of(s, f) == 0,
    decreases s.len(),
{
    if s.len() > 0 && s[0] != f {
        lemma_position_of(s.drop_first(), f);
        if s.contains(f) {
            let k = choose|k: int| 0 <= k < s.len() && s[k] == f;
            assert(s.drop_first()[k - 1] == f);
            assert forall|j: int| 0 <= j < position_of(s, f) implies s[j] != f by {
                if j > 0 {
                    assert(s[j] == s.drop_first()[j - 1]);
                }
            }
        } else {
            assert forall|j: int| 0 <= j < s.drop_first().len() implies s.drop_first()[j] != f by {
                assert(s.drop_first()[j] == s[j + 1]);
            }
        }
    }
}

/// The form's fields other than the texts and the selected field and
/// scroll are the same.
pub open spec fn same_choices(a: SetupState, b: SetupState) -> bool {
    &&& a.cloud == b.cloud
    &&& a.cookie_source_index == b.cookie_source_index
    &&& a.browser_index == b.browser_index
    &&& a.confirm_generic_urls == b.confirm_generic_urls
    &&& a.clipboard_autofill == b.clipboard_autofill
    &&& a.write_subtitles == b.write_subtitles
    &&& a.embed_subtitles == b.embed_subtitles
    &&& a.include_auto_subtitles == b.include_auto_subtitles
    &&& a.embed_thumbnail == b.embed_thumbnail
    &&& a.embed_chapters == b.embed_chapters
}

pub open spec fn same_texts(a: SetupState, b: SetupState) -> bool {
    &&& a.local_path == b.local_path
    &&& a.remote == b.remote
    &&& a.remote_path == b.remote_path
    &&& a.cookie_file_path == b.cookie_file_path
    &&& a.bandwidth_limit == b.bandwidth_limit
    &&& a.subtitle_languages == b.subtitle_languages
}

/// The text of `field` after typing (`Some(c)`) or erasing (`None`), for a
/// text field; `None` where `field` holds no text.
pub open spec fn edited(text: Seq<char>, typed: Option<char>) -> Seq<char> {
    match typed {
        Some(c) => text.push(c),
        None => if text.len() > 0 {
            text.drop_last()
        } else {
            text
        },
    }
}

/// Each text of the form, edited where it is the selected field.
pub open spec fn texts_after(a: SetupState, b: SetupState, typed: Option<char>) -> bool {
    &&& b.local_path@ == if a.field == SetupField::LocalPath {
        edited(a.local_path@, typed)
    } else {
        a.local_path@
    }
    &&& b.remote@ == if a.field == SetupField::Remote {
        edited(a.remote@, typed)
    } else {
        a.remote@
    }
    &&& b.remote_path@ == if a.field == SetupField::RemotePath {
        edited(a.remote_path@, typed)
    } else {
        a.remote_path@
    }
    &&& b.cookie_file_path@ == if a.field == SetupField::CookieFile {
        edited(a.cookie_file_path@, typed)
    } else {
        a.cookie_file_path@
    }
    &&& b.bandwidth_limit@ == if a.field == SetupField::BandwidthLimit {
        edited(a.bandwidth_limit@, typed)
    } else {
        a.bandwidth_limit@
    }
    &&& b.subtitle_languages@ == if a.field == SetupField::SubtitleLanguages {
        edited(a.subtitle_languages@, typed)
    } else {
        a.subtitle_languages@
    }
}

fn erase_last(s: &mut String)
    ensures
        final(s)@ == edited(old(s)@, None),
{
    let v = chars_of(s.as_str());
    if v.len() > 0 {
        *s = string_from_chars(crate::text::slice_vec(v.as_slice(), 0, v.len() - 1).as_slice());
        assert(s@ =~= v@.drop_last());
    }
}

/// Texts joined with commas.
pub open spec fn join_commas(items: Seq<Seq<char>>) -> Seq<char>
    decreases items.len(),
{
    if items.len() == 0 {
        Seq::empty()
    } else if items.len() == 1 {
        items[0]
    } else {
        join_commas(items.drop_last()) + seq![','] + items.last()
    }
}

pub(crate) fn join_with_commas(items: &Vec<String>) -> (r: String)
    ensures
        r@ == join_commas(views(items@)),
{
    let mut r = String::new();
    let mut i: usize = 0;
    while i < items.len()
        invariant
            i <= items.len(),
            r@ == join_commas(views(items@).subrange(0, i as int)),
        decreases items.len() - i,
    {
        if i > 0 {
            r.push(',');
        }
        push_str(&mut r, items[i].as_str());
        proof {
            let sub = views(items@).subrange(0, i + 1);
            assert(sub.drop_last() =~= views(items@).subrange(0, i as int));
            if i == 0 {
                assert(r@ =~= sub[0]);
            }
        }
        i = i + 1;
    }
    assert(views(items@).subrange(0, items.len() as int) =~= views(items@));
    r
}

/// The pieces of `s` between commas.
pub open spec fn comma_pieces(s: Seq<char>) -> Seq<Seq<char>>
    decreases s.len(),
{
    let i = crate::text::index_where(s, crate::text::is_char(','));
    if i >= s.len() {
        seq![s]
    } else {
        seq![s.subrange(0, i as int)] + comma_pieces(s.subrange(i as int + 1, s.len() as int))
    }
}

/// The languages of a comma-separated list: each piece trimmed, the empty
/// ones dropped.
pub open spec fn languages_of(s: Seq<char>) -> Seq<Seq<char>> {
    comma_pieces(s).map_values(|p: Seq<char>| trim(p)).filter(|p: Seq<char>| p.len() > 0)
}

fn split_languages(s: &str) -> (r: Vec<String>)
    ensures
        views(r@) == languages_of(s@),
{
    let v = chars_of(s);
    let mut r: Vec<String> = Vec::new();
    let mut start: usize = 0;
    let ghost pred = |p: Seq<char>| p.len() > 0;
    let ghost tr = |p: Seq<char>| trim(p);
    proof {
        lemma_comma_pieces_from(v@, 0);
    }
    loop
        invariant
            start <= v.len(),
            v@ == s@,
            pred == (|p: Seq<char>| p.len() > 0),
            tr == (|p: Seq<char>| trim(p)),
            languages_of(v@) == views(r@) + comma_pieces(
                v@.subrange(start as int, v.len() as int),
            ).map_values(tr).filter(pred),
        decreases v.len() - start,
    {
        let ghost rest = v@.subrange(start as int, v.len() as int);
        let end = crate::text::index_of_char_from(v.as_slice(), ',', start);
        proof {
            crate::text::lemma_index_where(rest, crate::text::is_char(','));
        }
        let piece = crate::text::trim_vec(crate::text::slice_vec(v.as_slice(), start, end).as_slice());
        let ghost head = rest.subrange(0, end - start);
        assert(head =~= v@.subrange(start as int, end as int));
        proof {
            reveal(Seq::filter);
            lemma_filter_front(seq![trim(head)], pred);
        }
        if end == v.len() {
            proof {
                assert(comma_pieces(rest) == seq![rest]);
                assert(rest =~= head);
                assert(seq![rest].map_values(tr) =~= seq![trim(rest)]);
            }
            let ghost before = views(r@);
            assert(comma_pieces(rest).map_values(tr) =~= seq![trim(head)]);
            assert(piece@ == trim(head));
            assert(seq![trim(head)].filter(pred) == if pred(trim(head)) {
                seq![trim(head)]
            } else {
                Seq::<Seq<char>>::empty()
            });
            assert(comma_pieces(rest).map_values(tr).filter(pred) == if piece@.len() > 0 {
                seq![piece@]
            } else {
                Seq::<Seq<char>>::empty()
            });
            if piece.len() > 0 {
                r.push(string_from_chars(piece.as_slice()));
                assert(views(r@) =~= before.push(piece@));
                assert(views(r@) =~= before + seq![trim(head)]);
            } else {
                assert(views(r@) =~= before + Seq::<Seq<char>>::empty());
            }
            return r;
        }
        let ghost after = v@.subrange(end + 1, v.len() as int);
        proof {
            assert(rest.subrange(end - start + 1, rest.len() as int) =~= after);
            assert(comma_pieces(rest) == seq![head] + comma_pieces(after));
            assert((seq![head] + comma_pieces(after)).map_values(tr) =~= seq![trim(head)]
                + comma_pieces(after).map_values(tr));
            lemma_filter_concat(seq![trim(head)], comma_pieces(after).map_values(tr), pred);
        }
        let ghost before = views(r@);
        if piece.len() > 0 {
            r.push(string_from_chars(piece.as_slice()));
            assert(views(r@) =~= before.push(piece@));
        }
        start = end + 1;
    }
}

/// A language as the settings form keeps it: not empty, without
/// surrounding white space, and without a comma.
pub open spec fn plain_language(l: Seq<char>) -> bool {
    &&& l.len() > 0
    &&& trim(l) == l
    &&& forall|k: int| 0 <= k < l.len() ==> l[k] != ','
}

proof fn lemma_comma_pieces_plain(x: Seq<char>)
    requires
        forall|k: int| 0 <= k < x.len() ==> x[k] != ',',
    ensures
        comma_pieces(x) == seq![x],
{
    crate::text::lemma_index_where(x, crate::text::is_char(','));
    if crate::text::index_where(x, crate::text::is_char(',')) < x.len() {
        let i = crate::text::index_where(x, crate::text::is_char(',')) as int;
        assert(x[i] == ',');
    }
}

/// Splitting at a comma splits the pieces.
proof fn lemma_comma_pieces_join(x: Seq<char>, y: Seq<char>)
    ensures
        comma_pieces(x + seq![','] + y) == comma_pieces(x) + comma_pieces(y),
    decreases x.len(),
{
    let s = x + seq![','] + y;
    let comma = crate::text::is_char(',');
    crate::text::lemma_index_where(x, comma);
    let i = crate::text::index_where(x, comma) as int;
    if i < x.len() {
        assert forall|k: int| 0 <= k < i implies !comma(#[trigger] s[k]) by {
            assert(s[k] == x[k]);
        }
        assert(s[i] == x[i]);
        crate::text::lemma_index_where_unique(s, comma, i);
        let rest = x.subrange(i + 1, x.len() as int);
        assert(s.subrange(i + 1, s.len() as int) =~= rest + seq![','] + y);
        assert(s.subrange(0, i) =~= x.subrange(0, i));
        lemma_comma_pieces_join(rest, y);
        assert(comma_pieces(x) == seq![x.subrange(0, i)] + comma_pieces(rest));
        assert(comma_pieces(s) =~= comma_pieces(x) + comma_pieces(y));
    } else {
        assert forall|k: int| 0 <= k < x.len() implies !comma(#[trigger] s[k]) by {
            assert(s[k] == x[k]);
        }
        assert(s[x.len() as int] == ',');
        crate::text::lemma_index_where_unique(s, comma, x.len() as int);
        assert(s.subrange(0, x.len() as int) =~= x);
        assert(s.subrange(x.len() as int + 1, s.len() as int) =~= y);
        assert(comma_pieces(x) == seq![x]);
        assert(comma_pieces(s) =~= comma_pieces(x) + comma_pieces(y));
    }
}

proof fn lemma_pieces_of_joined(langs: Seq<Seq<char>>)
    requires
        langs.len() > 0,
        forall|i: int| 0 <= i < langs.len() ==> plain_language(#[trigger] langs[i]),
    ensures
        comma_pieces(join_commas(langs)) == langs,
    decreases langs.len(),
{
    if langs.len() == 1 {
        lemma_comma_pieces_plain(langs[0]);
        assert(seq![langs[0]] =~= langs);
    } else {
        let front = langs.drop_last();
        assert forall|i: int| 0 <= i < front.len() implies plain_language(#[trigger] front[i]) by {
            assert(front[i] == langs[i]);
        }
        lemma_pieces_of_joined(front);
        lemma_comma_pieces_join(join_commas(front), langs.last());
        lemma_comma_pieces_plain(langs.last());
        assert(front + seq![langs.last()] =~= langs);
    }
}

/// The subtitle languages survive the settings form: the form shows them
/// joined with commas, and saving the form splits that text back into the
/// same languages, where each is a plain language.
pub proof fn lemma_languages_survive_the_form(langs: Seq<Seq<char>>)
    requires
        forall|i: int| 0 <= i < langs.len() ==> plain_language(#[trigger] langs[i]),
    ensures
        languages_of(join_commas(langs)) == langs,
{
    let tr = |p: Seq<char>| trim(p);
    let pred = |p: Seq<char>| p.len() > 0;
    if langs.len() == 0 {
        assert(join_commas(langs) =~= Seq::<char>::empty());
        assert(comma_pieces(Seq::<char>::empty()) == seq![Seq::<char>::empty()]);
        assert(seq![Seq::<char>::empty()].map_values(tr) =~= seq![trim(Seq::<char>::empty())]);
        crate::text::lemma_trim_empty(Seq::<char>::empty());
        lemma_filter_front(seq![trim(Seq::<char>::empty())], pred);
        assert(languages_of(join_commas(langs)) =~= langs);
    } else {
        lemma_pieces_of_joined(langs);
        assert(langs.map_values(tr) =~= langs) by {
            assert forall|i: int| 0 <= i < langs.len() implies langs.map_values(tr)[i] == langs[i] by {
                assert(plain_language(langs[i]));
            }
        }
        lemma_filter_keeps_all(langs, pred);
    }
}

proof fn lemma_filter_keeps_all(a: Seq<Seq<char>>, pred: spec_fn(Seq<char>) -> bool)
    requires
        forall|i: int| 0 <= i < a.len() ==> pred(#[trigger] a[i]),
    ensures
        a.filter(pred) == a,
    decreases a.len(),
{
    reveal(Seq::filter);
    if a.len() > 0 {
        let front = a.drop_last();
        assert forall|i: int| 0 <= i < front.len() implies pred(#[trigger] front[i]) by {
            assert(front[i] == a[i]);
        }
        lemma_filter_keeps_all(front, pred);
        assert(front.push(a.last()) =~= a);
    } else {
        assert(a =~= Seq::<Seq<char>>::empty());
    }
}

proof fn lemma_comma_pieces_from(s: Seq<char>, i: int)
    requires
        0 <= i <= s.len(),
    ensures
        s.subrange(0, s.len() as int) == s,
{
    assert(s.subrange(0, s.len() as int) =~= s);
}

proof fn lemma_filter_front(a: Seq<Seq<char>>, pred: spec_fn(Seq<char>) -> bool)
    requires
        a.len() == 1,
    ensures
        a.filter(pred) == if pred(a[0]) {
            a
        } else {
            Seq::empty()
        },
{
    reveal(Seq::filter);
    assert(a.drop_last() =~= Seq::<Seq<char>>::empty());
    assert(Seq::<Seq<char>>::empty().filter(pred) =~= Seq::<Seq<char>>::empty());
    if pred(a[0]) {
        assert(Seq::<Seq<char>>::empty().push(a[0]) =~= a);
    }
}

proof fn lemma_filter_concat(a: Seq<Seq<char>>, b: Seq<Seq<char>>, pred: spec_fn(Seq<char>) -> bool)
    ensures
        (a + b).filter(pred) == a.filter(pred) + b.filter(pred),
{
    Seq::filter_distributes_over_add(a, b, pred);
}

impl SetupState {
    /// The form filled in from the configuration. A cloud destination is
    /// shown as such only where rclone is available; the local path then
    /// shows the user's download directory.
    pub fn from_config(config: &Config, rclone_available: bool) -> (st: SetupState)
        ensures
            st.field == SetupField::Destination,
            st.scroll_offset == 0,
            st.cookie_source_index == match config.cookies {
                CookieSource::Disabled => 0usize,
                CookieSource::Browser { .. } => 1,
                CookieSource::File { .. } => 2,
            },
            match config.cookies {
                CookieSource::Browser { browser } => st.browser_index < 8
                    && Browser::all_spec()[st.browser_index as int] == browser,
                _ => st.browser_index == 0,
            },
            st.cookie_file_path@ == match config.cookies {
                CookieSource::File { path } => path@,
                _ => Seq::empty(),
            },
            st.confirm_generic_urls == config.confirm_generic_urls,
            st.clipboard_autofill == config.clipboard_autofill,
            st.bandwidth_limit@ == match config.bandwidth_limit {
                Some(limit) => limit@,
                None => Seq::empty(),
            },
            st.write_subtitles == config.media.write_subtitles,
            st.embed_subtitles == config.media.embed_subtitles,
            st.subtitle_languages@ == join_commas(views(config.media.subtitle_languages@)),
            st.include_auto_subtitles == config.media.include_auto_subtitles,
            st.embed_thumbnail == config.media.embed_thumbnail,
            st.embed_chapters == config.media.embed_chapters,
            match config.destination {
                Destination::Local { path } => {
                    &&& !st.cloud
                    &&& st.local_path@ == path@
                    &&& st.remote@ == "gdrive"@
                    &&& st.remote_path@ == "dloor"@
                },
                Destination::Cloud { remote, path } => {
                    &&& st.cloud == rclone_available
                    &&& st.local_path@.len() > 0
                    &&& st.remote@ == remote@
                    &&& st.remote_path@ == path@
                },
            },
    {
        let browser_index = match &config.cookies {
            CookieSource::Browser { browser } => browser.position(),
            _ => 0,
        };
        let cookie_source_index: usize = match &config.cookies {
            CookieSource::Disabled => 0,
            CookieSource::Browser { .. } => 1,
            CookieSource::File { .. } => 2,
        };
        let cookie_file_path = match &config.cookies {
            CookieSource::File { path } => copy_string(path),
            _ => String::new(),
        };
        let bandwidth_limit = match &config.bandwidth_limit {
            Some(limit) => owned(limit.as_str()),
            None => String::new(),
        };
        let (cloud, local_path, remote, remote_path) = match &config.destination {
            Destination::Local { path } => (
                false,
                copy_string(path),
                owned("gdrive"),
                owned("dloor"),
            ),
            Destination::Cloud { remote, path } => (
                rclone_available,
                default_download_dir(),
                copy_string(remote),
                copy_string(path),
            ),
        };
        SetupState {
            cloud,
            field: SetupField::Destination,
            local_path,
            remote,
            remote_path,
            cookie_source_index,
            browser_index,
            cookie_file_path,
            confirm_generic_urls: config.confirm_generic_urls,
            clipboard_autofill: config.clipboard_autofill,
            bandwidth_limit,
            write_subtitles: config.media.write_subtitles,
            embed_subtitles: config.media.embed_subtitles,
            subtitle_languages: join_with_commas(&config.media.subtitle_languages),
            include_auto_subtitles: config.media.include_auto_subtitles,
            embed_thumbnail: config.media.embed_thumbnail,
            embed_chapters: config.media.embed_chapters,
            scroll_offset: 0,
        }
    }

    /// The fields the form shows.
    pub fn fields(&self) -> (r: Vec<SetupField>)
        ensures
            r@ == setup_fields(self.cloud, self.cookie_source_index),
    {
        let mut fields: Vec<SetupField> = Vec::new();
        fields.push(SetupField::Destination);
        if self.cloud {
            fields.push(SetupField::Remote);
            fields.push(SetupField::RemotePath);
        } else {
            fields.push(SetupField::LocalPath);
        }
        fields.push(SetupField::CookieSource);
        if self.cookie_source_index == 1 {
            fields.push(SetupField::Browser);
        } else if self.cookie_source_index == 2 {
            fields.push(SetupField::CookieFile);
        }
        fields.push(SetupField::GenericConfirmation);
        fields.push(SetupField::ClipboardAutofill);
        fields.push(SetupField::BandwidthLimit);
        fields.push(SetupField::WriteSubtitles);
        fields.push(SetupField::EmbedSubtitles);
        fields.push(SetupField::SubtitleLanguages);
        fields.push(SetupField::AutoSubtitles);
        fields.push(SetupField::EmbedThumbnail);
        fields.push(SetupField::EmbedChapters);
        assert(fields@ =~= setup_fields(self.cloud, self.cookie_source_index));
        fields
    }

    /// Selects the next (or previous) field, wrapping around; a selected
    /// field that is not shown counts as the first.
    #[verifier::spinoff_prover]
    #[verifier::rlimit(40)]
    pub fn move_field(&mut self, forward: bool)
        ensures
            ({
                let fields = setup_fields(old(self).cloud, old(self).cookie_source_index);
                let current = position_of(fields, old(self).field) as int;
                let next = if forward {
                    (current + 1) % (fields.len() as int)
                } else {
                    (current + fields.len() - 1) % (fields.len() as int)
                };
                &&& final(self).field == fields[next]
                &&& final(self).scroll_offset == if next > 5 {
                    next - 5
                } else {
                    0
                }
            }),
            same_choices(*final(self), *old(self)),
            same_texts(*final(self), *old(self)),
    {
        let fields = self.fields();
        let mut i: usize = 0;
        while i < fields.len() && fields[i] != self.field
            invariant
                i <= fields.len(),
                forall|j: int| 0 <= j < i ==> fields@[j] != self.field,
            decreases fields.len() - i,
        {
            i = i + 1;
        }
        let current: usize = if i < fields.len() {
            i
        } else {
            0
        };
        proof {
            lemma_position_of(fields@, self.field);
            if i < fields.len() {
                assert(fields@[i as int] == self.field);
                assert(fields@.contains(self.field));
            } else {
                assert(!fields@.contains(self.field));
            }
        }
        let n = fields.len();
        let next = if forward {
            if current + 1 == n {
                0
            } else {
                current + 1
            }
        } else if current == 0 {
            n - 1
        } else {
            current - 1
        };
        proof {
            assert(current == position_of(fields@, self.field));
            assert(forward ==> next == (current + 1) % (n as int)) by (nonlinear_arith)
                requires
                    current < n,
                    forward ==> next == if current + 1 == n {
                        0
                    } else {
                        current + 1
                    },
            ;
            assert(!forward ==> next == (current + n - 1) % (n as int)) by (nonlinear_arith)
                requires
                    current < n,
                    !forward ==> next == if current == 0 {
                        n - 1
                    } else {
                        current - 1
                    },
            ;
        }
        self.field = fields[next];
        self.scroll_offset = if next > 5 {
            next - 5
        } else {
            0
        };
    }

    pub fn next_field(&mut self)
        ensures
            ({
                let fields = setup_fields(old(self).cloud, old(self).cookie_source_index);
                let next = (position_of(fields, old(self).field) as int + 1) % (fields.len() as int);
                &&& final(self).field == fields[next]
                &&& final(self).scroll_offset == if next > 5 {
                    next - 5
                } else {
                    0
                }
            }),
            same_choices(*final(self), *old(self)),
            same_texts(*final(self), *old(self)),
    {
        self.move_field(true);
    }

    pub fn prev_field(&mut self)
        ensures
            ({
                let fields = setup_fields(old(self).cloud, old(self).cookie_source_index);
                let next = (position_of(fields, old(self).field) as int + fields.len() - 1) % (
                fields.len() as int);
                &&& final(self).field == fields[next]
                &&& final(self).scroll_offset == if next > 5 {
                    next - 5
                } else {
                    0
                }
            }),
            same_choices(*final(self), *old(self)),
            same_texts(*final(self), *old(self)),
    {
        self.move_field(false);
    }

    /// Types a character into the selected text field.
    pub fn push_char(&mut self, ch: char)
        ensures
            texts_after(*old(self), *final(self), Some(ch)),
            same_choices(*final(self), *old(self)),
            final(self).field == old(self).field,
            final(self).scroll_offset == old(self).scroll_offset,
    {
        match self.field {
            SetupField::LocalPath => self.local_path.push(ch),
            SetupField::Remote => self.remote.push(ch),
            SetupField::RemotePath => self.remote_path.push(ch),
            SetupField::CookieFile => self.cookie_file_path.push(ch),
            SetupField::BandwidthLimit => self.bandwidth_limit.push(ch),
            SetupField::SubtitleLanguages => self.subtitle_languages.push(ch),
            _ => {},
        }
    }

    /// Erases the last character of the selected text field.
    pub fn backspace_field(&mut self)
        ensures
            texts_after(*old(self), *final(self), None),
            same_choices(*final(self), *old(self)),
            final(self).field == old(self).field,
            final(self).scroll_offset == old(self).scroll_offset,
    {
        match self.field {
            SetupField::LocalPath => erase_last(&mut self.local_path),
            SetupField::Remote => erase_last(&mut self.remote),
            SetupField::RemotePath => erase_last(&mut self.remote_path),
            SetupField::CookieFile => erase_last(&mut self.cookie_file_path),
            SetupField::BandwidthLimit => erase_last(&mut self.bandwidth_limit),
            SetupField::SubtitleLanguages => erase_last(&mut self.subtitle_languages),
            _ => {},
        }
    }
}

/// The characters of a pasted text that can be typed: all but control
/// characters.
pub open spec fn typeable(text: Seq<char>) -> Seq<char> {
    text.filter(|c: char| !crate::text::is_ctrl(c))
}

/// Each text of the form, with `added` appended where it is the selected
/// field.
pub open spec fn texts_extended(a: SetupState, b: SetupState, added: Seq<char>) -> bool {
    &&& b.local_path@ == if a.field == SetupField::LocalPath {
        a.local_path@ + added
    } else {
        a.local_path@
    }
    &&& b.remote@ == if a.field == SetupField::Remote {
        a.remote@ + added
    } else {
        a.remote@
    }
    &&& b.remote_path@ == if a.field == SetupField::RemotePath {
        a.remote_path@ + added
    } else {
        a.remote_path@
    }
    &&& b.cookie_file_path@ == if a.field == SetupField::CookieFile {
        a.cookie_file_path@ + added
    } else {
        a.cookie_file_path@
    }
    &&& b.bandwidth_limit@ == if a.field == SetupField::BandwidthLimit {
        a.bandwidth_limit@ + added
    } else {
        a.bandwidth_limit@
    }
    &&& b.subtitle_languages@ == if a.field == SetupField::SubtitleLanguages {
        a.subtitle_languages@ + added
    } else {
        a.subtitle_languages@
    }
}

proof fn lemma_typeable_push(t: Seq<char>, c: char)
    ensures
        typeable(t.push(c)) == if crate::text::is_ctrl(c) {
            typeable(t)
        } else {
            typeable(t).push(c)
        },
{
    reveal(Seq::filter);
    assert(t.push(c).drop_last() =~= t);
}

impl SetupState {
    /// Pastes a text into the selected text field, control characters
    /// left out.
    pub fn paste(&mut self, text: &str)
        ensures
            texts_extended(*old(self), *final(self), typeable(text@)),
            same_choices(*final(self), *old(self)),
            final(self).field == old(self).field,
            final(self).scroll_offset == old(self).scroll_offset,
    {
        let chars = chars_of(text);
        let ghost start = *self;
        let mut i: usize = 0;
        proof {
            reveal(Seq::filter);
            assert(typeable(chars@.subrange(0, 0)) =~= Seq::<char>::empty());
        }
        while i < chars.len()
            invariant
                i <= chars.len(),
                chars@ == text@,
                texts_extended(start, *self, typeable(chars@.subrange(0, i as int))),
                same_choices(*self, start),
                self.field == start.field,
                self.scroll_offset == start.scroll_offset,
            decreases chars.len() - i,
        {
            let c = chars[i];
            proof {
                assert(chars@.subrange(0, i + 1) =~= chars@.subrange(0, i as int).push(c));
                lemma_typeable_push(chars@.subrange(0, i as int), c);
            }
            if !crate::text::is_control(c) {
                self.push_char(c);
            }
            i = i + 1;
        }
        assert(chars@.subrange(0, chars.len() as int) =~= text@);
    }
}

impl MainState {
    /// Pastes a text into the URL input, surrounding white space left out.
    pub fn paste(&mut self, text: &str)
        ensures
            final(self).url_input@ == old(self).url_input@ + trim(text@),
    {
        let trimmed = trim_str(text);
        push_str(&mut self.url_input, trimmed.as_str());
    }
}

/// The message for a cookie file source without a path.
pub open spec fn empty_cookie_path_text() -> Seq<char> {
    "Cookie file path cannot be empty"@
}

/// The destination that the form describes.
pub open spec fn form_destination(st: SetupState, d: Destination) -> bool {
    if st.cloud {
        d matches Destination::Cloud { remote, path } && remote@ == trim(st.remote@) && path@
            == crate::text::trim_char(trim(st.remote_path@), '/')
    } else {
        d matches Destination::Local { path } && path@ == trim(st.local_path@)
    }
}

/// The cookie source that the form describes (a file one only where its
/// path is not blank).
pub open spec fn form_cookies(st: SetupState, c: CookieSource) -> bool {
    if st.cookie_source_index == 0 {
        c == CookieSource::Disabled
    } else if st.cookie_source_index == 1 {
        c == CookieSource::Browser { browser: Browser::all_spec()[st.browser_index as int] }
    } else {
        c matches CookieSource::File { path } && path@ == trim(st.cookie_file_path@)
    }
}

pub open spec fn form_media(st: SetupState, m: crate::config::MediaOptions) -> bool {
    &&& m.write_subtitles == st.write_subtitles
    &&& m.embed_subtitles == st.embed_subtitles
    &&& views(m.subtitle_languages@) == languages_of(st.subtitle_languages@)
    &&& m.include_auto_subtitles == st.include_auto_subtitles
    &&& m.embed_thumbnail == st.embed_thumbnail
    &&& m.embed_chapters == st.embed_chapters
}

/// Writes the form into the configuration, in the order of the form. A
/// blank cookie file path, or a bandwidth limit that is not a rate, stops
/// it with a message; what was written before stays.
pub fn apply_setup(state: &SetupState, config: &mut Config) -> (r: Result<(), String>)
    requires
        state.cookie_source_index < 3,
        state.cookie_source_index == 1 ==> state.browser_index < 8,
    ensures
        form_destination(*state, final(config).destination),
        final(config).default_quality == old(config).default_quality,
        ({
            let cookie_error = state.cookie_source_index == 2 && trim(state.cookie_file_path@).len()
                == 0;
            let rate_error = !cookie_error && !all_ws(state.bandwidth_limit@)
                && !crate::config::rate_ok(trim(state.bandwidth_limit@));
            &&& cookie_error ==> {
                &&& r matches Err(m) && m@ == empty_cookie_path_text()
                &&& final(config).cookies == old(config).cookies
                &&& final(config).confirm_generic_urls == old(config).confirm_generic_urls
                &&& final(config).clipboard_autofill == old(config).clipboard_autofill
                &&& final(config).bandwidth_limit == old(config).bandwidth_limit
                &&& final(config).media == old(config).media
            }
            &&& !cookie_error ==> {
                &&& form_cookies(*state, final(config).cookies)
                &&& final(config).confirm_generic_urls == state.confirm_generic_urls
                &&& final(config).clipboard_autofill == state.clipboard_autofill
            }
            &&& rate_error ==> {
                &&& r matches Err(m) && m@ == crate::config::bandwidth_error_text()
                &&& final(config).bandwidth_limit == old(config).bandwidth_limit
                &&& final(config).media == old(config).media
            }
            &&& !cookie_error && !rate_error ==> {
                &&& r is Ok
                &&& match final(config).bandwidth_limit {
                    None => all_ws(state.bandwidth_limit@),
                    Some(limit) => limit@ == trim(state.bandwidth_limit@),
                }
                &&& form_media(*state, final(config).media)
            }
        }),
{
    config.destination = if state.cloud {
        let remote = trim_str(state.remote.as_str());
        let path_trimmed = trim_str(state.remote_path.as_str());
        let path = crate::text::trim_char_str(path_trimmed.as_str(), '/');
        Destination::Cloud { remote, path }
    } else {
        Destination::Local { path: trim_str(state.local_path.as_str()) }
    };
    let cookies = if state.cookie_source_index == 0 {
        CookieSource::Disabled
    } else if state.cookie_source_index == 1 {
        CookieSource::Browser { browser: Browser::at(state.browser_index) }
    } else {
        let path = trim_str(state.cookie_file_path.as_str());
        if path.unicode_len() == 0 {
            return Err(owned("Cookie file path cannot be empty"));
        }
        CookieSource::File { path }
    };
    config.cookies = cookies;
    config.confirm_generic_urls = state.confirm_generic_urls;
    config.clipboard_autofill = state.clipboard_autofill;
    if is_blank_str(state.bandwidth_limit.as_str()) {
        config.bandwidth_limit = None;
    } else {
        match BandwidthLimit::parse(state.bandwidth_limit.as_str()) {
            Ok(limit) => config.bandwidth_limit = Some(limit),
            Err(message) => {
                return Err(message);
            },
        }
    }
    config.media.write_subtitles = state.write_subtitles;
    config.media.embed_subtitles = state.embed_subtitles;
    config.media.subtitle_languages = split_languages(state.subtitle_languages.as_str());
    config.media.include_auto_subtitles = state.include_auto_subtitles;
    config.media.embed_thumbnail = state.embed_thumbnail;
    config.media.embed_chapters = state.embed_chapters;
    Ok(())
}

// ---------------------------------------------------------------------
// Keys
// ---------------------------------------------------------------------

#[derive(Debug, Clone, Copy, PartialEq, Eq, Structural)]
pub enum Key {
    Esc,
    Enter,
    Tab,
    BackTab,
    Up,
    Down,
    Left,
    Right,
    Backspace,
    PageUp,
    PageDown,
    Home,
    End,
    Char(char),
    Other,
}

/// A key and whether Control was held.
#[derive(Debug, Clone, Copy, PartialEq, Eq, Structural)]
pub struct KeyPress {
    pub key: Key,
    pub ctrl: bool,
}

/// Where a key leads.
pub enum Transition {
    Stay,
    Push(Screen),
    Back,
    ReturnToMain { clear_input: bool },
    ShowError(String),
    Quit,
    ForceQuit,
}

/// What the frontend does besides moving between screens.
pub enum Effect {
    Nothing,
    StartPreview(String),
    SaveConfig,
    SaveConfigThenPreview(String),
    StartUpdate,
    CancelPreview,
    Enqueue { request: DownloadRequest, title: String },
    CancelJob(JobId),
    CancelAll,
    RetryHistory(usize),
    CopyDiagnostics,
}

pub struct KeyOutcome {
    pub transition: Transition,
    pub effect: Effect,
}

pub open spec fn stays(o: KeyOutcome) -> bool {
    o.transition is Stay && o.effect is Nothing
}

pub open spec fn plain(o: KeyOutcome, t: Transition) -> bool {
    o.transition == t && o.effect is Nothing
}

fn outcome(transition: Transition) -> (o: KeyOutcome)
    ensures
        o.transition == transition,
        o.effect is Nothing,
{
    KeyOutcome { transition, effect: Effect::Nothing }
}

/// The key that quits from anywhere: Control-C.
pub open spec fn interrupt_key(k: KeyPress) -> bool {
    k.ctrl && k.key == Key::Char('c')
}

pub fn is_interrupt(k: KeyPress) -> (r: bool)
    ensures
        r == interrupt_key(k),
{
    k.ctrl && k.key == Key::Char('c')
}

/// A screen that only goes back (Enter, Esc) or quits (`q`).
pub fn handle_how_to_use_key(key: KeyPress) -> (o: KeyOutcome)
    ensures
        key.key == Key::Enter || key.key == Key::Esc ==> plain(o, Transition::Back),
        key.key == Key::Char('q') ==> plain(o, Transition::Quit),
        !(key.key == Key::Enter || key.key == Key::Esc || key.key == Key::Char('q')) ==> stays(o),
{
    match key.key {
        Key::Enter | Key::Esc => outcome(Transition::Back),
        Key::Char('q') => outcome(Transition::Quit),
        _ => outcome(Transition::Stay),
    }
}

/// The result of an update: Enter or Esc return to an empty main screen.
pub fn handle_update_result_key(key: KeyPress) -> (o: KeyOutcome)
    ensures
        key.key == Key::Enter || key.key == Key::Esc ==> plain(
            o,
            Transition::ReturnToMain { clear_input: true },
        ),
        key.key == Key::Char('q') ==> plain(o, Transition::Quit),
        !(key.key == Key::Enter || key.key == Key::Esc || key.key == Key::Char('q')) ==> stays(o),
{
    match key.key {
        Key::Enter | Key::Esc => outcome(Transition::ReturnToMain { clear_input: true }),
        Key::Char('q') => outcome(Transition::Quit),
        _ => outcome(Transition::Stay),
    }
}

/// A finished job: Enter returns to an empty main screen, `q` or Esc quit.
pub fn handle_complete_key(key: KeyPress) -> (o: KeyOutcome)
    ensures
        key.key == Key::Enter ==> plain(o, Transition::ReturnToMain { clear_input: true }),
        key.key == Key::Char('q') || key.key == Key::Esc ==> plain(o, Transition::Quit),
        !(key.key == Key::Enter || key.key == Key::Esc || key.key == Key::Char('q')) ==> stays(o),
{
    match key.key {
        Key::Enter => outcome(Transition::ReturnToMain { clear_input: true }),
        Key::Char('q') | Key::Esc => outcome(Transition::Quit),
        _ => outcome(Transition::Stay),
    }
}

/// Confirming an update starts it.
pub fn handle_update_confirm_key(key: KeyPress) -> (o: KeyOutcome)
    ensures
        key.key == Key::Enter || key.key == Key::Char('y') || key.key == Key::Char('Y') ==> (
        o.transition == Transition::Push(Screen::UpdateRunning) && o.effect is StartUpdate),
        key.key == Key::Esc || key.key == Key::Char('n') || key.key == Key::Char('N') ==> plain(
            o,
            Transition::Back,
        ),
        !(key.key == Key::Enter || key.key == Key::Char('y') || key.key == Key::Char('Y')
            || key.key == Key::Esc || key.key == Key::Char('n') || key.key == Key::Char('N'))
            ==> stays(o),
{
    match key.key {
        Key::Enter | Key::Char('y') | Key::Char('Y') => KeyOutcome {
            transition: Transition::Push(Screen::UpdateRunning),
            effect: Effect::StartUpdate,
        },
        Key::Esc | Key::Char('n') | Key::Char('N') => outcome(Transition::Back),
        _ => outcome(Transition::Stay),
    }
}

/// Confirming to quit cancels everything.
pub fn handle_exit_confirm_key(key: KeyPress) -> (o: KeyOutcome)
    ensures
        key.key == Key::Char('y') || key.key == Key::Char('Y') ==> (o.transition
            == Transition::ForceQuit && o.effect is CancelAll),
        key.key == Key::Char('n') || key.key == Key::Char('N') || key.key == Key::Esc ==> plain(
            o,
            Transition::Back,
        ),
        !(key.key == Key::Char('y') || key.key == Key::Char('Y') || key.key == Key::Char('n')
            || key.key == Key::Char('N') || key.key == Key::Esc) ==> stays(o),
{
    match key.key {
        Key::Char('y') | Key::Char('Y') => KeyOutcome {
            transition: Transition::ForceQuit,
            effect: Effect::CancelAll,
        },
        Key::Char('n') | Key::Char('N') | Key::Esc => outcome(Transition::Back),
        _ => outcome(Transition::Stay),
    }
}

/// Esc while a preview loads asks to cancel it.
pub fn handle_preview_loading_key(state: &mut PreviewLoadingState, key: KeyPress) -> (o: KeyOutcome)
    ensures
        o.transition is Stay,
        key.key == Key::Esc ==> final(state).cancelling && o.effect is CancelPreview,
        key.key != Key::Esc ==> final(state).cancelling == old(state).cancelling && o.effect is Nothing,
{
    if key.key == Key::Esc {
        state.cancelling = true;
        KeyOutcome { transition: Transition::Stay, effect: Effect::CancelPreview }
    } else {
        outcome(Transition::Stay)
    }
}

/// Esc on a running download cancels it.
pub fn handle_download_key(state: &DownloadViewState, key: KeyPress) -> (o: KeyOutcome)
    ensures
        o.transition is Stay,
        key.key == Key::Esc ==> o.effect == Effect::CancelJob(state.job_id),
        key.key != Key::Esc ==> o.effect is Nothing,
{
    if key.key == Key::Esc {
        KeyOutcome { transition: Transition::Stay, effect: Effect::CancelJob(state.job_id) }
    } else {
        outcome(Transition::Stay)
    }
}

/// An unverified host: Enter previews it once, `a` stops asking for such
/// hosts and previews it.
pub fn handle_generic_confirm_key(state: &GenericConfirmState, config: &mut Config, key: KeyPress) -> (o:
    KeyOutcome)
    ensures
        key.key == Key::Esc ==> plain(o, Transition::Back) && *final(config) == *old(config),
        key.key == Key::Enter ==> (o.transition == Transition::Push(
            Screen::PreviewLoading(PreviewLoadingState { cancelling: false }),
        ) && (o.effect matches Effect::StartPreview(u) && u@ == state.url@) && *final(config)
            == *old(config)),
        key.key == Key::Char('a') ==> (o.transition == Transition::Push(
            Screen::PreviewLoading(PreviewLoadingState { cancelling: false }),
        ) && (o.effect matches Effect::SaveConfigThenPreview(u) && u@ == state.url@)
            && !final(config).confirm_generic_urls),
        !(key.key == Key::Esc || key.key == Key::Enter || key.key == Key::Char('a')) ==> stays(o)
            && *final(config) == *old(config),
{
    match key.key {
        Key::Esc => outcome(Transition::Back),
        Key::Enter => KeyOutcome {
            transition: Transition::Push(
                Screen::PreviewLoading(PreviewLoadingState { cancelling: false }),
            ),
            effect: Effect::StartPreview(copy_string(&state.url)),
        },
        Key::Char('a') => {
            config.confirm_generic_urls = false;
            KeyOutcome {
                transition: Transition::Push(
                    Screen::PreviewLoading(PreviewLoadingState { cancelling: false }),
                ),
                effect: Effect::SaveConfigThenPreview(copy_string(&state.url)),
            }
        },
        _ => outcome(Transition::Stay),
    }
}

/// A preview: Enter goes on to the playlist choice for a playlist, else to
/// the format choice with the presets the preview lists.
pub fn handle_preview_key(state: &PreviewState, key: KeyPress) -> (o: KeyOutcome)
    ensures
        key.key == Key::Esc ==> plain(o, Transition::Back),
        key.key == Key::Enter && state.preview.playlist is Some ==> (o.effect is Nothing
            && (o.transition matches Transition::Push(Screen::Playlist(p)) && p.url@ == state.url@
            && p.title@ == state.preview.title@ && p.selected == 0)),
        key.key == Key::Enter && state.preview.playlist is None ==> (o.effect is Nothing
            && (o.transition matches Transition::Push(Screen::Format(f)) && f.url@ == state.url@
            && f.title@ == state.preview.title@ && f.playlist == PlaylistSelection::Single
            && f.selected == 0 && f.available_resolutions@ == listed_presets(
            views(state.preview.resolutions@),
        ))),
        !(key.key == Key::Esc || key.key == Key::Enter) ==> stays(o),
{
    match key.key {
        Key::Esc => outcome(Transition::Back),
        Key::Enter => {
            if state.preview.playlist.is_some() {
                outcome(
                    Transition::Push(
                        Screen::Playlist(
                            PlaylistState {
                                url: copy_string(&state.url),
                                title: copy_string(&state.preview.title),
                                selected: 0,
                            },
                        ),
                    ),
                )
            } else {
                outcome(
                    Transition::Push(
                        Screen::Format(
                            FormatState {
                                url: copy_string(&state.url),
                                title: copy_string(&state.preview.title),
                                playlist: PlaylistSelection::Single,
                                selected: 0,
                                available_resolutions: metadata_qualities(&state.preview),
                            },
                        ),
                    ),
                )
            }
        },
        _ => outcome(Transition::Stay),
    }
}

pub open spec fn all_presets() -> Seq<Quality> {
    seq![Quality::P720, Quality::P1080, Quality::P1440, Quality::P2160]
}

fn presets() -> (r: Vec<Quality>)
    ensures
        r@ == all_presets(),
{
    let mut r: Vec<Quality> = Vec::new();
    r.push(Quality::P720);
    r.push(Quality::P1080);
    r.push(Quality::P1440);
    r.push(Quality::P2160);
    assert(r@ =~= all_presets());
    r
}

pub open spec fn is_back_key(k: Key) -> bool {
    k == Key::Up || k == Key::Left
}

pub open spec fn is_forward_key(k: Key) -> bool {
    k == Key::Down || k == Key::Right
}

/// The playlist choice: the first option downloads the single item, the
/// second the whole playlist; every preset is offered.
pub fn handle_playlist_key(state: &mut PlaylistState, key: KeyPress) -> (o: KeyOutcome)
    requires
        old(state).selected < 2,
    ensures
        final(state).selected < 2,
        final(state).url == old(state).url,
        final(state).title == old(state).title,
        key.key == Key::Esc ==> plain(o, Transition::Back),
        is_back_key(key.key) ==> stays(o) && final(state).selected == (old(state).selected + 1)
            % 2,
        is_forward_key(key.key) ==> stays(o) && final(state).selected == (old(state).selected
            + 1) % 2,
        key.key == Key::Enter ==> (o.effect is Nothing && (o.transition matches Transition::Push(
            Screen::Format(f),
        ) && f.url@ == old(state).url@ && f.title@ == old(state).title@ && f.playlist == (if old(state).selected == 0 {
            PlaylistSelection::Single
        } else {
            PlaylistSelection::All
        }) && f.selected == 0 && f.available_resolutions@ == all_presets())),
        !(key.key == Key::Esc || is_back_key(key.key) || is_forward_key(key.key) || key.key
            == Key::Enter) ==> stays(o) && final(state).selected == old(state).selected,
{
    match key.key {
        Key::Esc => outcome(Transition::Back),
        Key::Up | Key::Left => {
            move_selection(&mut state.selected, 2, false);
            outcome(Transition::Stay)
        },
        Key::Down | Key::Right => {
            move_selection(&mut state.selected, 2, true);
            outcome(Transition::Stay)
        },
        Key::Enter => outcome(
            Transition::Push(
                Screen::Format(
                    FormatState {
                        url: copy_string(&state.url),
                        title: copy_string(&state.title),
                        playlist: if state.selected == 0 {
                            PlaylistSelection::Single
                        } else {
                            PlaylistSelection::All
                        },
                        selected: 0,
                        available_resolutions: presets(),
                    },
                ),
            ),
        ),
        _ => outcome(Transition::Stay),
    }
}

/// The quality options of a format: Best and Compressed, then for video
/// the resolutions on offer.
pub open spec fn quality_options(format: Format, resolutions: Seq<Quality>) -> Seq<Quality> {
    seq![Quality::Best, Quality::Compressed] + if format == Format::Video {
        resolutions
    } else {
        Seq::empty()
    }
}

/// The option first selected: the configured default where it is offered,
/// else the first.
pub open spec fn initial_option(options: Seq<Quality>, default: Quality) -> nat
    decreases options.len(),
{
    if options.len() == 0 {
        0
    } else if options.last() == default && !options.drop_last().contains(default) {
        (options.len() - 1) as nat
    } else {
        initial_option(options.drop_last(), default)
    }
}

/// The note shown where the configured default is not offered.
pub open spec fn unavailable_note(default: Quality) -> Seq<char> {
    "Configured default "@ + default.label_text() + " is unavailable here; using Best."@
}

/// The format choice: the first option is video, the second audio; Enter
/// offers the qualities of that format.
pub fn handle_format_key(state: &mut FormatState, default_quality: Quality, key: KeyPress) -> (o:
    KeyOutcome)
    requires
        old(state).selected < 2,
    ensures
        final(state).selected < 2,
        key.key == Key::Esc ==> plain(o, Transition::Back),
        is_back_key(key.key) || is_forward_key(key.key) ==> stays(o) && final(state).selected == (
        old(state).selected + 1) % 2,
        key.key == Key::Enter ==> (o.effect is Nothing && (o.transition matches Transition::Push(
            Screen::Quality(q),
        ) && {
            let format = if old(state).selected == 0 {
                Format::Video
            } else {
                Format::Audio
            };
            let options = quality_options(format, old(state).available_resolutions@);
            &&& q.url@ == old(state).url@
            &&& q.title@ == old(state).title@
            &&& q.playlist == old(state).playlist
            &&& q.format == format
            &&& q.options@ == options
            &&& q.selected == initial_option(options, default_quality)
            &&& q.scroll_offset == if q.selected > 5 {
                q.selected - 5
            } else {
                0
            }
            &&& opt_view(q.note) == if options.contains(default_quality) {
                None
            } else {
                Some(unavailable_note(default_quality))
            }
        })),
        !(key.key == Key::Esc || is_back_key(key.key) || is_forward_key(key.key) || key.key
            == Key::Enter) ==> stays(o) && final(state).selected == old(state).selected,
{
    match key.key {
        Key::Esc => outcome(Transition::Back),
        Key::Up | Key::Left => {
            move_selection(&mut state.selected, 2, false);
            outcome(Transition::Stay)
        },
        Key::Down | Key::Right => {
            move_selection(&mut state.selected, 2, true);
            outcome(Transition::Stay)
        },
        Key::Enter => {
            let format = if state.selected == 0 {
                Format::Video
            } else {
                Format::Audio
            };
            let mut options: Vec<Quality> = Vec::new();
            options.push(Quality::Best);
            options.push(Quality::Compressed);
            if format == Format::Video {
                let mut i: usize = 0;
                while i < state.available_resolutions.len()
                    invariant
                        i <= state.available_resolutions.len(),
                        options@ == seq![Quality::Best, Quality::Compressed]
                            + state.available_resolutions@.subrange(0, i as int),
                    decreases state.available_resolutions.len() - i,
                {
                    options.push(state.available_resolutions[i]);
                    assert(options@ =~= seq![Quality::Best, Quality::Compressed]
                        + state.available_resolutions@.subrange(0, i + 1));
                    i = i + 1;
                }
                assert(state.available_resolutions@.subrange(
                    0,
                    state.available_resolutions.len() as int,
                ) =~= state.available_resolutions@);
            }
            assert(options@ =~= quality_options(format, state.available_resolutions@));
            let (selected, offered) = find_option(&options, default_quality);
            let note = if offered {
                None
            } else {
                let mut n = owned("Configured default ");
                push_str(&mut n, default_quality.label());
                push_str(&mut n, " is unavailable here; using Best.");
                Some(n)
            };
            let scroll_offset = if selected > 5 {
                selected - 5
            } else {
                0
            };
            outcome(
                Transition::Push(
                    Screen::Quality(
                        QualityState {
                            url: copy_string(&state.url),
                            title: copy_string(&state.title),
                            playlist: state.playlist,
                            format,
                            options,
                            selected,
                            scroll_offset,
                            note,
                        },
                    ),
                ),
            )
        },
        _ => outcome(Transition::Stay),
    }
}

proof fn lemma_initial_option(options: Seq<Quality>, default: Quality)
    ensures
        options.contains(default) ==> options[initial_option(options, default) as int] == default
            && forall|j: int| 0 <= j < initial_option(options, default) ==> options[j] != default,
        !options.contains(default) ==> initial_option(options, default) == 0,
    decreases options.len(),
{
    if options.len() > 0 {
        let rest = options.drop_last();
        lemma_initial_option(rest, default);
        if options.last() == default && !rest.contains(default) {
            assert forall|j: int| 0 <= j < options.len() - 1 implies options[j] != default by {
                assert(rest[j] == options[j]);
            }
        } else if options.contains(default) {
            let k = choose|k: int| 0 <= k < options.len() && options[k] == default;
            if k == options.len() - 1 {
                assert(rest.contains(default));
            } else {
                assert(rest[k] == default);
            }
            assert(rest.contains(default));
            let i = initial_option(rest, default);
            assert(options[i as int] == rest[i as int]);
            assert forall|j: int| 0 <= j < i implies options[j] != default by {
                assert(rest[j] == options[j]);
            }
        } else {
            assert forall|j: int| 0 <= j < rest.len() implies rest[j] != default by {
                assert(rest[j] == options[j]);
            }
        }
    }
}

/// The position of the configured default among the options, and whether
/// it is offered at all.
fn find_option(options: &Vec<Quality>, default: Quality) -> (r: (usize, bool))
    ensures
        r.0 == initial_option(options@, default),
        r.1 == options@.contains(default),
{
    let mut i: usize = 0;
    while i < options.len() && options[i] != default
        invariant
            i <= options.len(),
            forall|j: int| 0 <= j < i ==> options@[j] != default,
        decreases options.len() - i,
    {
        i = i + 1;
    }
    proof {
        lemma_initial_option(options@, default);
        if i < options.len() {
            assert(options@[i as int] == default);
            assert(options@.contains(default));
            let k = initial_option(options@, default);
            assert(k == i) by {
                if k < i {
                    assert(options@[k as int] != default);
                }
                if k > i {
                    assert(options@[i as int] != default);
                }
            }
        } else {
            assert(!options@.contains(default));
        }
    }
    if i < options.len() {
        (i, true)
    } else {
        (0, false)
    }
}

/// The quality choice: Enter queues the download and returns to an empty
/// main screen.
pub fn handle_quality_key(state: &mut QualityState, key: KeyPress) -> (o: KeyOutcome)
    requires
        old(state).options@.len() > 0,
        old(state).selected < old(state).options@.len(),
    ensures
        final(state).options == old(state).options,
        final(state).selected < final(state).options@.len(),
        key.key == Key::Esc ==> plain(o, Transition::Back),
        is_back_key(key.key) ==> stays(o) && final(state).selected == (old(state).selected + old(state).options@.len() - 1) % (old(state).options@.len() as int) && final(state).scroll_offset
            == synced_scroll(final(state).selected, old(state).scroll_offset),
        is_forward_key(key.key) ==> stays(o) && final(state).selected == (old(state).selected + 1)
            % (old(state).options@.len() as int) && final(state).scroll_offset == synced_scroll(
            final(state).selected,
            old(state).scroll_offset,
        ),
        key.key == Key::Enter ==> (o.transition == (Transition::ReturnToMain {
            clear_input: true,
        }) && (o.effect matches Effect::Enqueue { request, title } && request.url@ == old(state).url@ && request.format == old(state).format && request.quality == old(state).options@[old(state).selected as int] && request.playlist == old(state).playlist
            && title@ == old(state).title@)),
        !(key.key == Key::Esc || is_back_key(key.key) || is_forward_key(key.key) || key.key
            == Key::Enter) ==> (stays(o) && final(state).selected == old(state).selected),
{
    match key.key {
        Key::Esc => outcome(Transition::Back),
        Key::Up | Key::Left => {
            let n = state.options.len();
            move_selection(&mut state.selected, n, false);
            state.sync_scroll();
            outcome(Transition::Stay)
        },
        Key::Down | Key::Right => {
            let n = state.options.len();
            move_selection(&mut state.selected, n, true);
            state.sync_scroll();
            outcome(Transition::Stay)
        },
        Key::Enter => {
            let request = DownloadRequest {
                url: copy_string(&state.url),
                format: state.format,
                quality: state.options[state.selected],
                playlist: state.playlist,
            };
            KeyOutcome {
                transition: Transition::ReturnToMain { clear_input: true },
                effect: Effect::Enqueue { request, title: copy_string(&state.title) },
            }
        },
        _ => outcome(Transition::Stay),
    }
}

/// The error screen: arrows and page keys scroll, Home and End jump, `c`
/// copies the diagnostics.
pub fn handle_error_key(state: &mut ErrorState, key: KeyPress) -> (o: KeyOutcome)
    ensures
        final(state).raw == old(state).raw,
        final(state).diagnosis == old(state).diagnosis,
        final(state).copy_status == old(state).copy_status,
        key.key == Key::Enter || key.key == Key::Esc ==> plain(o, Transition::Back)
            && final(state).scroll_offset == old(state).scroll_offset,
        key.key == Key::Char('q') ==> plain(o, Transition::Quit) && final(state).scroll_offset
            == old(state).scroll_offset,
        key.key == Key::Home ==> stays(o) && final(state).scroll_offset == 0,
        key.key == Key::End ==> stays(o) && final(state).scroll_offset == max_scroll_of(
            diagnostic_spec(old(state).raw@, old(state).diagnosis),
        ),
        key.key == Key::Up || key.key == Key::PageUp ==> stays(o) && final(state).scroll_offset
            == ({
            let up: int = if key.key == Key::Up {
                1
            } else {
                8
            };
            if old(state).scroll_offset < up {
                0
            } else {
                old(state).scroll_offset - up
            }
        }),
        key.key == Key::Down || key.key == Key::PageDown ==> stays(o) && final(state).scroll_offset == ({
            let down: int = if key.key == Key::Down {
                1
            } else {
                8
            };
            let limit = max_scroll_of(diagnostic_spec(old(state).raw@, old(state).diagnosis));
            if old(state).scroll_offset + down > limit {
                limit as int
            } else {
                old(state).scroll_offset + down
            }
        }),
        key.key == Key::Char('c') ==> o.transition is Stay && o.effect is CopyDiagnostics
            && final(state).scroll_offset == old(state).scroll_offset,
        !(key.key == Key::Enter || key.key == Key::Esc || key.key == Key::Char('q') || key.key
            == Key::Home || key.key == Key::End || key.key == Key::Up || key.key == Key::PageUp
            || key.key == Key::Down || key.key == Key::PageDown || key.key == Key::Char('c'))
            ==> stays(o) && final(state).scroll_offset == old(state).scroll_offset,
{
    match key.key {
        Key::Enter | Key::Esc => outcome(Transition::Back),
        Key::Char('q') => outcome(Transition::Quit),
        Key::Up => {
            state.scroll_by(-1);
            outcome(Transition::Stay)
        },
        Key::Down => {
            state.scroll_by(1);
            outcome(Transition::Stay)
        },
        Key::PageUp => {
            state.scroll_by(-8);
            outcome(Transition::Stay)
        },
        Key::PageDown => {
            state.scroll_by(8);
            outcome(Transition::Stay)
        },
        Key::Home => {
            state.scroll_offset = 0;
            outcome(Transition::Stay)
        },
        Key::End => {
            state.scroll_offset = state.max_scroll();
            outcome(Transition::Stay)
        },
        Key::Char('c') => KeyOutcome { transition: Transition::Stay, effect: Effect::CopyDiagnostics },
        _ => outcome(Transition::Stay),
    }
}

/// The history list, newest first: arrows move within it, `r` retries the
/// selected entry (counted from the oldest).
pub fn handle_history_key(state: &mut HistoryState, count: usize, key: KeyPress) -> (o: KeyOutcome)
    ensures
        ({
            let clamped = if count == 0 {
                0
            } else if old(state).selected > count - 1 {
                (count - 1) as usize
            } else {
                old(state).selected
            };
            &&& key.key == Key::Esc ==> plain(o, Transition::Back) && final(state).selected == clamped
            &&& key.key == Key::Up ==> stays(o) && final(state).selected == if clamped > 0 {
                clamped - 1
            } else {
                0
            }
            &&& key.key == Key::Down ==> stays(o) && final(state).selected == if count > 0
                && clamped + 1 <= count - 1 {
                clamped + 1
            } else {
                clamped as int
            }
            &&& key.key == Key::Char('r') ==> o.transition is Stay && final(state).selected
                == clamped && if count > 0 {
                o.effect == Effect::RetryHistory((count - 1 - clamped) as usize)
            } else {
                o.effect is Nothing
            }
            &&& !(key.key == Key::Esc || key.key == Key::Up || key.key == Key::Down || key.key
                == Key::Char('r')) ==> stays(o) && final(state).selected == clamped
        }),
{
    if count == 0 {
        state.selected = 0;
    } else if state.selected > count - 1 {
        state.selected = count - 1;
    }
    match key.key {
        Key::Esc => outcome(Transition::Back),
        Key::Up => {
            state.selected = if state.selected > 0 {
                state.selected - 1
            } else {
                0
            };
            outcome(Transition::Stay)
        },
        Key::Down => {
            if count > 0 && state.selected < count - 1 {
                state.selected = state.selected + 1;
            }
            outcome(Transition::Stay)
        },
        Key::Char('r') => {
            if count > 0 {
                KeyOutcome {
                    transition: Transition::Stay,
                    effect: Effect::RetryHistory(count - 1 - state.selected),
                }
            } else {
                outcome(Transition::Stay)
            }
        },
        _ => outcome(Transition::Stay),
    }
}

/// The ids of the jobs that wait or run, in queue order.
pub open spec fn listed_jobs(jobs: Seq<crate::queue::QueuedJob>) -> Seq<JobId> {
    jobs.filter(
        |j: crate::queue::QueuedJob|
            j.status == QueueStatus::Pending || j.status == QueueStatus::Running,
    ).map_values(|j: crate::queue::QueuedJob| j.id)
}

fn unfinished_ids(queue: &DownloadQueue) -> (r: Vec<JobId>)
    ensures
        r@ == listed_jobs(queue.jobs()),
{
    let jobs = queue.entries();
    let ghost pred = |j: crate::queue::QueuedJob|
        j.status == QueueStatus::Pending || j.status == QueueStatus::Running;
    let ghost id_of = |j: crate::queue::QueuedJob| j.id;
    let mut ids: Vec<JobId> = Vec::new();
    let mut i: usize = 0;
    while i < jobs.len()
        invariant
            i <= jobs.len(),
            jobs@ == queue.jobs(),
            pred == (|j: crate::queue::QueuedJob|
                j.status == QueueStatus::Pending || j.status == QueueStatus::Running),
            id_of == (|j: crate::queue::QueuedJob| j.id),
            ids@ == jobs@.subrange(0, i as int).filter(pred).map_values(id_of),
        decreases jobs.len() - i,
    {
        proof {
            reveal(Seq::filter);
            assert(jobs@.subrange(0, i + 1).drop_last() =~= jobs@.subrange(0, i as int));
        }
        let status = jobs[i].status;
        if status == QueueStatus::Pending || status == QueueStatus::Running {
            ids.push(jobs[i].id);
            assert(ids@ =~= jobs@.subrange(0, i + 1).filter(pred).map_values(id_of));
        } else {
            assert(ids@ =~= jobs@.subrange(0, i + 1).filter(pred).map_values(id_of));
        }
        i = i + 1;
    }
    assert(jobs@.subrange(0, jobs.len() as int) =~= jobs@);
    ids
}

/// The queue screen lists the jobs that wait or run. Control with an arrow
/// moves the selected waiting job, `d` removes it, `c` cancels the
/// selected job and Enter follows it.
pub fn handle_queue_key(state: &mut QueueState, queue: &mut DownloadQueue, key: KeyPress) -> (o:
    KeyOutcome)
    requires
        old(queue).wf(),
    ensures
        final(queue).wf(),
        ({
            let ids = listed_jobs(old(queue).jobs());
            let clamped = if ids.len() == 0 {
                0
            } else if old(state).selected >= ids.len() {
                (ids.len() - 1) as usize
            } else {
                old(state).selected
            };
            let selected_id = if clamped < ids.len() {
                Some(ids[clamped as int])
            } else {
                None
            };
            &&& key.key == Key::Esc ==> plain(o, Transition::Back) && final(queue).jobs() == old(queue).jobs()
            &&& key.key == Key::Char('c') ==> o.transition is Stay && final(queue).jobs() == old(queue).jobs() && match selected_id {
                Some(id) => o.effect == Effect::CancelJob(id),
                None => o.effect is Nothing,
            }
            &&& key.key == Key::Enter ==> o.effect is Nothing && final(queue).jobs() == old(queue).jobs() && match selected_id {
                Some(id) => o.transition == Transition::Push(
                    Screen::Download(DownloadViewState { job_id: id }),
                ),
                None => o.transition is Stay,
            }
            &&& key.key == Key::Char('d') ==> stays(o) && match selected_id {
                Some(id) => match crate::queue::first_where(
                    old(queue).jobs(),
                    crate::queue::pending_with_id(id),
                ) {
                    Some(k) => final(queue).jobs() == old(queue).jobs().remove(k),
                    None => final(queue).jobs() == old(queue).jobs(),
                },
                None => final(queue).jobs() == old(queue).jobs(),
            }
            &&& !key.ctrl && key.key == Key::Up ==> stays(o) && final(state).selected == if clamped
                > 0 {
                clamped - 1
            } else {
                0
            }
            &&& !key.ctrl && key.key == Key::Down ==> stays(o) && final(state).selected == if ids.len()
                > 0 && clamped + 1 <= ids.len() - 1 {
                clamped + 1
            } else {
                clamped as int
            }
            &&& key.ctrl && (key.key == Key::Up || key.key == Key::Down) ==> stays(o)
        }),
{
    let ids = unfinished_ids(queue);
    if ids.len() == 0 {
        state.selected = 0;
    } else if state.selected >= ids.len() {
        state.selected = ids.len() - 1;
    }
    let selected_id: Option<JobId> = if state.selected < ids.len() {
        Some(ids[state.selected])
    } else {
        None
    };
    match key.key {
        Key::Esc => outcome(Transition::Back),
        Key::Up => {
            if key.ctrl {
                match selected_id {
                    Some(id) => {
                        if queue.move_pending(id, false) {
                            state.selected = if state.selected > 0 {
                                state.selected - 1
                            } else {
                                0
                            };
                        }
                    },
                    None => {},
                }
            } else {
                state.selected = if state.selected > 0 {
                    state.selected - 1
                } else {
                    0
                };
            }
            outcome(Transition::Stay)
        },
        Key::Down => {
            if key.ctrl {
                match selected_id {
                    Some(id) => {
                        if queue.move_pending(id, true) {
                            let last = if ids.len() > 0 {
                                ids.len() - 1
                            } else {
                                0
                            };
                            state.selected = if state.selected < last {
                                state.selected + 1
                            } else {
                                last
                            };
                        }
                    },
                    None => {},
                }
            } else if ids.len() > 0 && state.selected < ids.len() - 1 {
                state.selected = state.selected + 1;
            }
            outcome(Transition::Stay)
        },
        Key::Char('d') => {
            match selected_id {
                Some(id) => {
                    queue.remove_pending(id);
                },
                None => {},
            }
            outcome(Transition::Stay)
        },
        Key::Char('c') => match selected_id {
            Some(id) => KeyOutcome { transition: Transition::Stay, effect: Effect::CancelJob(id) },
            None => outcome(Transition::Stay),
        },
        Key::Enter => match selected_id {
            Some(job_id) => outcome(Transition::Push(Screen::Download(DownloadViewState { job_id }))),
            None => outcome(Transition::Stay),
        },
        _ => outcome(Transition::Stay),
    }
}

/// The choices of the settings form.
pub struct Choices {
    pub cloud: bool,
    pub cookie_source_index: usize,
    pub browser_index: usize,
    pub confirm_generic_urls: bool,
    pub clipboard_autofill: bool,
    pub write_subtitles: bool,
    pub embed_subtitles: bool,
    pub include_auto_subtitles: bool,
    pub embed_thumbnail: bool,
    pub embed_chapters: bool,
}

pub open spec fn choices(st: SetupState) -> Choices {
    Choices {
        cloud: st.cloud,
        cookie_source_index: st.cookie_source_index,
        browser_index: st.browser_index,
        confirm_generic_urls: st.confirm_generic_urls,
        clipboard_autofill: st.clipboard_autofill,
        write_subtitles: st.write_subtitles,
        embed_subtitles: st.embed_subtitles,
        include_auto_subtitles: st.include_auto_subtitles,
        embed_thumbnail: st.embed_thumbnail,
        embed_chapters: st.embed_chapters,
    }
}

/// The choices after Left (`right` false) or Right on `field`: the
/// destination turns cloud only where rclone is there, the cookie source
/// and browser cycle, and switches flip.
pub open spec fn after_arrow(c: Choices, field: SetupField, right: bool, rclone: bool) -> Choices {
    match field {
        SetupField::Destination => Choices { cloud: !c.cloud && rclone, ..c },
        SetupField::CookieSource => Choices {
            cookie_source_index: (if right {
                (c.cookie_source_index + 1) % 3
            } else {
                (c.cookie_source_index + 2) % 3
            }) as usize,
            ..c
        },
        SetupField::Browser => Choices {
            browser_index: (if right {
                (c.browser_index + 1) % 8
            } else {
                (c.browser_index + 7) % 8
            }) as usize,
            ..c
        },
        SetupField::GenericConfirmation => Choices {
            confirm_generic_urls: !c.confirm_generic_urls,
            ..c
        },
        SetupField::ClipboardAutofill => Choices { clipboard_autofill: !c.clipboard_autofill, ..c },
        SetupField::WriteSubtitles => Choices { write_subtitles: !c.write_subtitles, ..c },
        SetupField::EmbedSubtitles => Choices { embed_subtitles: !c.embed_subtitles, ..c },
        SetupField::AutoSubtitles => Choices {
            include_auto_subtitles: !c.include_auto_subtitles,
            ..c
        },
        SetupField::EmbedThumbnail => Choices { embed_thumbnail: !c.embed_thumbnail, ..c },
        SetupField::EmbedChapters => Choices { embed_chapters: !c.embed_chapters, ..c },
        _ => c,
    }
}

pub open spec fn setup_ok(st: SetupState) -> bool {
    st.cookie_source_index < 3 && st.browser_index < 8
}

/// The field selected after Tab (`forward`) or Shift-Tab.
pub open spec fn field_moved(a: SetupState, b: SetupState, forward: bool) -> bool {
    let fields = setup_fields(a.cloud, a.cookie_source_index);
    let current = position_of(fields, a.field) as int;
    let next = if forward {
        (current + 1) % (fields.len() as int)
    } else {
        (current + fields.len() - 1) % (fields.len() as int)
    };
    &&& b.field == fields[next]
    &&& b.scroll_offset == if next > 5 {
        next - 5
    } else {
        0
    }
}

/// The settings form: Esc goes back unless this is the first run, the
/// arrows move between fields and change the choices, typing edits the
/// texts, and Enter writes the configuration and returns to the main
/// screen (an invalid form shows why instead).
pub fn handle_setup_key(
    state: &mut SetupState,
    config: &mut Config,
    first_run: bool,
    rclone_available: bool,
    key: KeyPress,
) -> (o: KeyOutcome)
    requires
        setup_ok(*old(state)),
    ensures
        setup_ok(*final(state)),
        key.key == Key::Esc ==> (if first_run {
            stays(o)
        } else {
            plain(o, Transition::Back)
        }) && *final(state) == *old(state) && *final(config) == *old(config),
        key.key == Key::Tab || key.key == Key::Down ==> stays(o) && field_moved(
            *old(state),
            *final(state),
            true,
        ) && choices(*final(state)) == choices(*old(state)) && same_texts(
            *final(state),
            *old(state),
        ) && *final(config) == *old(config),
        key.key == Key::BackTab || key.key == Key::Up ==> stays(o) && field_moved(
            *old(state),
            *final(state),
            false,
        ) && choices(*final(state)) == choices(*old(state)) && same_texts(
            *final(state),
            *old(state),
        ) && *final(config) == *old(config),
        key.key == Key::Left || key.key == Key::Right ==> stays(o) && choices(*final(state))
            == after_arrow(
            choices(*old(state)),
            old(state).field,
            key.key == Key::Right,
            rclone_available,
        ) && final(state).field == old(state).field && final(state).scroll_offset == old(state).scroll_offset && same_texts(*final(state), *old(state)) && *final(config) == *old(config),
        key.key == Key::Backspace ==> stays(o) && texts_after(*old(state), *final(state), None)
            && choices(*final(state)) == choices(*old(state)) && final(state).field == old(state).field && *final(config) == *old(config),
        (key.key matches Key::Char(c) ==> stays(o) && texts_after(
            *old(state),
            *final(state),
            Some(c),
        ) && choices(*final(state)) == choices(*old(state)) && final(state).field == old(state).field && *final(config) == *old(config)),
        key.key == Key::Enter ==> *final(state) == *old(state) && match o.transition {
            Transition::ShowError(m) => o.effect is Nothing,
            Transition::ReturnToMain { clear_input } => !clear_input && o.effect is SaveConfig,
            _ => false,
        },
        !(key.key == Key::Esc || key.key == Key::Tab || key.key == Key::Down || key.key
            == Key::BackTab || key.key == Key::Up || key.key == Key::Left || key.key == Key::Right
            || key.key == Key::Backspace || key.key is Char || key.key == Key::Enter) ==> stays(o)
            && *final(state) == *old(state) && *final(config) == *old(config),
{
    match key.key {
        Key::Esc => {
            if first_run {
                outcome(Transition::Stay)
            } else {
                outcome(Transition::Back)
            }
        },
        Key::Tab | Key::Down => {
            state.next_field();
            outcome(Transition::Stay)
        },
        Key::BackTab | Key::Up => {
            state.prev_field();
            outcome(Transition::Stay)
        },
        Key::Left | Key::Right => {
            let right = key.key == Key::Right;
            match state.field {
                SetupField::Destination => {
                    state.cloud = !state.cloud && rclone_available;
                },
                SetupField::CookieSource => {
                    state.cookie_source_index = if right {
                        (state.cookie_source_index + 1) % 3
                    } else {
                        (state.cookie_source_index + 2) % 3
                    };
                },
                SetupField::Browser => {
                    state.browser_index = if right {
                        (state.browser_index + 1) % 8
                    } else {
                        (state.browser_index + 7) % 8
                    };
                },
                SetupField::GenericConfirmation => {
                    state.confirm_generic_urls = !state.confirm_generic_urls;
                },
                SetupField::ClipboardAutofill => {
                    state.clipboard_autofill = !state.clipboard_autofill;
                },
                SetupField::WriteSubtitles => {
                    state.write_subtitles = !state.write_subtitles;
                },
                SetupField::EmbedSubtitles => {
                    state.embed_subtitles = !state.embed_subtitles;
                },
                SetupField::AutoSubtitles => {
                    state.include_auto_subtitles = !state.include_auto_subtitles;
                },
                SetupField::EmbedThumbnail => {
                    state.embed_thumbnail = !state.embed_thumbnail;
                },
                SetupField::EmbedChapters => {
                    state.embed_chapters = !state.embed_chapters;
                },
                _ => {},
            }
            outcome(Transition::Stay)
        },
        Key::Enter => match apply_setup(state, config) {
            Err(message) => outcome(Transition::ShowError(message)),
            Ok(()) => KeyOutcome {
                transition: Transition::ReturnToMain { clear_input: false },
                effect: Effect::SaveConfig,
            },
        },
        Key::Backspace => {
            state.backspace_field();
            outcome(Transition::Stay)
        },
        Key::Char(ch) => {
            state.push_char(ch);
            outcome(Transition::Stay)
        },
        _ => outcome(Transition::Stay),
    }
}

/// The main screen's commands.
pub open spec fn command_screen(input: Seq<char>) -> Option<Screen> {
    if input == "/howtouse"@ {
        Some(Screen::HowToUse)
    } else if input == "/queue"@ {
        Some(Screen::Queue(QueueState { selected: 0 }))
    } else if input == "/history"@ {
        Some(Screen::History(HistoryState { selected: 0 }))
    } else if input == "/update"@ {
        Some(Screen::UpdateConfirm)
    } else {
        None
    }
}

/// The main screen: typing edits the URL; Enter runs a command or previews
/// the URL (asking first for an unverified host where so configured); Esc,
/// or `q` on an empty input, quits.
pub fn handle_main_key(state: &mut MainState, config: &Config, rclone_available: bool, key: KeyPress) -> (o:
    KeyOutcome)
    ensures
        key.key == Key::Esc ==> plain(o, Transition::Quit) && final(state).url_input@ == old(state).url_input@,
        key.key == Key::Char('q') && old(state).url_input@.len() == 0 ==> plain(
            o,
            Transition::Quit,
        ) && final(state).url_input@ == old(state).url_input@,
        (key.key matches Key::Char(c) ==> (!(c == 'q' && old(state).url_input@.len() == 0) ==> (
        stays(o) && final(state).url_input@ == old(state).url_input@.push(c)))),
        key.key == Key::Backspace ==> stays(o) && final(state).url_input@ == edited(
            old(state).url_input@,
            None,
        ),
        key.key == Key::Enter ==> ({
            let input = trim(old(state).url_input@);
            if input == "/quit"@ {
                plain(o, Transition::Quit) && final(state).url_input@ == old(state).url_input@
            } else if input == "/settings"@ {
                final(state).url_input@.len() == 0 && o.effect is Nothing && (
                o.transition matches Transition::Push(Screen::Setup(st)) && st.field
                    == SetupField::Destination)
            } else if command_screen(input) is Some {
                final(state).url_input@.len() == 0 && plain(
                    o,
                    Transition::Push(command_screen(input)->0),
                )
            } else {
                final(state).url_input@ == old(state).url_input@ && match platform_of(input) {
                    None => o.effect is Nothing && (o.transition matches Transition::ShowError(m)
                        && m@ == "unsupported URL: "@ + trim(input)),
                    Some(p) => if p == Platform::Generic && config.confirm_generic_urls {
                        o.effect is Nothing && (o.transition matches Transition::Push(
                            Screen::GenericConfirm(g),
                        ) && g.url@ == input)
                    } else {
                        o.transition == Transition::Push(
                            Screen::PreviewLoading(PreviewLoadingState { cancelling: false }),
                        ) && (o.effect matches Effect::StartPreview(u) && u@ == input)
                    },
                }
            }
        }),
        !(key.key == Key::Esc || key.key is Char || key.key == Key::Backspace || key.key
            == Key::Enter) ==> stays(o) && final(state).url_input@ == old(state).url_input@,
{
    match key.key {
        Key::Esc => outcome(Transition::Quit),
        Key::Enter => {
            let input = trim_str(state.url_input.as_str());
            if str_eq(input.as_str(), "/quit") {
                return outcome(Transition::Quit);
            }
            if str_eq(input.as_str(), "/settings") {
                state.url_input = String::new();
                return outcome(
                    Transition::Push(Screen::Setup(SetupState::from_config(config, rclone_available))),
                );
            }
            proof {
                lemma_command_names();
            }
            if str_eq(input.as_str(), "/howtouse") {
                state.url_input = String::new();
                return outcome(Transition::Push(Screen::HowToUse));
            }
            if str_eq(input.as_str(), "/queue") {
                state.url_input = String::new();
                return outcome(Transition::Push(Screen::Queue(QueueState { selected: 0 })));
            }
            if str_eq(input.as_str(), "/history") {
                state.url_input = String::new();
                return outcome(Transition::Push(Screen::History(HistoryState { selected: 0 })));
            }
            if str_eq(input.as_str(), "/update") {
                state.url_input = String::new();
                return outcome(Transition::Push(Screen::UpdateConfirm));
            }
            match detect_platform(input.as_str()) {
                Ok(platform) => {
                    if platform == Platform::Generic && config.confirm_generic_urls {
                        outcome(Transition::Push(Screen::GenericConfirm(GenericConfirmState { url: input })))
                    } else {
                        KeyOutcome {
                            transition: Transition::Push(
                                Screen::PreviewLoading(PreviewLoadingState { cancelling: false }),
                            ),
                            effect: Effect::StartPreview(input),
                        }
                    }
                },
                Err(error) => outcome(Transition::ShowError(error.to_string())),
            }
        },
        Key::Backspace => {
            erase_last(&mut state.url_input);
            outcome(Transition::Stay)
        },
        Key::Char(ch) => {
            if ch == 'q' && state.url_input.unicode_len() == 0 {
                outcome(Transition::Quit)
            } else {
                state.url_input.push(ch);
                outcome(Transition::Stay)
            }
        },
        _ => outcome(Transition::Stay),
    }
}

proof fn lemma_command_names()
    ensures
        "/howtouse"@ != "/queue"@,
        "/howtouse"@ != "/history"@,
        "/howtouse"@ != "/update"@,
        "/queue"@ != "/history"@,
        "/queue"@ != "/update"@,
        "/history"@ != "/update"@,
        "/quit"@ != "/howtouse"@,
        "/quit"@ != "/queue"@,
        "/quit"@ != "/history"@,
        "/quit"@ != "/update"@,
        "/settings"@ != "/howtouse"@,
        "/settings"@ != "/queue"@,
        "/settings"@ != "/history"@,
        "/settings"@ != "/update"@,
{
    reveal_strlit("/howtouse");
    assert("/howtouse"@.len() == 9);
    reveal_strlit("/queue");
    assert("/queue"@.len() == 6);
    reveal_strlit("/history");
    assert("/history"@.len() == 8);
    reveal_strlit("/update");
    assert("/update"@.len() == 7);
    reveal_strlit("/quit");
    assert("/quit"@.len() == 5);
    reveal_strlit("/settings");
    assert("/settings"@.len() == 9);
    assert("/settings"@[1] == 's');
    assert("/howtouse"@[1] == 'h');
}

impl Navigation {
    /// Carries out a key's transition. Quitting with unfinished downloads
    /// asks first; going back from the first screen quits.
    pub fn apply(&mut self, transition: Transition, has_unfinished: bool, report: &DependencyReport) -> (r:
        AppAction)
        ensures
            match transition {
                Transition::Stay => r == AppAction::Continue && final(self).shown() == old(self).shown() && final(self).stack() == old(self).stack(),
                Transition::Push(s) => r == AppAction::Continue && final(self).shown() == s && final(self).stack() == old(self).stack().push(old(self).shown()),
                Transition::Back => if old(self).stack().len() > 0 {
                    r == AppAction::Continue && final(self).shown() == old(self).stack().last()
                        && final(self).stack() == old(self).stack().drop_last()
                } else {
                    r == AppAction::Quit && final(self).shown() == old(self).shown() && final(self).stack() == old(self).stack()
                },
                Transition::ReturnToMain { clear_input } => r == AppAction::Continue && final(self).stack().len() == 0 && main_with(
                    if clear_input {
                        Seq::empty()
                    } else {
                        root_input(old(self).shown(), old(self).stack())
                    },
                    final(self).shown(),
                ),
                Transition::ShowError(m) => r == AppAction::Continue && (final(self).shown() matches Screen::Error(e) && error_screen_for(e, m, *report)) && final(self).stack().len()
                    == 1 && main_with(
                    root_input(old(self).shown(), old(self).stack()),
                    final(self).stack()[0],
                ),
                Transition::Quit => if has_unfinished {
                    r == AppAction::Continue && final(self).shown() == Screen::ExitConfirm && final(self).stack() == old(self).stack().push(old(self).shown())
                } else {
                    r == AppAction::Quit && final(self).shown() == old(self).shown() && final(self).stack() == old(self).stack()
                },
                Transition::ForceQuit => r == AppAction::Quit && final(self).shown() == old(self).shown() && final(self).stack() == old(self).stack(),
            },
    {
        match transition {
            Transition::Stay => AppAction::Continue,
            Transition::Push(screen) => {
                self.push(screen);
                AppAction::Continue
            },
            Transition::Back => {
                if self.back() {
                    AppAction::Continue
                } else {
                    AppAction::Quit
                }
            },
            Transition::ReturnToMain { clear_input } => {
                self.return_to_main(clear_input);
                AppAction::Continue
            },
            Transition::ShowError(message) => {
                self.show_error(ErrorState::new(message, report));
                AppAction::Continue
            },
            Transition::Quit => {
                if has_unfinished {
                    self.push(Screen::ExitConfirm);
                    AppAction::Continue
                } else {
                    AppAction::Quit
                }
            },
            Transition::ForceQuit => AppAction::Quit,
        }
    }
}

// ---------------------------------------------------------------------
// Following the running download
// ---------------------------------------------------------------------

/// What is shown of the running download.
pub struct ActiveStatus {
    pub job_id: JobId,
    pub request: DownloadRequest,
    pub platform: Platform,
    pub item: Option<DownloadItem>,
    pub progress: Option<DownloadProgress>,
    pub status_text: String,
}

/// The texts and gauge levels of the download screen.
pub struct DownloadPanel {
    /// The platform and the job's status.
    pub heading: String,
    /// The item being fetched, or that items are still being resolved.
    pub item_line: String,
    /// The current item's gauge, in whole percent.
    pub item_percent: u16,
    /// The whole job's gauge, in whole percent.
    pub overall_percent: u16,
    /// The speed and time left, or a spinner while nothing is reported.
    pub detail: String,
}

/// A percentage given in hundredths, rounded half up to a whole percent, at
/// most 100.
pub open spec fn gauge_percent(hundredths: nat) -> nat {
    if (hundredths + 50) / 100 > 100 {
        100
    } else {
        (hundredths + 50) / 100
    }
}

/// A percentage given in hundredths, rounded half up to one decimal.
pub open spec fn one_decimal(hundredths: nat) -> Seq<char> {
    let tenths = (hundredths + 5) / 10;
    decimal(tenths / 10) + "."@ + decimal(tenths % 10)
}

/// The spinner's frame for tick `i`.
pub open spec fn spinner_frame(i: nat) -> Seq<char> {
    if i % 4 == 0 {
        "|"@
    } else if i % 4 == 1 {
        "/"@
    } else if i % 4 == 2 {
        "-"@
    } else {
        "\\"@
    }
}

/// The item line: its position, its count and its title cut to 56
/// characters.
pub open spec fn item_line_text(item: Option<DownloadItem>) -> Seq<char> {
    match item {
        None => "Resolving download items"@,
        Some(it) => decimal(it.index as nat) + "/"@ + decimal(it.total as nat) + " | "@ + truncated(
            it.title@,
            56,
        ),
    }
}

/// The detail line of a reported progress.
pub open spec fn progress_detail(p: DownloadProgress) -> Seq<char> {
    "Item "@ + one_decimal(p.item_hundredths as nat) + "% | Overall "@ + one_decimal(
        p.overall_hundredths as nat,
    ) + "% | Speed: "@ + p.speed@ + " | ETA: "@ + p.eta@
}

fn push_one_decimal(out: &mut String, hundredths: u32)
    ensures
        final(out)@ == old(out)@ + one_decimal(hundredths as nat),
{
    let tenths: u64 = (hundredths as u64 + 5) / 10;
    push_decimal(out, tenths / 10);
    push_str(out, ".");
    push_decimal(out, tenths % 10);
    assert(final(out)@ =~= old(out)@ + one_decimal(hundredths as nat));
}

fn gauge_level(hundredths: u32) -> (r: u16)
    ensures
        r == gauge_percent(hundredths as nat),
{
    let whole: u64 = (hundredths as u64 + 50) / 100;
    if whole > 100 {
        100
    } else {
        whole as u16
    }
}

fn spinner_text(i: usize) -> (r: &'static str)
    ensures
        r@ == spinner_frame(i as nat),
{
    if i % 4 == 0 {
        "|"
    } else if i % 4 == 1 {
        "/"
    } else if i % 4 == 2 {
        "-"
    } else {
        "\\"
    }
}

/// What the download screen shows of the running download, if any, at
/// spinner tick `spinner_index`.
pub fn download_panel(active: Option<&ActiveStatus>, spinner_index: usize) -> (p: DownloadPanel)
    ensures
        match active {
            None => {
                &&& p.heading@ == "Detecting... | Finishing..."@
                &&& p.item_line@ == "Resolving download items"@
                &&& p.item_percent == 0
                &&& p.overall_percent == 0
                &&& p.detail@ == spinner_frame(spinner_index as nat) + " Finishing..."@
            },
            Some(a) => {
                &&& p.heading@ == a.platform.label_text() + " | "@ + a.status_text@
                &&& p.item_line@ == item_line_text(a.item)
                &&& match a.progress {
                    None => {
                        &&& p.item_percent == 0
                        &&& p.overall_percent == 0
                        &&& p.detail@ == spinner_frame(spinner_index as nat) + " "@ + a.status_text@
                    },
                    Some(pr) => {
                        &&& p.item_percent == gauge_percent(pr.item_hundredths as nat)
                        &&& p.overall_percent == gauge_percent(pr.overall_hundredths as nat)
                        &&& p.detail@ == progress_detail(pr)
                    },
                }
            },
        },
{
    let spinner = spinner_text(spinner_index);
    match active {
        None => {
            let mut detail = owned(spinner);
            push_str(&mut detail, " Finishing...");
            DownloadPanel {
                heading: owned("Detecting... | Finishing..."),
                item_line: owned("Resolving download items"),
                item_percent: 0,
                overall_percent: 0,
                detail,
            }
        },
        Some(a) => {
            let mut heading = owned(a.platform.label());
            push_str(&mut heading, " | ");
            push_str(&mut heading, a.status_text.as_str());
            let item_line = match &a.item {
                None => owned("Resolving download items"),
                Some(it) => {
                    let mut line = String::new();
                    push_decimal(&mut line, it.index as u64);
                    push_str(&mut line, "/");
                    push_decimal(&mut line, it.total as u64);
                    push_str(&mut line, " | ");
                    let title = truncate_text(it.title.as_str(), 56);
                    push_str(&mut line, title.as_str());
                    line
                },
            };
            match &a.progress {
                None => {
                    let mut detail = owned(spinner);
                    push_str(&mut detail, " ");
                    push_str(&mut detail, a.status_text.as_str());
                    DownloadPanel { heading, item_line, item_percent: 0, overall_percent: 0, detail }
                },
                Some(pr) => {
                    let mut detail = owned("Item ");
                    push_one_decimal(&mut detail, pr.item_hundredths);
                    push_str(&mut detail, "% | Overall ");
                    push_one_decimal(&mut detail, pr.overall_hundredths);
                    push_str(&mut detail, "% | Speed: ");
                    push_str(&mut detail, pr.speed.as_str());
                    push_str(&mut detail, " | ETA: ");
                    push_str(&mut detail, pr.eta.as_str());
                    DownloadPanel {
                        heading,
                        item_line,
                        item_percent: gauge_level(pr.item_hundredths),
                        overall_percent: gauge_level(pr.overall_hundredths),
                        detail,
                    }
                },
            }
        },
    }
}

/// How the running download ended.
pub enum DownloadTerminal {
    Finished(JobId, DownloadSummary),
    Failed(JobId, String),
    Cancelled(JobId, DownloadSummary),
}

/// How a metadata preview ended.
pub enum PreviewTerminal {
    Ready(String, MetadataPreview),
    Failed(String),
    Cancelled,
}

/// The status line after an event, where the event changes it.
pub open spec fn status_after(event: DownloadEvent) -> Option<Seq<char>> {
    match event {
        DownloadEvent::Resolving => Some("Resolving items..."@),
        DownloadEvent::ItemStarted { .. } => Some("Starting item..."@),
        DownloadEvent::Progress { .. } => Some("Downloading"@),
        DownloadEvent::Converting { .. } => Some("Converting..."@),
        DownloadEvent::Uploading { .. } => Some("Uploading..."@),
        DownloadEvent::ItemCompleted { .. } => Some("Item completed"@),
        DownloadEvent::ItemFailed { .. } => Some("Item failed; continuing..."@),
        DownloadEvent::ItemWarning { warning } => Some("Warning: "@ + warning.message@),
        _ => None,
    }
}

/// The item an event is about, where it names one.
pub open spec fn item_of(event: DownloadEvent) -> Option<DownloadItem> {
    match event {
        DownloadEvent::ItemStarted { item, .. } => Some(item),
        DownloadEvent::Progress { item, .. } => Some(item),
        DownloadEvent::Converting { item } => Some(item),
        DownloadEvent::Uploading { item } => Some(item),
        DownloadEvent::ItemCompleted { result } => Some(result.item),
        DownloadEvent::ItemFailed { failure } => Some(failure.item),
        DownloadEvent::ItemWarning { warning } => Some(warning.item),
        _ => None,
    }
}

impl ActiveStatus {
    /// The status of a job that has just started.
    pub fn starting(job: &QueuedJob) -> (a: ActiveStatus)
        ensures
            a.job_id == job.id,
            a.request == job.request,
            a.platform == job.platform,
            a.item is None,
            a.progress is None,
            a.status_text@ == "Starting download..."@,
    {
        ActiveStatus {
            job_id: job.id,
            request: job.request.duplicate(),
            platform: job.platform,
            item: None,
            progress: None,
            status_text: owned("Starting download..."),
        }
    }

    /// Takes in an event of the running download; the events that end it
    /// give how it ended.
    pub fn apply(&mut self, event: DownloadEvent) -> (t: Option<DownloadTerminal>)
        ensures
            final(self).job_id == old(self).job_id,
            final(self).request == old(self).request,
            final(self).platform == match event {
                DownloadEvent::ItemStarted { platform, .. } => platform,
                DownloadEvent::Progress { platform, .. } => platform,
                _ => old(self).platform,
            },
            final(self).item == match item_of(event) {
                Some(i) => Some(i),
                None => old(self).item,
            },
            final(self).progress == match event {
                DownloadEvent::ItemStarted { .. } => None,
                DownloadEvent::Progress { progress, .. } => Some(progress),
                _ => old(self).progress,
            },
            final(self).status_text@ == match status_after(event) {
                Some(text) => text,
                None => old(self).status_text@,
            },
            match event {
                DownloadEvent::Finished { summary } => t == Some(
                    DownloadTerminal::Finished(old(self).job_id, summary),
                ),
                DownloadEvent::Failed { error } => t == Some(
                    DownloadTerminal::Failed(old(self).job_id, error),
                ),
                DownloadEvent::Cancelled { summary } => t == Some(
                    DownloadTerminal::Cancelled(old(self).job_id, summary),
                ),
                _ => t is None,
            },
    {
        match event {
            DownloadEvent::Resolving => {
                self.status_text = owned("Resolving items...");
                None
            },
            DownloadEvent::ItemStarted { item, platform } => {
                self.platform = platform;
                self.item = Some(item);
                self.progress = None;
                self.status_text = owned("Starting item...");
                None
            },
            DownloadEvent::Progress { progress, item, platform } => {
                self.platform = platform;
                self.item = Some(item);
                self.status_text = owned("Downloading");
                self.progress = Some(progress);
                None
            },
            DownloadEvent::Converting { item } => {
                self.item = Some(item);
                self.status_text = owned("Converting...");
                None
            },
            DownloadEvent::Uploading { item } => {
                self.item = Some(item);
                self.status_text = owned("Uploading...");
                None
            },
            DownloadEvent::ItemCompleted { result } => {
                self.item = Some(result.item);
                self.status_text = owned("Item completed");
                None
            },
            DownloadEvent::ItemFailed { failure } => {
                self.item = Some(failure.item);
                self.status_text = owned("Item failed; continuing...");
                None
            },
            DownloadEvent::ItemWarning { warning } => {
                let mut text = owned("Warning: ");
                push_str(&mut text, warning.message.as_str());
                self.item = Some(warning.item);
                self.status_text = text;
                None
            },
            DownloadEvent::Finished { summary } => Some(
                DownloadTerminal::Finished(self.job_id, summary),
            ),
            DownloadEvent::Failed { error } => Some(DownloadTerminal::Failed(self.job_id, error)),
            DownloadEvent::Cancelled { summary } => Some(
                DownloadTerminal::Cancelled(self.job_id, summary),
            ),
            _ => None,
        }
    }
}

/// Whether the item already has an outcome in the summary.
pub open spec fn summarized(summary: DownloadSummary, item: DownloadItem) -> bool {
    (exists|i: int|
        0 <= i < summary.succeeded@.len() && (#[trigger] summary.succeeded@[i]).item.playlist_index
            == item.playlist_index) || (exists|i: int|
        0 <= i < summary.failed@.len() && (#[trigger] summary.failed@[i]).item.playlist_index
            == item.playlist_index)
}

fn has_outcome(summary: &DownloadSummary, item: &DownloadItem) -> (r: bool)
    ensures
        r == summarized(*summary, *item),
{
    let mut i: usize = 0;
    while i < summary.succeeded.len()
        invariant
            i <= summary.succeeded.len(),
            forall|j: int|
                0 <= j < i ==> (#[trigger] summary.succeeded@[j]).item.playlist_index
                    != item.playlist_index,
        decreases summary.succeeded.len() - i,
    {
        if summary.succeeded[i].item.playlist_index == item.playlist_index {
            return true;
        }
        i = i + 1;
    }
    let mut k: usize = 0;
    while k < summary.failed.len()
        invariant
            k <= summary.failed.len(),
            forall|j: int|
                0 <= j < summary.succeeded@.len() ==> (#[trigger] summary.succeeded@[j]).item.playlist_index
                    != item.playlist_index,
            forall|j: int|
                0 <= j < k ==> (#[trigger] summary.failed@[j]).item.playlist_index
                    != item.playlist_index,
        decreases summary.failed.len() - k,
    {
        if summary.failed[k].item.playlist_index == item.playlist_index {
            return true;
        }
        k = k + 1;
    }
    false
}

/// The title an unfinished job is recorded under: its item's, else the
/// queued title, else a generic one.
pub open spec fn unfinished_title(item: Option<DownloadItem>, queued: Option<Seq<char>>) -> Seq<char> {
    match item {
        Some(i) => i.title@,
        None => match queued {
            Some(t) => t,
            None => "Download job"@,
        },
    }
}

/// What the history records of an event of the running download: each
/// item's success or failure, and a job that failed or was cancelled before
/// its current item got an outcome.
pub fn history_entry_for(
    active: &ActiveStatus,
    queued_title: Option<&str>,
    event: &DownloadEvent,
) -> (r: Option<HistoryEntry>)
    ensures
        match *event {
            DownloadEvent::ItemCompleted { result } => r matches Some(e) && records(
                e,
                active.request,
                active.platform,
                result.item.title@,
                result.item.playlist_index,
                Some(result.path@),
                HistoryStatus::Succeeded,
            ),
            DownloadEvent::ItemFailed { failure } => r matches Some(e) && records(
                e,
                active.request,
                active.platform,
                failure.item.title@,
                failure.item.playlist_index,
                None,
                HistoryStatus::Failed,
            ),
            DownloadEvent::Failed { .. } => r matches Some(e) && records(
                e,
                active.request,
                active.platform,
                unfinished_title(active.item, None),
                requested_index(active.request.playlist),
                None,
                HistoryStatus::Failed,
            ),
            DownloadEvent::Cancelled { summary } => match active.item {
                Some(item) => if summarized(summary, item) {
                    r is None
                } else {
                    r matches Some(e) && records(
                        e,
                        active.request,
                        active.platform,
                        item.title@,
                        requested_index(active.request.playlist),
                        None,
                        HistoryStatus::Cancelled,
                    )
                },
                None => r matches Some(e) && records(
                    e,
                    active.request,
                    active.platform,
                    unfinished_title(
                        None,
                        match queued_title {
                            Some(t) => Some(t@),
                            None => None,
                        },
                    ),
                    requested_index(active.request.playlist),
                    None,
                    HistoryStatus::Cancelled,
                ),
            },
            _ => r is None,
        },
{
    match event {
        DownloadEvent::ItemCompleted { result } => Some(
            HistoryEntry::succeeded(&active.request, active.platform, result),
        ),
        DownloadEvent::ItemFailed { failure } => Some(
            HistoryEntry::failed(&active.request, active.platform, failure),
        ),
        DownloadEvent::Failed { .. } => {
            let title = match &active.item {
                Some(item) => copy_string(&item.title),
                None => owned("Download job"),
            };
            Some(
                HistoryEntry::unfinished(
                    &active.request,
                    active.platform,
                    title,
                    HistoryStatus::Failed,
                ),
            )
        },
        DownloadEvent::Cancelled { summary } => match &active.item {
            Some(item) => {
                if has_outcome(summary, item) {
                    None
                } else {
                    Some(
                        HistoryEntry::unfinished(
                            &active.request,
                            active.platform,
                            copy_string(&item.title),
                            HistoryStatus::Cancelled,
                        ),
                    )
                }
            },
            None => {
                let title = match queued_title {
                    Some(t) => owned(t),
                    None => owned("Download job"),
                };
                Some(
                    HistoryEntry::unfinished(
                        &active.request,
                        active.platform,
                        title,
                        HistoryStatus::Cancelled,
                    ),
                )
            },
        },
        _ => None,
    }
}

/// Whether rclone is there, as far as the report knows.
pub open spec fn rclone_present(report: DependencyReport) -> bool {
    !report.missing_optional@.contains(Tool::Rclone) && !report.missing_required@.contains(
        Tool::Rclone,
    )
}

pub fn rclone_available(report: &DependencyReport) -> (r: bool)
    ensures
        r == rclone_present(*report),
{
    let mut i: usize = 0;
    while i < report.missing_optional.len()
        invariant
            i <= report.missing_optional.len(),
            forall|j: int| 0 <= j < i ==> report.missing_optional@[j] != Tool::Rclone,
        decreases report.missing_optional.len() - i,
    {
        if report.missing_optional[i] == Tool::Rclone {
            assert(report.missing_optional@[i as int] == Tool::Rclone);
            return false;
        }
        i = i + 1;
    }
    let mut k: usize = 0;
    while k < report.missing_required.len()
        invariant
            k <= report.missing_required.len(),
            forall|j: int| 0 <= j < report.missing_optional@.len() ==> report.missing_optional@[j]
                != Tool::Rclone,
            forall|j: int| 0 <= j < k ==> report.missing_required@[j] != Tool::Rclone,
        decreases report.missing_required.len() - k,
    {
        if report.missing_required[k] == Tool::Rclone {
            assert(report.missing_required@[k as int] == Tool::Rclone);
            return false;
        }
        k = k + 1;
    }
    true
}

/// The job that the shown screen follows, if any.
pub open spec fn followed_job(s: Screen) -> Option<JobId> {
    match s {
        Screen::Download(d) => Some(d.job_id),
        _ => None,
    }
}

/// The notice for a job that ended off screen.
pub open spec fn job_notice(t: DownloadTerminal) -> Seq<char> {
    match t {
        DownloadTerminal::Finished(id, summary) => "Job "@ + crate::text::decimal(id.0 as nat)
            + " finished: "@ + crate::text::decimal(summary.succeeded@.len()) + " succeeded, "@
            + crate::text::decimal(summary.failed@.len()) + " failed"@,
        DownloadTerminal::Failed(id, _) => "Job "@ + crate::text::decimal(id.0 as nat) + " failed"@,
        DownloadTerminal::Cancelled(id, _) => "Job "@ + crate::text::decimal(id.0 as nat)
            + " cancelled"@,
    }
}

pub open spec fn terminal_job(t: DownloadTerminal) -> JobId {
    match t {
        DownloadTerminal::Finished(id, _) => id,
        DownloadTerminal::Failed(id, _) => id,
        DownloadTerminal::Cancelled(id, _) => id,
    }
}

impl Navigation {
    /// Shows how a followed job ended: its summary, its error, or the main
    /// screen for a cancelled job that got nothing done. A job that is not
    /// followed gives a notice instead.
    pub fn download_ended(&mut self, terminal: DownloadTerminal, report: &DependencyReport) -> (notice:
        Option<String>)
        ensures
            followed_job(old(self).shown()) != Some(terminal_job(terminal)) ==> (notice matches Some(
                n,
            ) && n@ == job_notice(terminal)) && final(self).shown() == old(self).shown() && final(self).stack() == old(self).stack(),
            followed_job(old(self).shown()) == Some(terminal_job(terminal)) ==> notice is None
                && match terminal {
                DownloadTerminal::Finished(_, summary) => final(self).shown() == Screen::Complete(
                    CompleteState { summary },
                ) && final(self).stack() == old(self).stack(),
                DownloadTerminal::Failed(_, error) => (final(self).shown() matches Screen::Error(e)
                    && error_screen_for(e, error, *report)) && final(self).stack().len() == 1
                    && main_with(
                    root_input(old(self).shown(), old(self).stack()),
                    final(self).stack()[0],
                ),
                DownloadTerminal::Cancelled(_, summary) => if summary.succeeded@.len() == 0
                    && summary.failed@.len() == 0 {
                    main_with(
                        root_input(old(self).shown(), old(self).stack()),
                        final(self).shown(),
                    ) && final(self).stack().len() == 0
                } else {
                    final(self).shown() == Screen::Complete(CompleteState { summary }) && final(self).stack() == old(self).stack()
                },
            },
    {
        let followed = match &self.current {
            Screen::Download(d) => Some(d.job_id),
            _ => None,
        };
        match terminal {
            DownloadTerminal::Finished(id, summary) => {
                if followed == Some(id) {
                    self.replace(Screen::Complete(CompleteState { summary }));
                    None
                } else {
                    let mut n = owned("Job ");
                    crate::text::push_decimal(&mut n, id.0);
                    push_str(&mut n, " finished: ");
                    crate::text::push_decimal(&mut n, summary.succeeded.len() as u64);
                    push_str(&mut n, " succeeded, ");
                    crate::text::push_decimal(&mut n, summary.failed.len() as u64);
                    push_str(&mut n, " failed");
                    Some(n)
                }
            },
            DownloadTerminal::Failed(id, error) => {
                if followed == Some(id) {
                    self.show_error(ErrorState::new(error, report));
                    None
                } else {
                    let mut n = owned("Job ");
                    crate::text::push_decimal(&mut n, id.0);
                    push_str(&mut n, " failed");
                    Some(n)
                }
            },
            DownloadTerminal::Cancelled(id, summary) => {
                if followed == Some(id) {
                    if summary.succeeded.len() == 0 && summary.failed.len() == 0 {
                        self.return_to_main(false);
                    } else {
                        self.replace(Screen::Complete(CompleteState { summary }));
                    }
                    None
                } else {
                    let mut n = owned("Job ");
                    crate::text::push_decimal(&mut n, id.0);
                    push_str(&mut n, " cancelled");
                    Some(n)
                }
            },
        }
    }

    /// Shows how a preview ended: the preview where it is still awaited, the
    /// error, or the screen before it once cancelled.
    pub fn preview_ended(&mut self, terminal: PreviewTerminal, report: &DependencyReport)
        ensures
            match terminal {
                PreviewTerminal::Ready(url, preview) => if old(self).shown() is PreviewLoading {
                    final(self).shown() == Screen::Preview(PreviewState { url, preview }) && final(self).stack() == old(self).stack()
                } else {
                    final(self).shown() == old(self).shown() && final(self).stack() == old(self).stack()
                },
                PreviewTerminal::Failed(error) => (final(self).shown() matches Screen::Error(e)
                    && error_screen_for(e, error, *report)) && final(self).stack().len() == 1
                    && main_with(
                    root_input(old(self).shown(), old(self).stack()),
                    final(self).stack()[0],
                ),
                PreviewTerminal::Cancelled => if old(self).shown() is PreviewLoading && old(self).stack().len() > 0 {
                    final(self).shown() == old(self).stack().last() && final(self).stack() == old(self).stack().drop_last()
                } else {
                    final(self).shown() == old(self).shown() && final(self).stack() == old(self).stack()
                },
            },
    {
        let loading = match &self.current {
            Screen::PreviewLoading(_) => true,
            _ => false,
        };
        match terminal {
            PreviewTerminal::Ready(url, preview) => {
                if loading {
                    self.replace(Screen::Preview(PreviewState { url, preview }));
                }
            },
            PreviewTerminal::Failed(error) => {
                self.show_error(ErrorState::new(error, report));
            },
            PreviewTerminal::Cancelled => {
                if loading {
                    self.back();
                }
            },
        }
    }

    /// Pastes a text into the screen shown: the URL input of the main
    /// screen, or the selected field of the settings form; other screens
    /// take no text.
    pub fn paste(&mut self, text: &str)
        ensures
            final(self).stack() == old(self).stack(),
            match old(self).shown() {
                Screen::Main(m) => (final(self).shown() matches Screen::Main(m2) && m2.url_input@
                    == m.url_input@ + trim(text@)),
                Screen::Setup(st) => (final(self).shown() matches Screen::Setup(st2) && texts_extended(
                    st,
                    st2,
                    typeable(text@),
                ) && same_choices(st2, st) && st2.field == st.field && st2.scroll_offset
                    == st.scroll_offset),
                _ => final(self).shown() == old(self).shown(),
            },
    {
        match &mut self.current {
            Screen::Main(m) => m.paste(text),
            Screen::Setup(st) => st.paste(text),
            _ => {},
        }
    }

    /// Shows the outcome of an update where it is still awaited.
    pub fn update_finished(&mut self, outcome: YtDlpUpdateOutcome)
        ensures
            old(self).shown() is UpdateRunning ==> final(self).shown() == Screen::UpdateResult(
                UpdateResultState { outcome },
            ),
            !(old(self).shown() is UpdateRunning) ==> final(self).shown() == old(self).shown(),
            final(self).stack() == old(self).stack(),
    {
        let running = match &self.current {
            Screen::UpdateRunning => true,
            _ => false,
        };
        if running {
            self.replace(Screen::UpdateResult(UpdateResultState { outcome }));
        }
    }
}

} // verus!
