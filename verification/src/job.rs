//! The decisions of a download job: what its yt-dlp run reported, whether
//! the file is converted, and the commands of the conversion and upload.
//! Running the processes is the frontend's part.

use vstd::prelude::*;

use crate::deps::{join_lines, join_with_newlines};
use crate::config::CookieSource;
use crate::download::{
    height_record, output_record, parse_height_line, parse_output_line, DownloadEvent, DownloadItem,
    DownloadProgress, DownloadRequest, DownloadSuccess, DownloadSummary, DownloadWarning, Duplicate,
    Format, Quality,
};
use crate::platform::Platform;
use crate::error::Error;
use crate::progress::{advance, fresh_tracker, report_view, ProgressTracker, TrackerView};
use crate::text::{
    all_ws, chars_of, has_prefix, is_blank_str, last_index_of, lemma_last_index_of, owned,
    push_str, rfind_char, views,
};

verus! {

broadcast use vstd::string::group_string_axioms;

/// How many streams an item of this format has where no plan says:
/// video and audio for a video, one for audio.
pub open spec fn expected_parts(format: Format) -> nat {
    if format == Format::Video {
        2
    } else {
        1
    }
}

/// What a running yt-dlp has reported: the confirmed output file, the
/// error lines that were not progress, and the progress so far.
pub struct YtDlpRun {
    output_path: Option<String>,
    height: Option<u64>,
    messages: Vec<String>,
    tracker: ProgressTracker,
}

pub open spec fn opt_view(o: Option<String>) -> Option<Seq<char>> {
    match o {
        Some(s) => Some(s@),
        None => None,
    }
}

/// The file name of a path: what follows its last `/`.
pub open spec fn file_name_of(path: Seq<char>) -> Seq<char> {
    path.subrange(last_index_of(path, '/') + 1, path.len() as int)
}

/// A path whose extension is `part`, the name yt-dlp gives an unfinished
/// download (a file named just `.part` has no extension).
pub open spec fn unfinished_name(path: Seq<char>) -> bool {
    let name = file_name_of(path);
    name.len() > 5 && name.subrange(name.len() - 5, name.len() as int) == ".part"@
}

pub fn is_unfinished(path: &str) -> (r: bool)
    ensures
        r == unfinished_name(path@),
{
    let v = chars_of(path);
    let vs = v.as_slice();
    let slash = rfind_char(vs, '/');
    proof {
        lemma_last_index_of(v@, '/');
    }
    let start: usize = match slash {
        Some(i) => {
            assert(vs@ == v@);
            assert(i < v.len());
            i + 1
        },
        None => 0,
    };
    let n = v.len() - start;
    if n <= 5 {
        return false;
    }
    let ghost name = v@.subrange(start as int, v@.len() as int);
    assert(name == file_name_of(path@));
    let tail = crate::text::slice_vec(v.as_slice(), v.len() - 5, v.len());
    assert(tail@ =~= name.subrange(name.len() - 5, name.len() as int));
    crate::text::chars_eq_str(tail.as_slice(), ".part")
}

/// How a run ends: the error output that was not progress, or the exit
/// status where there was none, for a failed run; then the confirmed
/// output file, which must be a finished one.
pub open spec fn run_outcome(
    succeeded: bool,
    status: Seq<char>,
    messages: Seq<Seq<char>>,
    output: Option<Seq<char>>,
) -> Result<Seq<char>, Option<Seq<char>>> {
    if !succeeded {
        Err(
            Some(
                if all_ws(join_lines(messages)) {
                    "yt-dlp exited with "@ + status
                } else {
                    join_lines(messages)
                },
            ),
        )
    } else {
        match output {
            None => Err(None),
            Some(p) => if unfinished_name(p) {
                Err(None)
            } else {
                Ok(p)
            },
        }
    }
}

impl YtDlpRun {
    pub closed spec fn output_view(&self) -> Option<Seq<char>> {
        opt_view(self.output_path)
    }

    pub closed spec fn messages_view(&self) -> Seq<Seq<char>> {
        views(self.messages@)
    }

    pub closed spec fn height_view(&self) -> Option<u64> {
        self.height
    }

    pub closed spec fn tracker_view(&self) -> TrackerView {
        self.tracker.view_tracker()
    }

    pub closed spec fn wf(&self) -> bool {
        self.tracker.wf()
    }

    /// A run that has reported nothing yet.
    pub fn new(format: Format) -> (r: YtDlpRun)
        ensures
            r.wf(),
            r.output_view() is None,
            r.height_view() is None,
            r.messages_view().len() == 0,
            r.tracker_view() == fresh_tracker(expected_parts(format)),
    {
        let parts: usize = if format == Format::Video {
            2
        } else {
            1
        };
        let r = YtDlpRun {
            output_path: None,
            height: None,
            messages: Vec::new(),
            tracker: ProgressTracker::new(parts),
        };
        assert(views(r.messages@) =~= Seq::<Seq<char>>::empty());
        r
    }

    /// A line of yt-dlp's standard output: only its output record names the
    /// file, and its height record the video's height, the last one
    /// counting.
    pub fn stdout_line(&mut self, line: &str)
        requires
            old(self).wf(),
        ensures
            final(self).wf(),
            final(self).output_view() == match output_record(line@) {
                Some(p) => Some(p),
                None => old(self).output_view(),
            },
            final(self).height_view() == match height_record(line@) {
                Some(h) => Some(h),
                None => old(self).height_view(),
            },
            final(self).messages_view() == old(self).messages_view(),
            final(self).tracker_view() == old(self).tracker_view(),
    {
        match parse_output_line(line) {
            Some(p) => self.output_path = Some(p),
            None => {},
        }
        match parse_height_line(line) {
            Some(h) => self.height = Some(h),
            None => {},
        }
    }

    /// The height of the downloaded video, as yt-dlp confirmed it.
    pub fn confirmed_height(&self) -> (r: Option<u64>)
        ensures
            r == self.height_view(),
    {
        self.height
    }

    /// A line of yt-dlp's error output: progress to report, or a message
    /// kept for the error.
    pub fn stderr_line(&mut self, line: &str) -> (r: Option<DownloadProgress>)
        requires
            old(self).wf(),
        ensures
            final(self).wf(),
            (final(self).tracker_view(), report_view(r)) == advance(old(self).tracker_view(), line@),
            final(self).messages_view() == if r is Some {
                old(self).messages_view()
            } else {
                old(self).messages_view().push(line@)
            },
            final(self).output_view() == old(self).output_view(),
            final(self).height_view() == old(self).height_view(),
    {
        let progress = self.tracker.update(line);
        if progress.is_none() {
            let ghost before = views(self.messages@);
            self.messages.push(owned(line));
            assert(views(self.messages@) =~= before.push(line@));
        }
        progress
    }

    /// The downloaded file, or why there is none.
    pub fn finish(&self, succeeded: bool, status: &str) -> (r: Result<String, Error>)
        ensures
            match run_outcome(succeeded, status@, self.messages_view(), self.output_view()) {
                Ok(p) => r matches Ok(s) && s@ == p,
                Err(Some(m)) => r matches Err(Error::ProcessFailed(s)) && s@ == m,
                Err(None) => r matches Err(Error::MissingOutputFile),
            },
    {
        if !succeeded {
            let joined = join_with_newlines(&self.messages);
            if is_blank_str(joined.as_str()) {
                let mut m = owned("yt-dlp exited with ");
                push_str(&mut m, status);
                return Err(Error::ProcessFailed(m));
            }
            return Err(Error::ProcessFailed(joined));
        }
        match &self.output_path {
            None => Err(Error::MissingOutputFile),
            Some(p) => {
                if is_unfinished(p.as_str()) {
                    Err(Error::MissingOutputFile)
                } else {
                    Ok(p.clone())
                }
            },
        }
    }
}

/// A compressed video is re-encoded after the download.
pub open spec fn transcodes(request: DownloadRequest) -> bool {
    request.format == Format::Video && request.quality == Quality::Compressed
}

pub fn needs_transcode(request: &DownloadRequest) -> (r: bool)
    ensures
        r == transcodes(*request),
{
    request.format == Format::Video && request.quality == Quality::Compressed
}

/// The name of the re-encoded file.
pub fn compressed_name(stem: &str) -> (r: String)
    ensures
        r@ == stem@ + ".compressed.mp4"@,
{
    let mut r = owned(stem);
    push_str(&mut r, ".compressed.mp4");
    r
}

/// The rclone arguments that copy a file to `remote:path`.
pub fn upload_args(file: &str, remote: &str, path: &str) -> (r: Vec<String>)
    ensures
        views(r@) == seq!["copy"@, file@, crate::download::cloud_target_spec(remote@, path@)],
{
    let mut r: Vec<String> = Vec::new();
    r.push(owned("copy"));
    r.push(owned(file));
    r.push(crate::download::cloud_target(remote, path));
    assert(views(r@) =~= seq!["copy"@, file@, crate::download::cloud_target_spec(remote@, path@)]);
    r
}


// ---------------------------------------------------------------------
// The order of a job's events
// ---------------------------------------------------------------------

/// A download job once its items are known: each item is started in turn
/// and then saved or failed (a failed item does not stop the job), until the
/// job finishes with its summary or is cancelled.
pub struct JobRun {
    items: Vec<DownloadItem>,
    next: usize,
    summary: DownloadSummary,
}

impl JobRun {
    /// The job's items, in the order they are fetched.
    pub closed spec fn items_view(&self) -> Seq<DownloadItem> {
        self.items@
    }

    /// How many items have been started.
    pub closed spec fn started_count(&self) -> nat {
        self.next as nat
    }

    /// What the job has recorded so far.
    pub closed spec fn summary_view(&self) -> DownloadSummary {
        self.summary
    }

    /// No more items are started than the job has.
    pub closed spec fn wf(&self) -> bool {
        self.next <= self.items@.len()
    }

    /// A job of `items`, none started, nothing recorded.
    pub fn new(items: Vec<DownloadItem>) -> (r: JobRun)
        ensures
            r.wf(),
            r.items_view() == items@,
            r.started_count() == 0,
            r.summary_view().total == items@.len(),
            r.summary_view().succeeded@.len() == 0,
            r.summary_view().failed@.len() == 0,
            r.summary_view().warnings@.len() == 0,
    {
        let total = items.len();
        JobRun { items, next: 0, summary: DownloadSummary::started(total) }
    }

    /// The next event of the job: the next item started, or, once every
    /// item was started and has ended, the job finished with its summary.
    pub fn next_event(&mut self, platform: Platform) -> (e: DownloadEvent)
        requires
            old(self).wf(),
        ensures
            final(self).wf(),
            final(self).items_view() == old(self).items_view(),
            final(self).summary_view() == old(self).summary_view(),
            old(self).started_count() < old(self).items_view().len() ==> e == (DownloadEvent::ItemStarted {
                item: old(self).items_view()[old(self).started_count() as int],
                platform,
            }) && final(self).started_count() == old(self).started_count() + 1,
            old(self).started_count() == old(self).items_view().len() ==> (e matches DownloadEvent::Finished {
                summary,
            } && summary.same_as(old(self).summary_view())) && final(self).started_count()
                == old(self).started_count(),
    {
        if self.next < self.items.len() {
            let item = self.items[self.next].duplicate();
            self.next = self.next + 1;
            DownloadEvent::ItemStarted { item, platform }
        } else {
            DownloadEvent::Finished { summary: self.summary.duplicate() }
        }
    }

    /// Records a saved item; the event reports it.
    pub fn item_saved(&mut self, item: DownloadItem, path: String) -> (e: DownloadEvent)
        requires
            old(self).wf(),
        ensures
            final(self).wf(),
            final(self).items_view() == old(self).items_view(),
            final(self).started_count() == old(self).started_count(),
            final(self).summary_view().succeeded@ == old(self).summary_view().succeeded@.push(
                DownloadSuccess { item, path },
            ),
            final(self).summary_view().failed@ == old(self).summary_view().failed@,
            final(self).summary_view().warnings@ == old(self).summary_view().warnings@,
            final(self).summary_view().total == old(self).summary_view().total,
            e == (DownloadEvent::ItemCompleted { result: DownloadSuccess { item, path } }),
    {
        self.summary.record_success(DownloadSuccess { item, path })
    }

    /// Records a failed item with its error as shown (a cookie file
    /// hidden); the job goes on with the next item.
    pub fn item_failed(&mut self, item: DownloadItem, error: &str, cookies: &CookieSource) -> (e:
        DownloadEvent)
        requires
            old(self).wf(),
        ensures
            final(self).wf(),
            final(self).items_view() == old(self).items_view(),
            final(self).started_count() == old(self).started_count(),
            final(self).summary_view().failed@.len() == old(self).summary_view().failed@.len() + 1,
            final(self).summary_view().failed@.drop_last() == old(self).summary_view().failed@,
            final(self).summary_view().failed@.last().item == item,
            final(self).summary_view().failed@.last().error@ == crate::config::sanitized_error(
                error@,
                *cookies,
            ),
            final(self).summary_view().succeeded@ == old(self).summary_view().succeeded@,
            final(self).summary_view().warnings@ == old(self).summary_view().warnings@,
            final(self).summary_view().total == old(self).summary_view().total,
            e == (DownloadEvent::ItemFailed { failure: final(self).summary_view().failed@.last() }),
    {
        self.summary.record_failure(item, error, cookies)
    }

    /// Records a warning about an item; the event reports it.
    pub fn warn(&mut self, warning: DownloadWarning) -> (e: DownloadEvent)
        requires
            old(self).wf(),
        ensures
            final(self).wf(),
            final(self).items_view() == old(self).items_view(),
            final(self).started_count() == old(self).started_count(),
            final(self).summary_view().warnings@ == old(self).summary_view().warnings@.push(warning),
            final(self).summary_view().succeeded@ == old(self).summary_view().succeeded@,
            final(self).summary_view().failed@ == old(self).summary_view().failed@,
            final(self).summary_view().total == old(self).summary_view().total,
            e == (DownloadEvent::ItemWarning { warning }),
    {
        self.summary.record_warning(warning)
    }

    /// The job was cancelled: the event reports what was done so far.
    pub fn cancelled(&self) -> (e: DownloadEvent)
        ensures
            e matches DownloadEvent::Cancelled { summary } && summary.same_as(self.summary_view()),
    {
        DownloadEvent::Cancelled { summary: self.summary.duplicate() }
    }
}

} // verus!
