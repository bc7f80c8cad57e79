//! The download queue: jobs wait in the order they were added and run one
//! at a time.

use vstd::prelude::*;

use crate::download::{
    DownloadEvent, DownloadProgress, DownloadRequest, DownloadSummary, Duplicate,
};
use crate::platform::Platform;

verus! {

#[derive(Debug, Clone, Copy, PartialEq, Eq, Structural, Hash)]
pub struct JobId(pub u64);

#[derive(Debug, Clone, Copy, PartialEq, Eq, Structural)]
pub enum QueueStatus {
    Pending,
    Running,
    Succeeded,
    PartiallySucceeded,
    Failed,
    Cancelled,
}

impl QueueStatus {
    pub open spec fn terminal(self) -> bool {
        match self {
            QueueStatus::Pending | QueueStatus::Running => false,
            _ => true,
        }
    }

    pub open spec fn label_text(self) -> Seq<char> {
        match self {
            QueueStatus::Pending => "Waiting"@,
            QueueStatus::Running => "Running"@,
            QueueStatus::Succeeded => "Succeeded"@,
            QueueStatus::PartiallySucceeded => "Partial"@,
            QueueStatus::Failed => "Failed"@,
            QueueStatus::Cancelled => "Cancelled"@,
        }
    }

    /// Whether the job has ended.
    pub fn is_terminal(self) -> (r: bool)
        ensures
            r == self.terminal(),
    {
        match self {
            QueueStatus::Pending | QueueStatus::Running => false,
            _ => true,
        }
    }

    pub fn label(self) -> (r: &'static str)
        ensures
            r@ == self.label_text(),
    {
        match self {
            QueueStatus::Pending => "Waiting",
            QueueStatus::Running => "Running",
            QueueStatus::Succeeded => "Succeeded",
            QueueStatus::PartiallySucceeded => "Partial",
            QueueStatus::Failed => "Failed",
            QueueStatus::Cancelled => "Cancelled",
        }
    }
}

#[derive(Debug, Clone)]
pub struct QueuedJob {
    pub id: JobId,
    pub request: DownloadRequest,
    pub title: String,
    pub platform: Platform,
    pub status: QueueStatus,
    pub progress: Option<DownloadProgress>,
    pub summary: Option<DownloadSummary>,
}

pub open spec fn same_summary(a: Option<DownloadSummary>, b: Option<DownloadSummary>) -> bool {
    match (a, b) {
        (Some(x), Some(y)) => x.same_as(y),
        (None, None) => true,
        _ => false,
    }
}

impl QueuedJob {
    /// Equal fields, summaries compared by contents.
    pub open spec fn same_as(self, o: QueuedJob) -> bool {
        &&& self.id == o.id
        &&& self.request == o.request
        &&& self.title == o.title
        &&& self.platform == o.platform
        &&& self.status == o.status
        &&& self.progress == o.progress
        &&& same_summary(self.summary, o.summary)
    }

    pub open spec fn with_status(self, status: QueueStatus) -> QueuedJob {
        QueuedJob {
            id: self.id,
            request: self.request,
            title: self.title,
            platform: self.platform,
            status,
            progress: self.progress,
            summary: self.summary,
        }
    }

    pub fn duplicate(&self) -> (r: QueuedJob)
        ensures
            r.same_as(*self),
    {
        QueuedJob {
            id: self.id,
            request: self.request.duplicate(),
            title: self.title.clone(),
            platform: self.platform,
            status: self.status,
            progress: match &self.progress {
                Some(p) => Some(p.duplicate()),
                None => None,
            },
            summary: match &self.summary {
                Some(s) => Some(s.duplicate()),
                None => None,
            },
        }
    }
}

/// Two job lists that agree job by job.
pub open spec fn same_jobs(a: Seq<QueuedJob>, b: Seq<QueuedJob>) -> bool {
    a.len() == b.len() && forall|i: int| 0 <= i < a.len() ==> (#[trigger] a[i]).same_as(b[i])
}

/// The first index at or after `from` whose job satisfies `p`.
pub open spec fn first_from(s: Seq<QueuedJob>, p: spec_fn(QueuedJob) -> bool, from: int) -> Option<int>
    decreases s.len() - from,
{
    if from < 0 || from >= s.len() {
        None
    } else if p(s[from]) {
        Some(from)
    } else {
        first_from(s, p, from + 1)
    }
}

pub open spec fn first_where(s: Seq<QueuedJob>, p: spec_fn(QueuedJob) -> bool) -> Option<int> {
    first_from(s, p, 0)
}

pub open spec fn is_pending() -> spec_fn(QueuedJob) -> bool {
    |j: QueuedJob| j.status == QueueStatus::Pending
}

pub open spec fn has_id(id: JobId) -> spec_fn(QueuedJob) -> bool {
    |j: QueuedJob| j.id == id
}

pub open spec fn pending_with_id(id: JobId) -> spec_fn(QueuedJob) -> bool {
    |j: QueuedJob| j.id == id && j.status == QueueStatus::Pending
}

pub open spec fn terminal_with_id(id: JobId) -> spec_fn(QueuedJob) -> bool {
    |j: QueuedJob| j.id == id && j.status.terminal()
}

proof fn lemma_first_from(s: Seq<QueuedJob>, p: spec_fn(QueuedJob) -> bool, from: int)
    requires
        0 <= from <= s.len(),
    ensures
        first_from(s, p, from) matches Some(k) ==> from <= k < s.len() && p(s[k]) && forall|
            j: int,
        | from <= j < k ==> !p(#[trigger] s[j]),
        first_from(s, p, from) is None ==> forall|j: int| from <= j < s.len() ==> !p(#[trigger] s[j]),
    decreases s.len() - from,
{
    if from < s.len() && !p(s[from]) {
        lemma_first_from(s, p, from + 1);
    }
}

/// What a search through the queue looks for.
#[derive(Clone, Copy)]
enum Search {
    Waiting,
    Id(JobId),
    WaitingId(JobId),
    EndedId(JobId),
}

impl Search {
    spec fn pred(self) -> spec_fn(QueuedJob) -> bool {
        match self {
            Search::Waiting => is_pending(),
            Search::Id(id) => has_id(id),
            Search::WaitingId(id) => pending_with_id(id),
            Search::EndedId(id) => terminal_with_id(id),
        }
    }

    fn test(self, job: &QueuedJob) -> (r: bool)
        ensures
            r == (self.pred())(*job),
    {
        match self {
            Search::Waiting => job.status == QueueStatus::Pending,
            Search::Id(id) => job.id == id,
            Search::WaitingId(id) => job.id == id && job.status == QueueStatus::Pending,
            Search::EndedId(id) => job.id == id && job.status.is_terminal(),
        }
    }
}

/// The first index whose job the search finds.
fn find_first(jobs: &Vec<QueuedJob>, search: Search) -> (r: Option<usize>)
    ensures
        r matches Some(k) ==> first_where(jobs@, search.pred()) == Some(k as int) && k
            < jobs@.len() && (search.pred())(jobs@[k as int]),
        r is None ==> first_where(jobs@, search.pred()) is None,
{
    let ghost p = search.pred();
    let mut i: usize = 0;
    while i < jobs.len()
        invariant
            i <= jobs.len(),
            p == search.pred(),
            forall|j: int| 0 <= j < i ==> !p(#[trigger] jobs@[j]),
        decreases jobs.len() - i,
    {
        if search.test(&jobs[i]) {
            proof {
                lemma_first_from(jobs@, p, 0);
                if first_where(jobs@, p) != Some(i as int) {
                    let k = first_where(jobs@, p)->0;
                    assert(k < i ==> !p(jobs@[k]));
                }
            }
            return Some(i);
        }
        i = i + 1;
    }
    proof {
        lemma_first_from(jobs@, p, 0);
        if first_where(jobs@, p) is Some {
            let k = first_where(jobs@, p)->0;
            assert(!p(jobs@[k]));
        }
    }
    None
}

pub open spec fn count_pending(s: Seq<QueuedJob>) -> nat
    decreases s.len(),
{
    if s.len() == 0 {
        0
    } else {
        count_pending(s.drop_last()) + if s.last().status == QueueStatus::Pending {
            1nat
        } else {
            0nat
        }
    }
}

/// Some job waits or runs.
/// The ids of the waiting jobs of `s`, in order.
pub open spec fn pending_ids_of(s: Seq<QueuedJob>) -> Seq<JobId>
    decreases s.len(),
{
    if s.len() == 0 {
        Seq::empty()
    } else if s.last().status == QueueStatus::Pending {
        pending_ids_of(s.drop_last()).push(s.last().id)
    } else {
        pending_ids_of(s.drop_last())
    }
}

pub open spec fn unfinished(s: Seq<QueuedJob>) -> bool {
    exists|i: int|
        0 <= i < s.len() && (#[trigger] s[i].status == QueueStatus::Pending || s[i].status
            == QueueStatus::Running)
}

/// The queue status that a finished job's summary gives: all items
/// downloaded, some of them, or none.
pub open spec fn summary_status(summary: DownloadSummary) -> QueueStatus {
    if summary.succeeded@.len() > 0 && summary.failed@.len() == 0 {
        QueueStatus::Succeeded
    } else if summary.succeeded@.len() > 0 {
        QueueStatus::PartiallySucceeded
    } else {
        QueueStatus::Failed
    }
}

pub fn status_for_summary(summary: &DownloadSummary) -> (r: QueueStatus)
    ensures
        r == summary_status(*summary),
{
    if summary.succeeded.len() > 0 && summary.failed.len() == 0 {
        QueueStatus::Succeeded
    } else if summary.succeeded.len() > 0 {
        QueueStatus::PartiallySucceeded
    } else {
        QueueStatus::Failed
    }
}

/// The job after a download event, while it runs; `None` where the event
/// does not concern the queue.
pub open spec fn after_event(job: QueuedJob, event: DownloadEvent) -> Option<QueuedJob> {
    match event {
        DownloadEvent::ItemStarted { item, .. } => Some(QueuedJob { title: item.title, ..job }),
        DownloadEvent::Progress { progress, item, .. } => Some(
            QueuedJob { title: item.title, progress: Some(progress), ..job },
        ),
        DownloadEvent::Finished { summary } => Some(
            QueuedJob { status: summary_status(summary), summary: Some(summary), ..job },
        ),
        DownloadEvent::Failed { .. } => Some(QueuedJob { status: QueueStatus::Failed, ..job }),
        DownloadEvent::Cancelled { summary } => Some(
            QueuedJob { status: QueueStatus::Cancelled, summary: Some(summary), ..job },
        ),
        _ => None,
    }
}

/// The events that end a job.
pub open spec fn ends_job(event: DownloadEvent) -> bool {
    event is Finished || event is Failed || event is Cancelled
}

#[derive(Debug)]
pub struct DownloadQueue {
    entries: Vec<QueuedJob>,
    active: Option<JobId>,
    next_id: u64,
}

impl DownloadQueue {
    pub closed spec fn jobs(&self) -> Seq<QueuedJob> {
        self.entries@
    }

    pub closed spec fn active_job(&self) -> Option<JobId> {
        self.active
    }

    pub closed spec fn next(&self) -> u64 {
        self.next_id
    }

    /// The queue's invariant: ids below the next one (the counter stops at
    /// its maximum, the only id that may repeat), at most one job running,
    /// and the active id naming it.
    pub open spec fn wf(&self) -> bool {
        &&& self.next() >= 1
        &&& forall|i: int|
            0 <= i < self.jobs().len() ==> (#[trigger] self.jobs()[i]).id.0 < self.next()
                || self.next() == u64::MAX
        &&& forall|i: int, j: int|
            0 <= i < j < self.jobs().len() && (#[trigger] self.jobs()[i]).id == (#[trigger] self.jobs()[j]).id
                ==> self.jobs()[i].id.0 == u64::MAX
        &&& forall|i: int, j: int|
            0 <= i < self.jobs().len() && 0 <= j < self.jobs().len() && (#[trigger] self.jobs()[i]).status
                == QueueStatus::Running && (#[trigger] self.jobs()[j]).status == QueueStatus::Running
                ==> i == j
        &&& forall|i: int|
            0 <= i < self.jobs().len() && (#[trigger] self.jobs()[i]).status == QueueStatus::Running
                ==> self.active_job() == Some(self.jobs()[i].id)
        &&& self.active_job() is Some ==> exists|i: int|
            0 <= i < self.jobs().len() && (#[trigger] self.jobs()[i]).status == QueueStatus::Running
    }

    /// An empty queue whose first job gets id 1.
    pub fn new() -> (q: DownloadQueue)
        ensures
            q.wf(),
            q.jobs().len() == 0,
            q.active_job() is None,
            q.next() == 1,
    {
        DownloadQueue { entries: Vec::new(), active: None, next_id: 1 }
    }

    /// Adds a waiting job at the end and returns its id.
    pub fn enqueue(&mut self, request: DownloadRequest, title: String, platform: Platform) -> (id:
        JobId)
        requires
            old(self).wf(),
        ensures
            final(self).wf(),
            id.0 == old(self).next(),
            final(self).next() == if old(self).next() == u64::MAX {
                u64::MAX
            } else {
                (old(self).next() + 1) as u64
            },
            final(self).jobs() == old(self).jobs().push(
                QueuedJob {
                    id,
                    request,
                    title,
                    platform,
                    status: QueueStatus::Pending,
                    progress: None,
                    summary: None,
                },
            ),
            final(self).active_job() == old(self).active_job(),
            old(self).next() < u64::MAX ==> forall|i: int|
                0 <= i < old(self).jobs().len() ==> (#[trigger] old(self).jobs()[i]).id != id,
    {
        let id = JobId(self.next_id);
        self.next_id = if self.next_id == u64::MAX {
            u64::MAX
        } else {
            self.next_id + 1
        };
        self.entries.push(
            QueuedJob {
                id,
                request,
                title,
                platform,
                status: QueueStatus::Pending,
                progress: None,
                summary: None,
            },
        );
        proof {
            let n = self.entries@.len() - 1;
            assert forall|i: int| 0 <= i < self.jobs().len() && (#[trigger] self.jobs()[i]).status
                == QueueStatus::Running implies self.active_job() == Some(self.jobs()[i].id) by {
                assert(i < n);
                assert(self.jobs()[i] == old(self).jobs()[i]);
            }
            if self.active_job() is Some {
                let w = choose|i: int|
                    0 <= i < old(self).jobs().len() && (#[trigger] old(self).jobs()[i]).status
                        == QueueStatus::Running;
                assert(self.jobs()[w] == old(self).jobs()[w]);
            }
        }
        id
    }

    /// Starts the first waiting job, unless a job runs already.
    pub fn start_next(&mut self) -> (r: Option<QueuedJob>)
        requires
            old(self).wf(),
        ensures
            final(self).wf(),
            final(self).next() == old(self).next(),
            old(self).active_job() is Some || first_where(old(self).jobs(), is_pending()) is None
                ==> r is None && final(self).jobs() == old(self).jobs() && final(self).active_job()
                == old(self).active_job(),
            old(self).active_job() is None ==> match first_where(old(self).jobs(), is_pending()) {
                Some(k) => {
                    &&& final(self).jobs() == old(self).jobs().update(
                        k,
                        old(self).jobs()[k].with_status(QueueStatus::Running),
                    )
                    &&& final(self).active_job() == Some(old(self).jobs()[k].id)
                    &&& r matches Some(job) && job.same_as(final(self).jobs()[k])
                },
                None => true,
            },
    {
        if self.active.is_some() {
            return None;
        }
        let found = find_first(&self.entries, Search::Waiting);
        match found {
            None => None,
            Some(k) => {
                let ghost before = self.entries@;
                proof {
                    lemma_first_from(before, is_pending(), 0);
                    assert forall|i: int| 0 <= i < before.len() implies (#[trigger] before[i]).status
                        != QueueStatus::Running by {
                        if before[i].status == QueueStatus::Running {
                            assert(self.active_job() == Some(before[i].id));
                        }
                    }
                }
                let mut job = self.entries.remove(k);
                job.status = QueueStatus::Running;
                let id = job.id;
                let copy = job.duplicate();
                self.entries.insert(k, job);
                self.active = Some(id);
                proof {
                    assert(self.entries@ =~= before.update(
                        k as int,
                        before[k as int].with_status(QueueStatus::Running),
                    ));
                    assert(self.jobs()[k as int].status == QueueStatus::Running);
                }
                Some(copy)
            },
        }
    }

    /// Applies a download event to the running job with this id. Returns
    /// whether the event ended the job.
    pub fn apply_event(&mut self, id: JobId, event: &DownloadEvent) -> (ended: bool)
        requires
            old(self).wf(),
        ensures
            final(self).wf(),
            final(self).next() == old(self).next(),
            match first_where(old(self).jobs(), has_id(id)) {
                Some(k) if old(self).jobs()[k].status == QueueStatus::Running && after_event(
                    old(self).jobs()[k],
                    *event,
                ) is Some => {
                    &&& same_jobs(
                        final(self).jobs(),
                        old(self).jobs().update(k, after_event(old(self).jobs()[k], *event)->0),
                    )
                    &&& ended == ends_job(*event)
                    &&& final(self).active_job() == if ends_job(*event) {
                        None
                    } else {
                        old(self).active_job()
                    }
                },
                _ => {
                    &&& !ended
                    &&& final(self).jobs() == old(self).jobs()
                    &&& final(self).active_job() == old(self).active_job()
                },
            },
    {
        let found = find_first(&self.entries, Search::Id(id));
        let k = match found {
            Some(k) => k,
            None => {
                return false;
            },
        };
        if self.entries[k].status != QueueStatus::Running {
            return false;
        }
        let ghost before = self.entries@;
        let ghost expected = after_event(before[k as int], *event);
        let mut ended = false;
        let mut job = self.entries.remove(k);
        match event {
            DownloadEvent::ItemStarted { item, .. } => {
                job.title = item.title.clone();
            },
            DownloadEvent::Progress { progress, item, .. } => {
                job.title = item.title.clone();
                job.progress = Some(progress.duplicate());
            },
            DownloadEvent::Finished { summary } => {
                job.status = status_for_summary(summary);
                job.summary = Some(summary.duplicate());
                ended = true;
            },
            DownloadEvent::Failed { .. } => {
                job.status = QueueStatus::Failed;
                ended = true;
            },
            DownloadEvent::Cancelled { summary } => {
                job.status = QueueStatus::Cancelled;
                job.summary = Some(summary.duplicate());
                ended = true;
            },
            _ => {},
        }
        self.entries.insert(k, job);
        if ended {
            self.active = None;
        }
        proof {
            assert(self.entries@ =~= before.update(k as int, self.entries@[k as int]));
            if expected is Some {
                assert(self.entries@[k as int].same_as(expected->0));
                assert forall|i: int| 0 <= i < self.jobs().len() implies (#[trigger] self.jobs()[i]).same_as(
                    before.update(k as int, expected->0)[i],
                ) by {}
            } else {
                assert(self.entries@[k as int] == before[k as int]);
                assert(self.entries@ =~= before);
            }
            assert forall|i: int| 0 <= i < self.jobs().len() && (#[trigger] self.jobs()[i]).status
                == QueueStatus::Running implies self.active_job() == Some(self.jobs()[i].id) by {
                if i != k {
                    assert(self.jobs()[i] == before[i]);
                    assert(before[k as int].status == QueueStatus::Running);
                }
            }
            if self.active_job() is Some {
                assert(!ended);
                assert(self.jobs()[k as int].status == QueueStatus::Running);
            }
        }
        ended
    }

    /// Cancels a job that has not started yet.
    pub fn cancel_pending(&mut self, id: JobId) -> (r: Option<QueuedJob>)
        requires
            old(self).wf(),
        ensures
            final(self).wf(),
            final(self).next() == old(self).next(),
            final(self).active_job() == old(self).active_job(),
            match first_where(old(self).jobs(), pending_with_id(id)) {
                Some(k) => {
                    &&& final(self).jobs() == old(self).jobs().update(
                        k,
                        old(self).jobs()[k].with_status(QueueStatus::Cancelled),
                    )
                    &&& r matches Some(job) && job.same_as(final(self).jobs()[k])
                },
                None => r is None && final(self).jobs() == old(self).jobs(),
            },
    {
        let found = find_first(&self.entries, Search::WaitingId(id));
        let k = match found {
            Some(k) => k,
            None => {
                return None;
            },
        };
        let ghost before = self.entries@;
        let mut job = self.entries.remove(k);
        job.status = QueueStatus::Cancelled;
        let copy = job.duplicate();
        self.entries.insert(k, job);
        proof {
            assert(self.entries@ =~= before.update(
                k as int,
                before[k as int].with_status(QueueStatus::Cancelled),
            ));
            assert forall|i: int| 0 <= i < self.jobs().len() && (#[trigger] self.jobs()[i]).status
                == QueueStatus::Running implies self.active_job() == Some(self.jobs()[i].id) by {
                if i != k {
                    assert(self.jobs()[i] == before[i]);
                }
            }
            if self.active_job() is Some {
                let w = choose|i: int|
                    0 <= i < before.len() && (#[trigger] before[i]).status == QueueStatus::Running;
                assert(w != k);
                assert(self.jobs()[w] == before[w]);
            }
        }
        Some(copy)
    }

    fn remove_at(&mut self, k: usize) -> (r: QueuedJob)
        requires
            old(self).wf(),
            k < old(self).jobs().len(),
            old(self).jobs()[k as int].status != QueueStatus::Running,
        ensures
            final(self).wf(),
            final(self).next() == old(self).next(),
            final(self).active_job() == old(self).active_job(),
            final(self).jobs() == old(self).jobs().remove(k as int),
            r == old(self).jobs()[k as int],
    {
        let ghost before = self.entries@;
        let r = self.entries.remove(k);
        proof {
            assert forall|i: int| 0 <= i < self.jobs().len() implies #[trigger] self.jobs()[i] == (
            if i < k {
                before[i]
            } else {
                before[i + 1]
            }) by {}
            assert forall|i: int, j: int|
                0 <= i < j < self.jobs().len() && (#[trigger] self.jobs()[i]).id == (#[trigger] self.jobs()[j]).id
                    implies self.jobs()[i].id.0 == u64::MAX by {
                let a = if i < k { i } else { i + 1 };
                let b = if j < k { j } else { j + 1 };
                assert(before[a] == self.jobs()[i]);
                assert(before[b] == self.jobs()[j]);
            }
            assert forall|i: int, j: int|
                0 <= i < self.jobs().len() && 0 <= j < self.jobs().len() && (#[trigger] self.jobs()[i]).status
                    == QueueStatus::Running && (#[trigger] self.jobs()[j]).status == QueueStatus::Running
                    implies i == j by {
                let a = if i < k { i } else { i + 1 };
                let b = if j < k { j } else { j + 1 };
                assert(before[a] == self.jobs()[i]);
                assert(before[b] == self.jobs()[j]);
            }
            assert forall|i: int| 0 <= i < self.jobs().len() implies (#[trigger] self.jobs()[i]).id.0
                < self.next() || self.next() == u64::MAX by {
                let a = if i < k { i } else { i + 1 };
                assert(before[a] == self.jobs()[i]);
            }
            if self.active_job() is Some {
                let w = choose|i: int|
                    0 <= i < before.len() && (#[trigger] before[i]).status == QueueStatus::Running;
                assert(w != k);
                let v = if w < k { w } else { w - 1 };
                assert(self.jobs()[v] == before[w]);
            }
        }
        r
    }

    /// Takes a waiting job out of the queue.
    pub fn remove_pending(&mut self, id: JobId) -> (r: Option<QueuedJob>)
        requires
            old(self).wf(),
        ensures
            final(self).wf(),
            final(self).next() == old(self).next(),
            final(self).active_job() == old(self).active_job(),
            match first_where(old(self).jobs(), pending_with_id(id)) {
                Some(k) => final(self).jobs() == old(self).jobs().remove(k) && r == Some(
                    old(self).jobs()[k],
                ),
                None => r is None && final(self).jobs() == old(self).jobs(),
            },
    {
        match find_first(&self.entries, Search::WaitingId(id)) {
            Some(k) => Some(self.remove_at(k)),
            None => None,
        }
    }

    /// Takes an ended job out of the queue.
    pub fn remove_terminal(&mut self, id: JobId) -> (r: Option<QueuedJob>)
        requires
            old(self).wf(),
        ensures
            final(self).wf(),
            final(self).next() == old(self).next(),
            final(self).active_job() == old(self).active_job(),
            match first_where(old(self).jobs(), terminal_with_id(id)) {
                Some(k) => final(self).jobs() == old(self).jobs().remove(k) && r == Some(
                    old(self).jobs()[k],
                ),
                None => r is None && final(self).jobs() == old(self).jobs(),
            },
    {
        match find_first(&self.entries, Search::EndedId(id)) {
            Some(k) => Some(self.remove_at(k)),
            None => None,
        }
    }

    /// Swaps a waiting job with its waiting neighbour, towards the end
    /// (`forward`) or the front. Returns whether it moved.
    pub fn move_pending(&mut self, id: JobId, forward: bool) -> (moved: bool)
        requires
            old(self).wf(),
        ensures
            final(self).wf(),
            final(self).next() == old(self).next(),
            final(self).active_job() == old(self).active_job(),
            match first_where(old(self).jobs(), pending_with_id(id)) {
                Some(k) => {
                    let t = if forward {
                        k + 1
                    } else {
                        k - 1
                    };
                    if 0 <= t < old(self).jobs().len() && old(self).jobs()[t].status
                        == QueueStatus::Pending {
                        &&& moved
                        &&& final(self).jobs() == old(self).jobs().update(k, old(self).jobs()[t]).update(
                            t,
                            old(self).jobs()[k],
                        )
                    } else {
                        !moved && final(self).jobs() == old(self).jobs()
                    }
                },
                None => !moved && final(self).jobs() == old(self).jobs(),
            },
    {
        let k = match find_first(&self.entries, Search::WaitingId(id)) {
            Some(k) => k,
            None => {
                return false;
            },
        };
        let t = if forward {
            if self.entries.len() - k <= 1 {
                return false;
            }
            k + 1
        } else {
            if k == 0 {
                return false;
            }
            k - 1
        };
        if self.entries[t].status != QueueStatus::Pending {
            return false;
        }
        let ghost before = self.entries@;
        let (lo, hi) = if k < t {
            (k, t)
        } else {
            (t, k)
        };
        let later = self.entries.remove(hi);
        self.entries.insert(lo, later);
        proof {
            assert(self.entries@ =~= before.update(k as int, before[t as int]).update(
                t as int,
                before[k as int],
            ));
            let sw = |i: int|
                if i == k {
                    t as int
                } else if i == t {
                    k as int
                } else {
                    i
                };
            assert forall|i: int| 0 <= i < self.jobs().len() implies #[trigger] self.jobs()[i] == before[sw(i)] by {}
            assert forall|i: int, j: int|
                0 <= i < j < self.jobs().len() && (#[trigger] self.jobs()[i]).id == (#[trigger] self.jobs()[j]).id
                    implies self.jobs()[i].id.0 == u64::MAX by {
                assert(self.jobs()[i] == before[sw(i)]);
                assert(self.jobs()[j] == before[sw(j)]);
                if sw(i) > sw(j) {
                    assert(before[sw(j)].id == before[sw(i)].id);
                }
            }
            assert forall|i: int, j: int|
                0 <= i < self.jobs().len() && 0 <= j < self.jobs().len() && (#[trigger] self.jobs()[i]).status
                    == QueueStatus::Running && (#[trigger] self.jobs()[j]).status == QueueStatus::Running
                    implies i == j by {
                assert(self.jobs()[i] == before[sw(i)]);
                assert(self.jobs()[j] == before[sw(j)]);
            }
            assert forall|i: int| 0 <= i < self.jobs().len() implies (#[trigger] self.jobs()[i]).id.0
                < self.next() || self.next() == u64::MAX by {
                assert(self.jobs()[i] == before[sw(i)]);
            }
            assert forall|i: int| 0 <= i < self.jobs().len() && (#[trigger] self.jobs()[i]).status
                == QueueStatus::Running implies self.active_job() == Some(self.jobs()[i].id) by {
                assert(self.jobs()[i] == before[sw(i)]);
            }
            if self.active_job() is Some {
                let w = choose|i: int|
                    0 <= i < before.len() && (#[trigger] before[i]).status == QueueStatus::Running;
                assert(self.jobs()[sw(w)] == before[w]);
            }
        }
        true
    }

    /// The first job with this id.
    pub fn entry(&self, id: JobId) -> (r: Option<&QueuedJob>)
        ensures
            match first_where(self.jobs(), has_id(id)) {
                Some(k) => r == Some(&self.jobs()[k]),
                None => r is None,
            },
    {
        match find_first(&self.entries, Search::Id(id)) {
            Some(k) => Some(&self.entries[k]),
            None => None,
        }
    }

    /// The jobs, in queue order.
    pub fn entries(&self) -> (r: &[QueuedJob])
        ensures
            r@ == self.jobs(),
    {
        self.entries.as_slice()
    }

    /// The running job's id.
    pub fn active_id(&self) -> (r: Option<JobId>)
        ensures
            r == self.active_job(),
    {
        self.active
    }

    /// How many jobs wait.
    pub fn pending_count(&self) -> (r: usize)
        ensures
            r == count_pending(self.jobs()),
    {
        let mut n: usize = 0;
        let mut i: usize = 0;
        while i < self.entries.len()
            invariant
                i <= self.entries.len(),
                n == count_pending(self.entries@.subrange(0, i as int)),
                n <= i,
            decreases self.entries.len() - i,
        {
            assert(self.entries@.subrange(0, i + 1).drop_last() =~= self.entries@.subrange(0, i as int));
            if self.entries[i].status == QueueStatus::Pending {
                n = n + 1;
            }
            i = i + 1;
        }
        assert(self.entries@.subrange(0, self.entries.len() as int) =~= self.entries@);
        n
    }

    /// The ids of the waiting jobs, in queue order.
    pub fn pending_ids(&self) -> (r: Vec<JobId>)
        ensures
            r@ == pending_ids_of(self.jobs()),
    {
        let mut r: Vec<JobId> = Vec::new();
        let mut i: usize = 0;
        while i < self.entries.len()
            invariant
                i <= self.entries.len(),
                r@ == pending_ids_of(self.entries@.subrange(0, i as int)),
            decreases self.entries.len() - i,
        {
            assert(self.entries@.subrange(0, i + 1).drop_last() =~= self.entries@.subrange(0, i as int));
            if self.entries[i].status == QueueStatus::Pending {
                r.push(self.entries[i].id);
            }
            i = i + 1;
        }
        assert(self.entries@.subrange(0, self.entries.len() as int) =~= self.entries@);
        r
    }

    /// Whether some job waits or runs.
    pub fn has_unfinished(&self) -> (r: bool)
        ensures
            r == unfinished(self.jobs()),
    {
        let mut i: usize = 0;
        while i < self.entries.len()
            invariant
                i <= self.entries.len(),
                forall|j: int|
                    0 <= j < i ==> !(#[trigger] self.entries@[j].status == QueueStatus::Pending
                        || self.entries@[j].status == QueueStatus::Running),
            decreases self.entries.len() - i,
        {
            let s = self.entries[i].status;
            if s == QueueStatus::Pending || s == QueueStatus::Running {
                return true;
            }
            i = i + 1;
        }
        false
    }
}

/// At most one job of a well-formed queue runs, and it is the active one.
pub proof fn lemma_one_job_runs(q: &DownloadQueue, i: int, j: int)
    requires
        q.wf(),
        0 <= i < q.jobs().len(),
        0 <= j < q.jobs().len(),
        q.jobs()[i].status == QueueStatus::Running,
        q.jobs()[j].status == QueueStatus::Running,
    ensures
        i == j,
        q.active_job() == Some(q.jobs()[i].id),
{
}

/// How a finished job is classed: it succeeded when items were saved and
/// none failed, succeeded partly when items were saved and others failed,
/// and failed when nothing was saved.
pub proof fn lemma_finished_job_status(summary: DownloadSummary)
    ensures
        summary.succeeded@.len() > 0 && summary.failed@.len() == 0 ==> summary_status(summary)
            == QueueStatus::Succeeded,
        summary.succeeded@.len() > 0 && summary.failed@.len() > 0 ==> summary_status(summary)
            == QueueStatus::PartiallySucceeded,
        summary.succeeded@.len() == 0 ==> summary_status(summary) == QueueStatus::Failed,
        summary_status(summary) == QueueStatus::Succeeded ==> summary.failed@.len() == 0,
        summary_status(summary) == QueueStatus::PartiallySucceeded ==> summary.failed@.len() > 0,
{
}

} // verus!
