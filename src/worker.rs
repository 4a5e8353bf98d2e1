//! The book of one job: its identity, progress and control flags, and the
//! transitions that pause, resume, cancel and start make on it.

use vstd::prelude::*;
use crate::speed::{ring_ok, pushed, push_sample};
use crate::types::{DownloadState, DownloadInfo, WorkerEvent};

verus! {

/// What the runtime must do to a job's tasks after a decision of the engine.
#[derive(Debug, Clone, Copy, PartialEq, Eq, Structural)]
pub enum Directive {
    /// Probe the source and spawn fetchers, sampler and monitor.
    Launch(u128),
    /// Clear the pause flag and wake the job's waiting fetchers.
    Wake(u128),
    /// Set the pause flag: the job's fetchers block at their next gate.
    Suspend(u128),
    /// Set the cancel flag, abort the job's tasks and wake its waiters.
    Abort(u128),
    /// Report the job, already complete, as completed.
    Completed(u128),
}

/// One job's book.
#[derive(Debug, Clone)]
pub struct DownloadWorker {
    pub id: u128,
    pub url: String,
    pub dest: String,
    pub total_size: Option<u64>,
    pub downloaded: u64,
    pub state: DownloadState,
    pub paused: bool,
    pub started: bool,
    pub cancelled: bool,
    pub history: Vec<(u128, u64)>,
    /// This job's share of the global cap, in bytes per second; 0 is unlimited.
    pub speed_limit: u64,
}

/// A job that was just submitted: queued, nothing fetched, no flag set.
pub open spec fn is_fresh(w: DownloadWorker, id: u128, url: Seq<char>, dest: Seq<char>, speed_limit: u64) -> bool {
    &&& w.id == id
    &&& w.url@ == url
    &&& w.dest@ == dest
    &&& w.total_size is None
    &&& w.downloaded == 0
    &&& w.state is Queued
    &&& !w.paused
    &&& !w.started
    &&& !w.cancelled
    &&& w.history@.len() == 0
    &&& w.speed_limit == speed_limit
}

/// After `pause`: a queued or running job becomes paused; any other is left as it is.
pub open spec fn paused_w(w: DownloadWorker) -> DownloadWorker {
    if w.state is Running || w.state is Queued {
        DownloadWorker { paused: true, state: DownloadState::Paused, ..w }
    } else {
        w
    }
}

/// After the job-level `resume`: a paused job runs again.
pub open spec fn resumed_w(w: DownloadWorker) -> DownloadWorker {
    if w.state is Paused {
        DownloadWorker { paused: false, state: DownloadState::Running, ..w }
    } else {
        w
    }
}

/// After `cancel`: a job that has not finished is cancelled; a finished one is left as it is.
pub open spec fn cancelled_w(w: DownloadWorker) -> DownloadWorker {
    if w.state.is_terminal() {
        w
    } else {
        DownloadWorker { cancelled: true, paused: false, state: DownloadState::Cancelled, ..w }
    }
}

/// After the fleet-level `resume`: a paused job waits in the queue again.
pub open spec fn requeued(w: DownloadWorker) -> DownloadWorker {
    if w.state is Paused {
        DownloadWorker { state: DownloadState::Queued, ..w }
    } else {
        w
    }
}

/// After the lifecycle event `ev`: a job that has not finished ends as `ev` says.
pub open spec fn finished_w(w: DownloadWorker, ev: WorkerEvent) -> DownloadWorker {
    if w.state.is_terminal() {
        w
    } else {
        match ev {
            WorkerEvent::Completed(_) => DownloadWorker { paused: false, state: DownloadState::Completed, ..w },
            WorkerEvent::Error(_, m) => DownloadWorker { paused: false, state: DownloadState::Error(m), ..w },
            WorkerEvent::Cancelled(_) => cancelled_w(w),
        }
    }
}

/// After admission: the job runs, unpaused and marked as started.
pub open spec fn launched(w: DownloadWorker) -> DownloadWorker {
    DownloadWorker { paused: false, started: true, state: DownloadState::Running, ..w }
}

/// After demotion: the job is paused in place and waits in the queue.
pub open spec fn demoted(w: DownloadWorker) -> DownloadWorker {
    DownloadWorker { paused: true, state: DownloadState::Queued, ..w }
}

/// What the runtime does on admission: a job that was paused after it had
/// started resumes its tasks, any other one is launched from the beginning.
pub open spec fn start_directive(w: DownloadWorker) -> Directive {
    if w.paused && w.started {
        Directive::Wake(w.id)
    } else {
        Directive::Launch(w.id)
    }
}

/// What `start` makes of a job, and what it asks of the runtime.
pub open spec fn start_outcome(w: DownloadWorker) -> (DownloadWorker, Option<Directive>) {
    if w.paused && w.started {
        (launched(w), Some(Directive::Wake(w.id)))
    } else if w.state is Completed {
        (w, Some(Directive::Completed(w.id)))
    } else if w.state is Running {
        (w, None)
    } else {
        (launched(w), Some(Directive::Launch(w.id)))
    }
}

/// The snapshot of a job.
pub open spec fn info_of(w: DownloadWorker) -> DownloadInfo {
    DownloadInfo {
        id: w.id,
        url: w.url,
        dest: w.dest,
        total_size: w.total_size,
        downloaded: w.downloaded,
        state: w.state,
        history: w.history,
    }
}

/// A copy of a sample ring.
pub fn copy_history(h: &Vec<(u128, u64)>) -> (r: Vec<(u128, u64)>)
    ensures
        r@ == h@,
{
    let mut r: Vec<(u128, u64)> = Vec::new();
    let mut i: usize = 0;
    while i < h.len()
        invariant
            i <= h@.len(),
            r@ == h@.subrange(0, i as int),
        decreases h@.len() - i,
    {
        r.push(h[i]);
        i = i + 1;
        assert(r@ =~= h@.subrange(0, i as int));
    }
    assert(r@ =~= h@);
    r
}

impl DownloadWorker {
    /// The book is consistent: a well-formed sample ring, no more bytes than
    /// the known total, the pause flag set on a paused job and on a started
    /// job that waits in the queue, and never set on a running job.
    pub open spec fn wf(&self) -> bool {
        &&& ring_ok(self.history@)
        &&& (self.total_size matches Some(t) ==> self.downloaded <= t)
        &&& (self.state is Paused ==> self.paused)
        &&& (self.state is Queued && self.started ==> self.paused)
        &&& (self.paused ==> !(self.state is Running))
    }

    /// A job for `url` into `dest`, queued.
    pub fn new(id: u128, url: String, dest: String, speed_limit: u64) -> (r: DownloadWorker)
        ensures
            is_fresh(r, id, url@, dest@, speed_limit),
            r.wf(),
    {
        DownloadWorker {
            id,
            url,
            dest,
            total_size: None,
            downloaded: 0,
            state: DownloadState::Queued,
            paused: false,
            started: false,
            cancelled: false,
            history: Vec::new(),
            speed_limit,
        }
    }

    /// Starts the job. A job paused after it had started resumes its tasks
    /// (`Wake`); a completed job is left as it is and reported complete again;
    /// a running job is left alone (`None`); any other job runs from now on and
    /// its tasks are launched.
    pub fn start(&mut self) -> (r: Option<Directive>)
        ensures
            (*final(self), r) == start_outcome(*old(self)),
    {
        if self.paused && self.started {
            self.paused = false;
            self.state = DownloadState::Running;
            return Some(Directive::Wake(self.id));
        }
        match self.state {
            DownloadState::Completed => Some(Directive::Completed(self.id)),
            DownloadState::Running => None,
            _ => {
                self.paused = false;
                self.started = true;
                self.state = DownloadState::Running;
                Some(Directive::Launch(self.id))
            },
        }
    }

    /// Sends the running job back to the queue, paused in place.
    pub fn demote(&mut self)
        ensures
            *final(self) == demoted(*old(self)),
    {
        self.paused = true;
        self.state = DownloadState::Queued;
    }

    /// Puts a paused job back in the queue. Says whether anything changed.
    pub fn requeue(&mut self) -> (changed: bool)
        ensures
            *final(self) == requeued(*old(self)),
            changed == old(self).state is Paused,
    {
        match self.state {
            DownloadState::Paused => {
                self.state = DownloadState::Queued;
                true
            },
            _ => false,
        }
    }

    /// Ends a job that has not finished with the outcome that `ev` reports.
    /// Says whether anything changed.
    pub fn finish(&mut self, ev: &WorkerEvent) -> (changed: bool)
        ensures
            *final(self) == finished_w(*old(self), *ev),
            changed == !old(self).state.is_terminal(),
    {
        match self.state {
            DownloadState::Completed | DownloadState::Cancelled | DownloadState::Error(_) => false,
            _ => {
                match ev {
                    WorkerEvent::Completed(_) => {
                        self.paused = false;
                        self.state = DownloadState::Completed;
                    },
                    WorkerEvent::Error(_, m) => {
                        self.paused = false;
                        self.state = DownloadState::Error(m.clone());
                    },
                    WorkerEvent::Cancelled(_) => {
                        self.cancelled = true;
                        self.paused = false;
                        self.state = DownloadState::Cancelled;
                    },
                }
                true
            },
        }
    }

    /// Pauses a queued or running job. Says whether anything changed.
    pub fn pause(&mut self) -> (changed: bool)
        ensures
            *final(self) == paused_w(*old(self)),
            changed == (old(self).state is Running || old(self).state is Queued),
    {
        match self.state {
            DownloadState::Running | DownloadState::Queued => {
                self.paused = true;
                self.state = DownloadState::Paused;
                true
            },
            _ => false,
        }
    }

    /// Lets a paused job run again. Says whether anything changed.
    pub fn resume(&mut self) -> (changed: bool)
        ensures
            *final(self) == resumed_w(*old(self)),
            changed == old(self).state is Paused,
    {
        match self.state {
            DownloadState::Paused => {
                self.paused = false;
                self.state = DownloadState::Running;
                true
            },
            _ => false,
        }
    }

    /// Cancels a job that has not finished. Says whether anything changed.
    pub fn cancel(&mut self) -> (changed: bool)
        ensures
            *final(self) == cancelled_w(*old(self)),
            changed == !old(self).state.is_terminal(),
    {
        match self.state {
            DownloadState::Completed | DownloadState::Cancelled | DownloadState::Error(_) => false,
            _ => {
                self.cancelled = true;
                self.paused = false;
                self.state = DownloadState::Cancelled;
                true
            },
        }
    }

    /// Records the byte counter and the total size that the runtime observed.
    /// A count beyond the known total is refused.
    pub fn record_progress(&mut self, total_size: Option<u64>, downloaded: u64) -> (ok: bool)
        requires
            old(self).wf(),
        ensures
            ok == !(total_size matches Some(t) && downloaded > t),
            ok ==> *final(self) == (DownloadWorker { total_size, downloaded, ..*old(self) }),
            !ok ==> *final(self) == *old(self),
            final(self).wf(),
    {
        if let Some(t) = total_size {
            if downloaded > t {
                return false;
            }
        }
        self.total_size = total_size;
        self.downloaded = downloaded;
        true
    }

    /// Offers a `(unix_millis, downloaded)` sample to the ring of a running
    /// job; sampling rests while the job does not run.
    pub fn sample(&mut self, ts: u128)
        requires
            old(self).wf(),
        ensures
            old(self).state is Running ==> final(self).history@ == pushed(old(self).history@, (ts, old(self).downloaded)),
            !(old(self).state is Running) ==> final(self).history@ == old(self).history@,
            final(self).id == old(self).id,
            final(self).state == old(self).state,
            final(self).downloaded == old(self).downloaded,
            final(self).total_size == old(self).total_size,
            final(self).wf(),
    {
        if let DownloadState::Running = self.state {
            let d = self.downloaded;
            push_sample(&mut self.history, ts, d);
        }
    }

    /// A snapshot of the job.
    pub fn snapshot_info(&self) -> (r: DownloadInfo)
        ensures
            r.id == self.id,
            r.url@ == self.url@,
            r.dest@ == self.dest@,
            r.total_size == self.total_size,
            r.downloaded == self.downloaded,
            r.state == self.state,
            r.history@ == self.history@,
    {
        DownloadInfo {
            id: self.id,
            url: self.url.clone(),
            dest: self.dest.clone(),
            total_size: self.total_size,
            downloaded: self.downloaded,
            state: self.state.duplicate(),
            history: copy_history(&self.history),
        }
    }

    /// A snapshot of the job.
    pub fn info(&self) -> (r: DownloadInfo)
        ensures
            r.id == self.id,
            r.url@ == self.url@,
            r.dest@ == self.dest@,
            r.total_size == self.total_size,
            r.downloaded == self.downloaded,
            r.state == self.state,
            r.history@ == self.history@,
    {
        self.snapshot_info()
    }
}

} // verus!
