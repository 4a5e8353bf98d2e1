//! The download manager: the jobs in insertion order, the admitted ones, and
//! the commands and events that change them.

use vstd::prelude::*;
use crate::types::{DMSettings, DownloadInfo, DownloadState, DWError, WorkerEvent};
use crate::worker::{DownloadWorker, Directive, paused_w, cancelled_w, requeued, finished_w, is_fresh};
use crate::fleet::{
    fleet_ok, queue_step, queue_directives, queued_upto, picked, without, launch_all, demote_all,
    lemma_queued, lemma_queued_prefix, lemma_queue_step_ok,
};

verus! {

pub struct DownloadManager {
    pub settings: DMSettings,
    /// The jobs, in order of submission.
    pub workers: Vec<DownloadWorker>,
    /// Indices of the admitted jobs, earliest admitted first.
    pub active: Vec<usize>,
    /// Number of admitted jobs.
    pub concurrency: u8,
}

/// Whether a job has id `id`.
pub open spec fn has_id(ws: Seq<DownloadWorker>, id: u128) -> bool {
    exists|i: int| 0 <= i < ws.len() && (#[trigger] ws[i]).id == id
}

/// The index of the job with id `id`.
pub open spec fn index_of(ws: Seq<DownloadWorker>, id: u128) -> int {
    choose|i: int| 0 <= i < ws.len() && (#[trigger] ws[i]).id == id
}

/// The fleet after job `i` has changed to `w` and given up its slot, and the
/// admission step has run.
pub open spec fn after_release(ws: Seq<DownloadWorker>, a: Seq<usize>, lim: nat, i: int, w: DownloadWorker) -> (Seq<DownloadWorker>, Seq<usize>) {
    queue_step(ws.update(i, w), without(a, i as usize), lim)
}

pub open spec fn distinct(a: Seq<usize>) -> bool {
    forall|k: int, l: int| 0 <= k < l < a.len() ==> (#[trigger] a[k]) != (#[trigger] a[l])
}

pub proof fn lemma_without(a: Seq<usize>, x: usize)
    ensures
        forall|y: usize| #[trigger] without(a, x).contains(y) <==> (a.contains(y) && y != x),
        distinct(a) ==> distinct(without(a, x)),
        !a.contains(x) ==> without(a, x) == a,
        distinct(a) && a.contains(x) ==> without(a, x).len() == a.len() - 1,
        without(a, x).len() <= a.len(),
    decreases a.len(),
{
    if a.len() > 0 {
        let b = a.drop_last();
        let e = a.last();
        lemma_without(b, x);
        let r = without(b, x);
        let w = without(a, x);
        assert(a =~= b.push(e));
        assert(w == if e == x { r } else { r.push(e) });
        assert forall|y: usize| a.contains(y) <==> (b.contains(y) || y == e) by {
            if a.contains(y) {
                let k = choose|k: int| 0 <= k < a.len() && a[k] == y;
                if k < b.len() {
                    assert(b[k] == y);
                }
            }
            if b.contains(y) {
                let k = choose|k: int| 0 <= k < b.len() && b[k] == y;
                assert(a[k] == y);
            }
            if y == e {
                assert(a[a.len() - 1] == y);
            }
        }
        if e != x {
            assert forall|y: usize| w.contains(y) <==> (r.contains(y) || y == e) by {
                if w.contains(y) {
                    let k = choose|k: int| 0 <= k < w.len() && w[k] == y;
                    if k < r.len() {
                        assert(r[k] == y);
                    }
                }
                if r.contains(y) {
                    let k = choose|k: int| 0 <= k < r.len() && r[k] == y;
                    assert(w[k] == y);
                }
                if y == e {
                    assert(w[w.len() - 1] == y);
                }
            }
        }
        assert forall|y: usize| #[trigger] w.contains(y) <==> (a.contains(y) && y != x) by {
        }
        if distinct(a) {
            assert forall|k: int, l: int| 0 <= k < l < b.len() implies (#[trigger] b[k]) != (#[trigger] b[l]) by {
                assert(b[k] == a[k] && b[l] == a[l]);
            }
            assert(!b.contains(e)) by {
                if b.contains(e) {
                    let m = choose|m: int| 0 <= m < b.len() && b[m] == e;
                    assert(a[m] == a[a.len() - 1]);
                }
            }
            if e != x {
                assert forall|k: int, l: int| 0 <= k < l < w.len() implies (#[trigger] w[k]) != (#[trigger] w[l]) by {
                    if l == w.len() - 1 {
                        assert(w[k] == r[k]);
                        assert(r.contains(r[k]));
                    } else {
                        assert(w[k] == r[k] && w[l] == r[l]);
                    }
                }
            }
        }
    }
}

/// The fleet after `pause` of job `i`.
pub open spec fn pause_step(ws: Seq<DownloadWorker>, a: Seq<usize>, lim: nat, i: int) -> (Seq<DownloadWorker>, Seq<usize>) {
    after_release(ws, a, lim, i, paused_w(ws[i]))
}

/// The fleet after `cancel` of job `i`.
pub open spec fn cancel_step(ws: Seq<DownloadWorker>, a: Seq<usize>, lim: nat, i: int) -> (Seq<DownloadWorker>, Seq<usize>) {
    after_release(ws, a, lim, i, cancelled_w(ws[i]))
}

/// The fleet after the lifecycle event `ev` of job `i`.
pub open spec fn finish_step(ws: Seq<DownloadWorker>, a: Seq<usize>, lim: nat, i: int, ev: WorkerEvent) -> (Seq<DownloadWorker>, Seq<usize>) {
    after_release(ws, a, lim, i, finished_w(ws[i], ev))
}

/// The fleet after `resume` of job `i`.
pub open spec fn resume_step(ws: Seq<DownloadWorker>, a: Seq<usize>, lim: nat, i: int) -> (Seq<DownloadWorker>, Seq<usize>) {
    queue_step(ws.update(i, requeued(ws[i])), a, lim)
}

/// The id a lifecycle event is about.
pub open spec fn event_id(ev: WorkerEvent) -> u128 {
    match ev {
        WorkerEvent::Completed(id) => id,
        WorkerEvent::Error(id, _) => id,
        WorkerEvent::Cancelled(id) => id,
    }
}

/// Replacing job `i` by a book with the same id that does not run, and
/// dropping `i` from the admitted list, keeps the fleet consistent.
pub proof fn lemma_release_ok(ws: Seq<DownloadWorker>, a: Seq<usize>, i: int, w: DownloadWorker)
    requires
        fleet_ok(ws, a),
        0 <= i < ws.len(),
        w.id == ws[i].id,
        w.wf(),
        !(w.state is Running),
    ensures
        fleet_ok(ws.update(i, w), without(a, i as usize)),
        without(a, i as usize).len() <= a.len(),
{
    let ws1 = ws.update(i, w);
    let a1 = without(a, i as usize);
    lemma_without(a, i as usize);
    assert(distinct(a));
    assert forall|k: int| 0 <= k < a1.len() implies (#[trigger] a1[k]) < ws1.len() by {
        assert(a1.contains(a1[k]));
        let m = choose|m: int| 0 <= m < a.len() && a[m] == a1[k];
    }
    assert forall|j: int| 0 <= j < ws1.len() implies ((#[trigger] ws1[j]).state is Running <==> a1.contains(j as usize)) by {
        if j != i {
            assert(j as usize != i as usize);
        }
    }
    assert forall|x: int, y: int| 0 <= x < y < ws1.len() implies (#[trigger] ws1[x]).id != (#[trigger] ws1[y]).id by {
        assert(ws1[x].id == ws[x].id && ws1[y].id == ws[y].id);
    }
}

/// Replacing job `i` by a book with the same id that runs exactly when the old
/// one did keeps the fleet consistent.
pub proof fn lemma_update_ok(ws: Seq<DownloadWorker>, a: Seq<usize>, i: int, w: DownloadWorker)
    requires
        fleet_ok(ws, a),
        0 <= i < ws.len(),
        w.id == ws[i].id,
        w.wf(),
        (w.state is Running) == (ws[i].state is Running),
    ensures
        fleet_ok(ws.update(i, w), a),
{
    let ws1 = ws.update(i, w);
    assert forall|x: int, y: int| 0 <= x < y < ws1.len() implies (#[trigger] ws1[x]).id != (#[trigger] ws1[y]).id by {
        assert(ws1[x].id == ws[x].id && ws1[y].id == ws[y].id);
    }
}

impl DownloadManager {
    /// The manager is consistent: see `fleet_ok`; the counter equals the number
    /// of admitted jobs, which is within the concurrency limit.
    pub open spec fn wf(&self) -> bool {
        &&& fleet_ok(self.workers@, self.active@)
        &&& self.concurrency as nat == self.active@.len()
        &&& self.active@.len() <= self.settings.concurrency_limit as nat
    }

    /// A manager with no jobs.
    pub fn new(settings: DMSettings) -> (r: DownloadManager)
        ensures
            r.wf(),
            r.settings == settings,
            r.workers@.len() == 0,
            r.active@.len() == 0,
    {
        DownloadManager { settings, workers: Vec::new(), active: Vec::new(), concurrency: 0 }
    }

    /// The index of the job with id `id`.
    pub fn find(&self, id: u128) -> (r: Option<usize>)
        requires
            fleet_ok(self.workers@, self.active@),
        ensures
            r is None <==> !has_id(self.workers@, id),
            r matches Some(i) ==> i < self.workers@.len() && self.workers@[i as int].id == id
                && i == index_of(self.workers@, id),
    {
        let mut i: usize = 0;
        while i < self.workers.len()
            invariant
                i <= self.workers@.len(),
                fleet_ok(self.workers@, self.active@),
                forall|j: int| 0 <= j < i ==> (#[trigger] self.workers@[j]).id != id,
            decreases self.workers@.len() - i,
        {
            if self.workers[i].id == id {
                proof {
                    let k = index_of(self.workers@, id);
                    assert(self.workers@[k].id == id);
                    if k != i as int {
                        if k < i {
                            assert(self.workers@[k].id != id);
                        } else {
                            assert(self.workers@[i as int].id != self.workers@[k].id);
                        }
                    }
                }
                return Some(i);
            }
            i = i + 1;
        }
        None
    }

    /// Runs the admission step: at the limit nothing happens; above it the
    /// earliest admitted jobs are demoted to the queue; below it the earliest
    /// queued jobs are admitted while slots remain.
    pub fn process_queue(&mut self) -> (d: Vec<Directive>)
        requires
            fleet_ok(old(self).workers@, old(self).active@),
            old(self).concurrency as nat == old(self).active@.len(),
        ensures
            (final(self).workers@, final(self).active@)
                == queue_step(old(self).workers@, old(self).active@, old(self).settings.concurrency_limit as nat),
            d@ == queue_directives(old(self).workers@, old(self).active@, old(self).settings.concurrency_limit as nat),
            final(self).settings == old(self).settings,
            final(self).wf(),
    {
        let ghost ws0 = self.workers@;
        let ghost a0 = self.active@;
        let ghost lim = self.settings.concurrency_limit as nat;
        let ghost s0 = self.settings;
        proof {
            lemma_queue_step_ok(ws0, a0, lim);
        }
        let limit = self.settings.concurrency_limit;
        let count = self.concurrency;
        if count == limit {
            return Vec::new();
        }
        let mut d: Vec<Directive> = Vec::new();
        if count > limit {
            let k: usize = (count - limit) as usize;
            let mut t: usize = 0;
            while t < k
                invariant
                    t <= k,
                    k as nat == a0.len() - lim,
                    self.active@ == a0,
                    self.settings == s0,
                    self.settings.concurrency_limit as nat == lim,
                    self.concurrency == count,
                    fleet_ok(ws0, a0),
                    self.workers@.len() == ws0.len(),
                    forall|j: int| 0 <= j < ws0.len() ==> (#[trigger] self.workers@[j]) ==
                        if a0.take(t as int).contains(j as usize) { crate::worker::demoted(ws0[j]) } else { ws0[j] },
                    d@ == a0.take(t as int).map_values(|i: usize| Directive::Suspend(ws0[i as int].id)),
                decreases k - t,
            {
                let i = self.active[t];
                proof {
                    if a0.take(t as int).contains(i) {
                        let u = choose|u: int| 0 <= u < t && a0.take(t as int)[u] == i;
                        assert(a0[u] == a0[t as int]);
                    }
                }
                let id = self.workers[i].id;
                self.workers[i].demote();
                d.push(Directive::Suspend(id));
                proof {
                    let s0 = a0.take(t as int);
                    let s1 = a0.take(t + 1);
                    assert(s1 =~= s0.push(i));
                    assert forall|j: int| 0 <= j < ws0.len() implies (#[trigger] self.workers@[j]) ==
                        if s1.contains(j as usize) { crate::worker::demoted(ws0[j]) } else { ws0[j] } by {
                        if s0.contains(j as usize) {
                            let u = choose|u: int| 0 <= u < s0.len() && s0[u] == j as usize;
                            assert(s1[u] == j as usize);
                        }
                        if s1.contains(j as usize) && j != i as int {
                            let u = choose|u: int| 0 <= u < s1.len() && s1[u] == j as usize;
                            assert(s0[u] == j as usize);
                        }
                        if j == i as int {
                            assert(s1[t as int] == i);
                        }
                    }
                }
                t = t + 1;
                assert(d@ =~= a0.take(t as int).map_values(|i: usize| Directive::Suspend(ws0[i as int].id)));
            }
            let mut rest: Vec<usize> = Vec::new();
            let n = self.active.len();
            let mut t: usize = k;
            while t < n
                invariant
                    k <= t <= n,
                    n == a0.len(),
                    self.active@ == a0,
                    rest@ == a0.subrange(k as int, t as int),
                decreases n - t,
            {
                rest.push(self.active[t]);
                t = t + 1;
                assert(rest@ =~= a0.subrange(k as int, t as int));
            }
            self.active = rest;
            self.concurrency = limit;
            assert(self.workers@ =~= demote_all(ws0, a0.take(k as int)));
            assert(self.active@ =~= a0.skip(k as int));
            return d;
        }
        let ghost mut p: Seq<usize> = seq![];
        let n = self.workers.len();
        let mut i: usize = 0;
        while i < n && self.concurrency < limit
            invariant
                i <= n,
                n == ws0.len(),
                self.workers@.len() == n,
                self.settings == s0,
                self.settings.concurrency_limit == limit,
                limit as nat == lim,
                count < limit,
                count as nat == a0.len(),
                fleet_ok(ws0, a0),
                p == queued_upto(ws0, i as nat),
                self.active@ == a0 + p,
                self.concurrency as nat == a0.len() + p.len(),
                self.concurrency <= limit,
                forall|j: int| 0 <= j < n ==> (#[trigger] self.workers@[j]) ==
                    if p.contains(j as usize) { crate::worker::launched(ws0[j]) } else { ws0[j] },
                d@ == p.map_values(|x: usize| crate::worker::start_directive(ws0[x as int])),
            decreases n - i,
        {
            proof {
                lemma_queued(ws0, i as nat);
                if p.contains(i) {
                    let u = choose|u: int| 0 <= u < p.len() && p[u] == i;
                }
            }
            let queued = match self.workers[i].state {
                DownloadState::Queued => true,
                _ => false,
            };
            if queued {
                let dir = self.workers[i].start().unwrap();
                d.push(dir);
                self.active.push(i);
                self.concurrency = self.concurrency + 1;
                proof {
                    let grown = p.push(i);
                    assert forall|j: int| 0 <= j < n implies (#[trigger] self.workers@[j]) ==
                        if grown.contains(j as usize) { crate::worker::launched(ws0[j]) } else { ws0[j] } by {
                        if p.contains(j as usize) {
                            let u = choose|u: int| 0 <= u < p.len() && p[u] == j as usize;
                            assert(grown[u] == j as usize);
                        }
                        if grown.contains(j as usize) && j != i as int {
                            let u = choose|u: int| 0 <= u < grown.len() && grown[u] == j as usize;
                            assert(p[u] == j as usize);
                        }
                        if j == i as int {
                            assert(grown[p.len() as int] == i);
                        }
                    }
                    assert(self.active@ =~= a0 + grown);
                    assert(d@ =~= grown.map_values(|x: usize| crate::worker::start_directive(ws0[x as int])));
                    p = grown;
                }
            }
            i = i + 1;
        }
        proof {
            let q = queued_upto(ws0, ws0.len());
            lemma_queued_prefix(ws0, i as nat, ws0.len());
            assert(p =~= picked(ws0, a0, lim));
            assert(self.workers@ =~= launch_all(ws0, p));
        }
        d
    }

    /// Drops job `i` from the admitted list and recounts the admitted jobs.
    fn release(&mut self, i: usize)
        requires
            distinct(old(self).active@),
            old(self).active@.len() <= u8::MAX,
        ensures
            final(self).active@ == without(old(self).active@, i),
            final(self).concurrency as nat == final(self).active@.len(),
            final(self).workers@ == old(self).workers@,
            final(self).settings == old(self).settings,
    {
        let ghost a0 = self.active@;
        let mut rest: Vec<usize> = Vec::new();
        let mut k: usize = 0;
        while k < self.active.len()
            invariant
                k <= a0.len(),
                self.active@ == a0,
                rest@ == without(a0.take(k as int), i),
            decreases a0.len() - k,
        {
            let x = self.active[k];
            if x != i {
                rest.push(x);
            }
            proof {
                let t1 = a0.take(k + 1);
                assert(t1.drop_last() =~= a0.take(k as int));
                assert(t1.last() == x);
            }
            k = k + 1;
        }
        proof {
            assert(a0.take(k as int) =~= a0);
            lemma_without(a0, i);
        }
        self.active = rest;
        self.concurrency = self.active.len() as u8;
    }

    /// Pauses the job with id `id`: a queued or running job becomes paused,
    /// gives up its slot, and the admission step runs.
    pub fn pause(&mut self, id: u128) -> (r: Result<Vec<Directive>, DWError>)
        requires
            old(self).wf(),
        ensures
            final(self).wf(),
            final(self).settings == old(self).settings,
            !has_id(old(self).workers@, id) ==> r == Err::<Vec<Directive>, DWError>(DWError::NotFound)
                && final(self).workers@ == old(self).workers@ && final(self).active@ == old(self).active@,
            has_id(old(self).workers@, id) ==> {
                let ws = old(self).workers@;
                let i = index_of(ws, id);
                let lim = old(self).settings.concurrency_limit as nat;
                let mid = ws.update(i, paused_w(ws[i]));
                &&& (final(self).workers@, final(self).active@) == pause_step(ws, old(self).active@, lim, i)
                &&& r matches Ok(d) && d@ == (if ws[i].state is Running || ws[i].state is Queued {
                        seq![Directive::Suspend(id)]
                    } else {
                        seq![]
                    }) + queue_directives(mid, without(old(self).active@, i as usize), lim)
            },
    {
        let i = match self.find(id) {
            Some(i) => i,
            None => return Err(DWError::NotFound),
        };
        let ghost ws0 = self.workers@;
        let changed = self.workers[i].pause();
        proof {
            assert(self.workers@ == ws0.update(i as int, paused_w(ws0[i as int])));
            lemma_release_ok(ws0, self.active@, i as int, paused_w(ws0[i as int]));
        }
        self.release(i);
        let mut d: Vec<Directive> = Vec::new();
        if changed {
            d.push(Directive::Suspend(id));
        }
        let mut rest = self.process_queue();
        let ghost d0 = d@;
        d.append(&mut rest);
        proof {
            assert(d0 =~= (if ws0[i as int].state is Running || ws0[i as int].state is Queued {
                seq![Directive::Suspend(id)]
            } else {
                seq![]
            }));
        }
        Ok(d)
    }

    /// Cancels the job with id `id`: a job that has not finished is cancelled
    /// and gives up its slot, and the admission step runs.
    pub fn cancel(&mut self, id: u128) -> (r: Result<Vec<Directive>, DWError>)
        requires
            old(self).wf(),
        ensures
            final(self).wf(),
            final(self).settings == old(self).settings,
            !has_id(old(self).workers@, id) ==> r == Err::<Vec<Directive>, DWError>(DWError::NotFound)
                && final(self).workers@ == old(self).workers@ && final(self).active@ == old(self).active@,
            has_id(old(self).workers@, id) ==> {
                let ws = old(self).workers@;
                let i = index_of(ws, id);
                let lim = old(self).settings.concurrency_limit as nat;
                let mid = ws.update(i, cancelled_w(ws[i]));
                &&& (final(self).workers@, final(self).active@) == cancel_step(ws, old(self).active@, lim, i)
                &&& r matches Ok(d) && d@ == (if !ws[i].state.is_terminal() {
                        seq![Directive::Abort(id)]
                    } else {
                        seq![]
                    }) + queue_directives(mid, without(old(self).active@, i as usize), lim)
            },
    {
        let i = match self.find(id) {
            Some(i) => i,
            None => return Err(DWError::NotFound),
        };
        let ghost ws0 = self.workers@;
        let changed = self.workers[i].cancel();
        proof {
            assert(self.workers@ == ws0.update(i as int, cancelled_w(ws0[i as int])));
            lemma_release_ok(ws0, self.active@, i as int, cancelled_w(ws0[i as int]));
        }
        self.release(i);
        let mut d: Vec<Directive> = Vec::new();
        if changed {
            d.push(Directive::Abort(id));
        }
        let mut rest = self.process_queue();
        let ghost d0 = d@;
        d.append(&mut rest);
        proof {
            assert(d0 =~= (if !ws0[i as int].state.is_terminal() {
                seq![Directive::Abort(id)]
            } else {
                seq![]
            }));
        }
        Ok(d)
    }

    /// Handles a lifecycle event: a job that has not finished ends as the event
    /// says and gives up its slot, and the admission step runs.
    pub fn handle_event(&mut self, ev: WorkerEvent) -> (r: Result<Vec<Directive>, DWError>)
        requires
            old(self).wf(),
        ensures
            final(self).wf(),
            final(self).settings == old(self).settings,
            !has_id(old(self).workers@, event_id(ev)) ==> r == Err::<Vec<Directive>, DWError>(DWError::NotFound)
                && final(self).workers@ == old(self).workers@ && final(self).active@ == old(self).active@,
            has_id(old(self).workers@, event_id(ev)) ==> {
                let ws = old(self).workers@;
                let i = index_of(ws, event_id(ev));
                let lim = old(self).settings.concurrency_limit as nat;
                let mid = ws.update(i, finished_w(ws[i], ev));
                &&& (final(self).workers@, final(self).active@) == finish_step(ws, old(self).active@, lim, i, ev)
                &&& r matches Ok(d) && d@ == queue_directives(mid, without(old(self).active@, i as usize), lim)
            },
    {
        let id = match &ev {
            WorkerEvent::Completed(id) => *id,
            WorkerEvent::Error(id, _) => *id,
            WorkerEvent::Cancelled(id) => *id,
        };
        let i = match self.find(id) {
            Some(i) => i,
            None => return Err(DWError::NotFound),
        };
        let ghost ws0 = self.workers@;
        self.workers[i].finish(&ev);
        proof {
            assert(self.workers@ == ws0.update(i as int, finished_w(ws0[i as int], ev)));
            lemma_release_ok(ws0, self.active@, i as int, finished_w(ws0[i as int], ev));
        }
        self.release(i);
        let d = self.process_queue();
        Ok(d)
    }

    /// Puts the paused job with id `id` back in the queue and runs the admission step.
    pub fn resume(&mut self, id: u128) -> (r: Result<Vec<Directive>, DWError>)
        requires
            old(self).wf(),
        ensures
            final(self).wf(),
            final(self).settings == old(self).settings,
            !has_id(old(self).workers@, id) ==> r == Err::<Vec<Directive>, DWError>(DWError::NotFound)
                && final(self).workers@ == old(self).workers@ && final(self).active@ == old(self).active@,
            has_id(old(self).workers@, id) ==> {
                let ws = old(self).workers@;
                let i = index_of(ws, id);
                let lim = old(self).settings.concurrency_limit as nat;
                let mid = ws.update(i, requeued(ws[i]));
                &&& (final(self).workers@, final(self).active@) == resume_step(ws, old(self).active@, lim, i)
                &&& r matches Ok(d) && d@ == queue_directives(mid, old(self).active@, lim)
            },
    {
        let i = match self.find(id) {
            Some(i) => i,
            None => return Err(DWError::NotFound),
        };
        let ghost ws0 = self.workers@;
        self.workers[i].requeue();
        proof {
            assert(self.workers@ == ws0.update(i as int, requeued(ws0[i as int])));
            lemma_update_ok(ws0, self.active@, i as int, requeued(ws0[i as int]));
        }
        let d = self.process_queue();
        Ok(d)
    }

    /// Replaces the settings; the admission step runs when the concurrency
    /// limit changed.
    pub fn update_settings(&mut self, new: DMSettings) -> (d: Vec<Directive>)
        requires
            old(self).wf(),
        ensures
            final(self).wf(),
            final(self).settings == new,
            new.concurrency_limit != old(self).settings.concurrency_limit ==> {
                &&& (final(self).workers@, final(self).active@)
                    == queue_step(old(self).workers@, old(self).active@, new.concurrency_limit as nat)
                &&& d@ == queue_directives(old(self).workers@, old(self).active@, new.concurrency_limit as nat)
            },
            new.concurrency_limit == old(self).settings.concurrency_limit ==> {
                &&& final(self).workers@ == old(self).workers@
                &&& final(self).active@ == old(self).active@
                &&& d@.len() == 0
            },
    {
        let changed = self.settings.concurrency_limit != new.concurrency_limit;
        self.settings = new;
        if changed {
            self.process_queue()
        } else {
            Vec::new()
        }
    }

    /// Adds a queued job with id `id` for `url` into `dest` after the others,
    /// and runs the admission step. Refused when the id is taken.
    pub fn insert_job(&mut self, id: u128, url: String, dest: String) -> (r: Result<Vec<Directive>, DWError>)
        requires
            old(self).wf(),
        ensures
            final(self).wf(),
            final(self).settings == old(self).settings,
            has_id(old(self).workers@, id) ==> r == Err::<Vec<Directive>, DWError>(DWError::DuplicateId)
                && final(self).workers@ == old(self).workers@ && final(self).active@ == old(self).active@,
            !has_id(old(self).workers@, id) ==> exists|w: DownloadWorker| {
                let lim = old(self).settings.concurrency_limit as nat;
                &&& #[trigger] is_fresh(w, id, url@, dest@, old(self).settings.speed_limit)
                &&& (final(self).workers@, final(self).active@)
                    == queue_step(old(self).workers@.push(w), old(self).active@, lim)
                &&& r matches Ok(d) && d@ == queue_directives(old(self).workers@.push(w), old(self).active@, lim)
            },
    {
        if self.find(id).is_some() {
            return Err(DWError::DuplicateId);
        }
        let ghost ws0 = self.workers@;
        let w = DownloadWorker::new(id, url, dest, self.settings.speed_limit);
        let ghost wg = w;
        self.workers.push(w);
        // A `Vec`'s length is a `usize`: asking for it brings that bound into the proof.
        let _len = self.workers.len();
        proof {
            let ws1 = self.workers@;
            assert(ws1 == ws0.push(wg));
            assert forall|x: int, y: int| 0 <= x < y < ws1.len() implies (#[trigger] ws1[x]).id != (#[trigger] ws1[y]).id by {
                if y == ws0.len() {
                    assert(ws1[x] == ws0[x]);
                } else {
                    assert(ws1[x] == ws0[x] && ws1[y] == ws0[y]);
                }
            }
            assert forall|j: int| 0 <= j < ws1.len() implies ((#[trigger] ws1[j]).state is Running <==> self.active@.contains(j as usize)) by {
                if j == ws0.len() {
                    if self.active@.contains(j as usize) {
                        let k = choose|k: int| 0 <= k < self.active@.len() && self.active@[k] == j as usize;
                    }
                } else {
                    assert(ws1[j] == ws0[j]);
                }
            }
            assert forall|k: int| 0 <= k < self.active@.len() implies (#[trigger] self.active@[k]) < ws1.len() by {
            }
            assert forall|j: int| 0 <= j < ws1.len() implies (#[trigger] ws1[j]).wf() by {
                if j < ws0.len() {
                    assert(ws1[j] == ws0[j]);
                }
            }
            assert(ws1.len() <= usize::MAX);
            assert(fleet_ok(ws1, self.active@));
        }
        let d = self.process_queue();
        Ok(d)
    }

    /// Records what the runtime observed of a job's progress. A count beyond
    /// the known total is refused (`Ok(false)`) and leaves the job as it was.
    pub fn record_progress(&mut self, id: u128, total_size: Option<u64>, downloaded: u64) -> (r: Result<bool, DWError>)
        requires
            old(self).wf(),
        ensures
            final(self).wf(),
            final(self).settings == old(self).settings,
            final(self).active@ == old(self).active@,
            final(self).workers@.len() == old(self).workers@.len(),
            !has_id(old(self).workers@, id) ==> r == Err::<bool, DWError>(DWError::NotFound)
                && final(self).workers@ == old(self).workers@,
            has_id(old(self).workers@, id) ==> {
                let ws = old(self).workers@;
                let i = index_of(ws, id);
                let ok = !(total_size matches Some(t) && downloaded > t);
                &&& r == Ok::<bool, DWError>(ok)
                &&& ok ==> final(self).workers@ == ws.update(i, DownloadWorker { total_size, downloaded, ..ws[i] })
                &&& !ok ==> final(self).workers@ == ws
            },
    {
        let i = match self.find(id) {
            Some(i) => i,
            None => return Err(DWError::NotFound),
        };
        let ghost ws0 = self.workers@;
        let ok = self.workers[i].record_progress(total_size, downloaded);
        proof {
            if ok {
                assert(self.workers@ == ws0.update(i as int, DownloadWorker { total_size, downloaded, ..ws0[i as int] }));
                lemma_update_ok(ws0, self.active@, i as int, self.workers@[i as int]);
            } else {
                assert(self.workers@ =~= ws0);
            }
        }
        Ok(ok)
    }

    /// Offers a `(unix_millis, downloaded)` sample to a job's ring; only a
    /// running job takes it.
    pub fn sample(&mut self, id: u128, ts: u128) -> (r: Result<(), DWError>)
        requires
            old(self).wf(),
        ensures
            final(self).wf(),
            final(self).settings == old(self).settings,
            final(self).active@ == old(self).active@,
            final(self).workers@.len() == old(self).workers@.len(),
            r is Err <==> !has_id(old(self).workers@, id),
            r is Err ==> r == Err::<(), DWError>(DWError::NotFound) && final(self).workers@ == old(self).workers@,
            r is Ok ==> {
                let ws = old(self).workers@;
                let i = index_of(ws, id);
                &&& ws[i].state is Running ==> final(self).workers@[i].history@ == crate::speed::pushed(ws[i].history@, (ts, ws[i].downloaded))
                &&& !(ws[i].state is Running) ==> final(self).workers@[i].history@ == ws[i].history@
                &&& forall|j: int| 0 <= j < ws.len() && j != i ==> final(self).workers@[j] == ws[j]
            },
    {
        let i = match self.find(id) {
            Some(i) => i,
            None => return Err(DWError::NotFound),
        };
        let ghost ws0 = self.workers@;
        self.workers[i].sample(ts);
        proof {
            lemma_update_ok(ws0, self.active@, i as int, self.workers@[i as int]);
            assert(self.workers@ == ws0.update(i as int, self.workers@[i as int]));
        }
        Ok(())
    }

    /// A snapshot of the job with id `id`.
    pub fn info(&self, id: u128) -> (r: Result<DownloadInfo, DWError>)
        requires
            self.wf(),
        ensures
            r is Err <==> !has_id(self.workers@, id),
            r is Err ==> r == Err::<DownloadInfo, DWError>(DWError::NotFound),
            r matches Ok(info) ==> {
                let w = self.workers@[index_of(self.workers@, id)];
                &&& info.id == id
                &&& info.url@ == w.url@
                &&& info.dest@ == w.dest@
                &&& info.total_size == w.total_size
                &&& info.downloaded == w.downloaded
                &&& info.state == w.state
                &&& info.history@ == w.history@
            },
    {
        match self.find(id) {
            Some(i) => Ok(self.workers[i].info()),
            None => Err(DWError::NotFound),
        }
    }

    /// Snapshots of all jobs, in order of submission.
    pub fn list_all(&self) -> (r: Vec<DownloadInfo>)
        ensures
            r@.len() == self.workers@.len(),
            forall|j: int| 0 <= j < r@.len() ==> {
                let w = #[trigger] self.workers@[j];
                &&& r@[j].id == w.id
                &&& r@[j].url@ == w.url@
                &&& r@[j].dest@ == w.dest@
                &&& r@[j].total_size == w.total_size
                &&& r@[j].downloaded == w.downloaded
                &&& r@[j].state == w.state
                &&& r@[j].history@ == w.history@
            },
    {
        let mut out: Vec<DownloadInfo> = Vec::new();
        let mut j: usize = 0;
        while j < self.workers.len()
            invariant
                j <= self.workers@.len(),
                out@.len() == j,
                forall|k: int| 0 <= k < j ==> {
                    let w = #[trigger] self.workers@[k];
                    &&& out@[k].id == w.id
                    &&& out@[k].url@ == w.url@
                    &&& out@[k].dest@ == w.dest@
                    &&& out@[k].total_size == w.total_size
                    &&& out@[k].downloaded == w.downloaded
                    &&& out@[k].state == w.state
                    &&& out@[k].history@ == w.history@
                },
            decreases self.workers@.len() - j,
        {
            out.push(self.workers[j].info());
            j = j + 1;
        }
        out
    }

    /// Submits a job for `url` into `dest` under a fresh random id, and runs
    /// the admission step. Refused, with nothing changed, when the random
    /// source fails, or in the unlikely case that the drawn id is taken (which
    /// cannot happen while there are no jobs).
    pub fn add_download(&mut self, url: String, dest: String) -> (r: Result<(u128, Vec<Directive>), DWError>)
        requires
            old(self).wf(),
        ensures
            final(self).wf(),
            final(self).settings == old(self).settings,
            r is Err ==> (r == Err::<(u128, Vec<Directive>), DWError>(DWError::DuplicateId) && old(self).workers@.len() > 0
                    || r == Err::<(u128, Vec<Directive>), DWError>(DWError::RandomUnavailable))
                && final(self).workers@ == old(self).workers@ && final(self).active@ == old(self).active@,
            r matches Ok((id, d)) ==> !has_id(old(self).workers@, id) && exists|w: DownloadWorker| {
                let lim = old(self).settings.concurrency_limit as nat;
                &&& #[trigger] is_fresh(w, id, url@, dest@, old(self).settings.speed_limit)
                &&& (final(self).workers@, final(self).active@)
                    == queue_step(old(self).workers@.push(w), old(self).active@, lim)
                &&& d@ == queue_directives(old(self).workers@.push(w), old(self).active@, lim)
            },
    {
        let bytes = match crate::ids::random_bytes() {
            Some(b) => b,
            None => return Err(DWError::RandomUnavailable),
        };
        let id = crate::ids::v4_id(bytes);
        match self.insert_job(id, url, dest) {
            Ok(d) => Ok((id, d)),
            Err(e) => Err(e),
        }
    }
}

} // verus!
