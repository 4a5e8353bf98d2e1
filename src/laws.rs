//! Properties that relate several operations of the engine.

use vstd::prelude::*;
use crate::fleet::{fleet_ok, queue_step, lemma_queue_step_ok, lemma_admission_idempotent};
use crate::manager::{pause_step, cancel_step, resume_step, finish_step, lemma_release_ok, lemma_update_ok, lemma_without};
use crate::worker::{DownloadWorker, paused_w, resumed_w, cancelled_w, requeued, finished_w, start_directive, launched, start_outcome};
use crate::types::WorkerEvent;
use crate::segments::{Segment, tiles, total_len, lemma_tiles_total};
use crate::fetcher::SegmentFetcher;

verus! {

/// Pausing a job a second time changes nothing.
pub proof fn lemma_pause_twice(ws: Seq<DownloadWorker>, a: Seq<usize>, lim: nat, i: int)
    requires
        fleet_ok(ws, a),
        a.len() <= lim,
        0 <= i < ws.len(),
    ensures
        pause_step(pause_step(ws, a, lim, i).0, pause_step(ws, a, lim, i).1, lim, i) == pause_step(ws, a, lim, i),
{
    let w = paused_w(ws[i]);
    let mid = ws.update(i, w);
    let am = crate::fleet::without(a, i as usize);
    lemma_release_ok(ws, a, i, w);
    lemma_queue_step_ok(mid, am, lim);
    lemma_admission_idempotent(mid, am, lim);
    let (ws1, a1) = queue_step(mid, am, lim);
    assert(ws1[i] == mid[i]);
    assert(paused_w(ws1[i]) == ws1[i]);
    assert(!a1.contains(i as usize));
    lemma_without(a1, i as usize);
    assert(ws1.update(i, ws1[i]) =~= ws1);
}

/// Cancelling a job a second time changes nothing.
pub proof fn lemma_cancel_twice(ws: Seq<DownloadWorker>, a: Seq<usize>, lim: nat, i: int)
    requires
        fleet_ok(ws, a),
        a.len() <= lim,
        0 <= i < ws.len(),
    ensures
        cancel_step(cancel_step(ws, a, lim, i).0, cancel_step(ws, a, lim, i).1, lim, i) == cancel_step(ws, a, lim, i),
{
    let w = cancelled_w(ws[i]);
    let mid = ws.update(i, w);
    let am = crate::fleet::without(a, i as usize);
    lemma_release_ok(ws, a, i, w);
    lemma_queue_step_ok(mid, am, lim);
    lemma_admission_idempotent(mid, am, lim);
    let (ws1, a1) = queue_step(mid, am, lim);
    assert(ws1[i] == mid[i]);
    assert(cancelled_w(ws1[i]) == ws1[i]);
    assert(!a1.contains(i as usize));
    lemma_without(a1, i as usize);
    assert(ws1.update(i, ws1[i]) =~= ws1);
}

/// Resuming a job a second time changes nothing.
pub proof fn lemma_resume_twice(ws: Seq<DownloadWorker>, a: Seq<usize>, lim: nat, i: int)
    requires
        fleet_ok(ws, a),
        a.len() <= lim,
        0 <= i < ws.len(),
    ensures
        resume_step(resume_step(ws, a, lim, i).0, resume_step(ws, a, lim, i).1, lim, i) == resume_step(ws, a, lim, i),
{
    let w = requeued(ws[i]);
    let mid = ws.update(i, w);
    lemma_update_ok(ws, a, i, w);
    lemma_queue_step_ok(mid, a, lim);
    lemma_admission_idempotent(mid, a, lim);
    let (ws1, a1) = queue_step(mid, a, lim);
    assert(!(ws1[i].state is Paused));
    assert(requeued(ws1[i]) == ws1[i]);
    assert(ws1.update(i, ws1[i]) =~= ws1);
}

/// After `cancel`, the lifecycle event that the cancelled job's runtime may
/// still report changes nothing: the job stays as cancelled, the admitted list
/// and so the counter stay as they are.
pub proof fn lemma_event_after_cancel(ws: Seq<DownloadWorker>, a: Seq<usize>, lim: nat, i: int, ev: WorkerEvent)
    requires
        fleet_ok(ws, a),
        a.len() <= lim,
        0 <= i < ws.len(),
    ensures
        finish_step(cancel_step(ws, a, lim, i).0, cancel_step(ws, a, lim, i).1, lim, i, ev) == cancel_step(ws, a, lim, i),
{
    let w = cancelled_w(ws[i]);
    let mid = ws.update(i, w);
    let am = crate::fleet::without(a, i as usize);
    lemma_release_ok(ws, a, i, w);
    lemma_queue_step_ok(mid, am, lim);
    lemma_admission_idempotent(mid, am, lim);
    let (ws1, a1) = queue_step(mid, am, lim);
    assert(ws1[i] == mid[i]);
    assert(finished_w(ws1[i], ev) == ws1[i]);
    assert(!a1.contains(i as usize));
    lemma_without(a1, i as usize);
    assert(ws1.update(i, ws1[i]) =~= ws1);
}

/// On one job's book, `pause`, `resume` and `cancel` each change nothing the
/// second time, and `start` leaves a running job alone.
pub proof fn lemma_worker_controls_idempotent(w: DownloadWorker)
    requires
        w.wf(),
    ensures
        paused_w(paused_w(w)) == paused_w(w),
        resumed_w(resumed_w(w)) == resumed_w(w),
        cancelled_w(cancelled_w(w)) == cancelled_w(w),
        w.state is Running ==> start_outcome(w) == (w, None::<crate::worker::Directive>),
{
}

/// A fetcher of a server that serves ranges never loses progress to a
/// retry, and never asks for the job's counter to be reset.
pub proof fn lemma_ranged_keeps_progress(f: SegmentFetcher)
    requires
        f.ranged,
    ensures
        f.after_fault().progress == f.progress,
{
}

/// A job that has not finished is cancelled by `cancel`, also right after a
/// `pause`.
pub proof fn lemma_cancel_converges(ws: Seq<DownloadWorker>, a: Seq<usize>, lim: nat, i: int)
    requires
        fleet_ok(ws, a),
        a.len() <= lim,
        0 <= i < ws.len(),
        !ws[i].state.is_terminal(),
    ensures
        cancel_step(ws, a, lim, i).0[i].state is Cancelled,
        cancel_step(pause_step(ws, a, lim, i).0, pause_step(ws, a, lim, i).1, lim, i).0[i].state is Cancelled,
{
    let w = cancelled_w(ws[i]);
    lemma_release_ok(ws, a, i, w);
    lemma_queue_step_ok(ws.update(i, w), crate::fleet::without(a, i as usize), lim);
    let p = paused_w(ws[i]);
    let pm = ws.update(i, p);
    let pa = crate::fleet::without(a, i as usize);
    lemma_release_ok(ws, a, i, p);
    lemma_queue_step_ok(pm, pa, lim);
    let (ws1, a1) = queue_step(pm, pa, lim);
    assert(ws1[i] == pm[i]);
    let w2 = cancelled_w(ws1[i]);
    lemma_release_ok(ws1, a1, i, w2);
    lemma_queue_step_ok(ws1.update(i, w2), crate::fleet::without(a1, i as usize), lim);
}

/// Once a job has finished (completed, cancelled or failed) no command and no
/// event changes it again: each job reaches a final state at most once.
pub proof fn lemma_final_states_stay(ws: Seq<DownloadWorker>, a: Seq<usize>, lim: nat, i: int, j: int, ev: WorkerEvent)
    requires
        fleet_ok(ws, a),
        0 <= i < ws.len(),
        0 <= j < ws.len(),
        ws[j].state.is_terminal(),
    ensures
        pause_step(ws, a, lim, i).0[j] == ws[j],
        cancel_step(ws, a, lim, i).0[j] == ws[j],
        resume_step(ws, a, lim, i).0[j] == ws[j],
        finish_step(ws, a, lim, i, ev).0[j] == ws[j],
        queue_step(ws, a, lim).0[j] == ws[j],
{
    lemma_queue_step_ok(ws, a, lim);
    let p = paused_w(ws[i]);
    lemma_release_ok(ws, a, i, p);
    lemma_queue_step_ok(ws.update(i, p), crate::fleet::without(a, i as usize), lim);
    let c = cancelled_w(ws[i]);
    lemma_release_ok(ws, a, i, c);
    lemma_queue_step_ok(ws.update(i, c), crate::fleet::without(a, i as usize), lim);
    let r = requeued(ws[i]);
    lemma_update_ok(ws, a, i, r);
    lemma_queue_step_ok(ws.update(i, r), a, lim);
    let f = finished_w(ws[i], ev);
    lemma_release_ok(ws, a, i, f);
    lemma_queue_step_ok(ws.update(i, f), crate::fleet::without(a, i as usize), lim);
}

/// A job's tasks are launched at most once: admission launches only a queued
/// job that never started, marks every job it admits as started, and no step
/// of the admission clears that mark. (Each launch has one monitor, which
/// reports one lifecycle event.)
pub proof fn lemma_launch_once(ws: Seq<DownloadWorker>, a: Seq<usize>, lim: nat)
    requires
        fleet_ok(ws, a),
    ensures
        forall|j: int| 0 <= j < ws.len() && (#[trigger] ws[j]).state is Queued && start_directive(ws[j]) is Launch
            ==> !ws[j].started,
        forall|w: DownloadWorker| (#[trigger] launched(w)).started,
        forall|j: int| 0 <= j < ws.len() && (#[trigger] ws[j]).started ==> queue_step(ws, a, lim).0[j].started,
{
    lemma_queue_step_ok(ws, a, lim);
}

/// Bytes credited by the fetchers of a job.
pub open spec fn progress_sum(fs: Seq<SegmentFetcher>) -> nat
    decreases fs.len(),
{
    if fs.len() == 0 {
        0
    } else {
        progress_sum(fs.drop_last()) + (fs.last().progress as nat)
    }
}

/// Fetchers `fs` work the segments of plan `plan`, one each, with a known size.
pub open spec fn runs_plan(fs: Seq<SegmentFetcher>, plan: Seq<Segment>) -> bool {
    &&& fs.len() == plan.len()
    &&& forall|k: int| 0 <= k < fs.len() ==> {
        &&& (#[trigger] fs[k]).wf()
        &&& fs[k].sized
        &&& fs[k].start == plan[k].start
        &&& fs[k].end == plan[k].end
    }
}

proof fn lemma_sum_within(fs: Seq<SegmentFetcher>, plan: Seq<Segment>)
    requires
        runs_plan(fs, plan),
    ensures
        progress_sum(fs) <= total_len(plan),
        (forall|k: int| 0 <= k < fs.len() ==> (#[trigger] fs[k]).complete()) ==> progress_sum(fs) == total_len(plan),
    decreases fs.len(),
{
    if fs.len() > 0 {
        let fs_front = fs.drop_last();
        let plan_front = plan.drop_last();
        assert forall|k: int| 0 <= k < fs_front.len() implies {
            &&& (#[trigger] fs_front[k]).wf()
            &&& fs_front[k].sized
            &&& fs_front[k].start == plan_front[k].start
            &&& fs_front[k].end == plan_front[k].end
        } by {
            assert(fs_front[k] == fs[k] && plan_front[k] == plan[k]);
        }
        lemma_sum_within(fs_front, plan_front);
        assert(fs.last() == fs[fs.len() - 1]);
        if forall|k: int| 0 <= k < fs.len() ==> (#[trigger] fs[k]).complete() {
            assert forall|k: int| 0 <= k < fs_front.len() implies (#[trigger] fs_front[k]).complete() by {
                assert(fs_front[k] == fs[k]);
            }
        }
    }
}

/// A job's fetchers, working the segments of a plan that tiles a file of
/// `total` bytes, never credit more than `total` bytes between them; once all
/// of them are complete they have written exactly `total` bytes, each segment
/// in full, so the file holds every byte of the body.
pub proof fn lemma_job_bytes(fs: Seq<SegmentFetcher>, plan: Seq<Segment>, total: nat)
    requires
        tiles(plan, total),
        runs_plan(fs, plan),
    ensures
        progress_sum(fs) <= total,
        (forall|k: int| 0 <= k < fs.len() ==> (#[trigger] fs[k]).complete()) ==> {
            &&& progress_sum(fs) == total
            &&& forall|k: int| 0 <= k < fs.len() ==> (#[trigger] fs[k]).progress == plan[k].end - plan[k].start + 1
        },
{
    lemma_tiles_total(plan, total);
    lemma_sum_within(fs, plan);
}

} // verus!
