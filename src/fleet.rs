//! The fleet model: which jobs are admitted, and the admission step that keeps
//! their number at the concurrency limit.

use vstd::prelude::*;
use crate::worker::{DownloadWorker, Directive, launched, demoted, start_directive};

verus! {

/// Indices below `n` of the queued jobs, in insertion order.
pub open spec fn queued_upto(ws: Seq<DownloadWorker>, n: nat) -> Seq<usize>
    decreases n,
{
    if n == 0 {
        seq![]
    } else {
        let p = queued_upto(ws, (n - 1) as nat);
        if ws[n - 1].state is Queued {
            p.push((n - 1) as usize)
        } else {
            p
        }
    }
}

/// The admitted list `a` without `x`.
pub open spec fn without(a: Seq<usize>, x: usize) -> Seq<usize>
    decreases a.len(),
{
    if a.len() == 0 {
        a
    } else {
        let r = without(a.drop_last(), x);
        if a.last() == x {
            r
        } else {
            r.push(a.last())
        }
    }
}

/// The jobs with those at the indices in `p` admitted.
pub open spec fn launch_all(ws: Seq<DownloadWorker>, p: Seq<usize>) -> Seq<DownloadWorker> {
    Seq::new(ws.len(), |j: int| if p.contains(j as usize) { launched(ws[j]) } else { ws[j] })
}

/// The jobs with those at the indices in `d` demoted.
pub open spec fn demote_all(ws: Seq<DownloadWorker>, d: Seq<usize>) -> Seq<DownloadWorker> {
    Seq::new(ws.len(), |j: int| if d.contains(j as usize) { demoted(ws[j]) } else { ws[j] })
}

/// The queued jobs that the admission step admits: the earliest ones, as many
/// as there are free slots.
pub open spec fn picked(ws: Seq<DownloadWorker>, a: Seq<usize>, lim: nat) -> Seq<usize> {
    let q = queued_upto(ws, ws.len());
    let free = lim - a.len();
    if free < q.len() {
        q.take(free)
    } else {
        q
    }
}

/// The admission step on jobs `ws` with admitted list `a` (earliest admitted
/// first) and limit `lim`: nothing at the limit; above it the earliest admitted
/// are demoted; below it the earliest queued are admitted.
pub open spec fn queue_step(ws: Seq<DownloadWorker>, a: Seq<usize>, lim: nat) -> (Seq<DownloadWorker>, Seq<usize>) {
    if a.len() == lim {
        (ws, a)
    } else if a.len() > lim {
        let k = a.len() - lim;
        (demote_all(ws, a.take(k)), a.skip(k))
    } else {
        let p = picked(ws, a, lim);
        (launch_all(ws, p), a + p)
    }
}

/// What the admission step asks of the runtime.
pub open spec fn queue_directives(ws: Seq<DownloadWorker>, a: Seq<usize>, lim: nat) -> Seq<Directive> {
    if a.len() == lim {
        seq![]
    } else if a.len() > lim {
        let k = a.len() - lim;
        a.take(k).map_values(|i: usize| Directive::Suspend(ws[i as int].id))
    } else {
        picked(ws, a, lim).map_values(|i: usize| start_directive(ws[i as int]))
    }
}

/// The fleet is consistent: ids unique, the admitted list free of repeats and
/// within bounds, a job admitted exactly when it runs, each job's book well formed.
pub open spec fn fleet_ok(ws: Seq<DownloadWorker>, a: Seq<usize>) -> bool {
    &&& ws.len() <= usize::MAX
    &&& forall|i: int, j: int| 0 <= i < j < ws.len() ==> (#[trigger] ws[i]).id != (#[trigger] ws[j]).id
    &&& forall|k: int, l: int| 0 <= k < l < a.len() ==> (#[trigger] a[k]) != (#[trigger] a[l])
    &&& forall|k: int| 0 <= k < a.len() ==> (#[trigger] a[k]) < ws.len()
    &&& forall|j: int| 0 <= j < ws.len() ==> ((#[trigger] ws[j]).state is Running <==> a.contains(j as usize))
    &&& forall|j: int| 0 <= j < ws.len() ==> (#[trigger] ws[j]).wf()
}

pub proof fn lemma_queued(ws: Seq<DownloadWorker>, n: nat)
    requires
        n <= ws.len(),
        ws.len() <= usize::MAX,
    ensures
        queued_upto(ws, n).len() <= n,
        forall|k: int| 0 <= k < queued_upto(ws, n).len() ==> (#[trigger] queued_upto(ws, n)[k]) < n
            && ws[queued_upto(ws, n)[k] as int].state is Queued,
        forall|k: int, l: int| 0 <= k < l < queued_upto(ws, n).len() ==>
            (#[trigger] queued_upto(ws, n)[k]) < (#[trigger] queued_upto(ws, n)[l]),
        forall|j: int| 0 <= j < n && (#[trigger] ws[j]).state is Queued ==> queued_upto(ws, n).contains(j as usize),
    decreases n,
{
    if n > 0 {
        lemma_queued(ws, (n - 1) as nat);
        let p = queued_upto(ws, (n - 1) as nat);
        if ws[n - 1].state is Queued {
            let q = p.push((n - 1) as usize);
            assert(((n - 1) as usize) as int == n - 1);
            assert forall|k: int| 0 <= k < q.len() implies (#[trigger] q[k]) < n && ws[q[k] as int].state is Queued by {
                if k < p.len() {
                    assert(q[k] == p[k]);
                }
            }
            assert forall|k: int, l: int| 0 <= k < l < q.len() implies (#[trigger] q[k]) < (#[trigger] q[l]) by {
                assert(q[k] == p[k]);
                if l < p.len() {
                    assert(q[l] == p[l]);
                }
            }
            assert forall|j: int| 0 <= j < n && (#[trigger] ws[j]).state is Queued implies q.contains(j as usize) by {
                if j == n - 1 {
                    assert(q[q.len() - 1] == j as usize);
                } else {
                    let k = choose|k: int| 0 <= k < p.len() && p[k] == j as usize;
                    assert(q[k] == j as usize);
                }
            }
        }
    }
}

pub proof fn lemma_queued_prefix(ws: Seq<DownloadWorker>, i: nat, m: nat)
    requires
        i <= m <= ws.len(),
        ws.len() <= usize::MAX,
    ensures
        queued_upto(ws, i).len() <= queued_upto(ws, m).len(),
        queued_upto(ws, m).take(queued_upto(ws, i).len() as int) =~= queued_upto(ws, i),
    decreases m - i,
{
    if i < m {
        lemma_queued_prefix(ws, i, (m - 1) as nat);
    }
}

proof fn lemma_contains_concat(a: Seq<usize>, p: Seq<usize>, x: usize)
    ensures
        (a + p).contains(x) <==> (a.contains(x) || p.contains(x)),
{
    if a.contains(x) {
        let k = choose|k: int| 0 <= k < a.len() && a[k] == x;
        assert((a + p)[k] == x);
    }
    if p.contains(x) {
        let k = choose|k: int| 0 <= k < p.len() && p[k] == x;
        assert((a + p)[a.len() + k] == x);
    }
    if (a + p).contains(x) {
        let k = choose|k: int| 0 <= k < (a + p).len() && (a + p)[k] == x;
        if k < a.len() {
            assert(a[k] == x);
        } else {
            assert(p[k - a.len()] == x);
        }
    }
}

proof fn lemma_contains_split(a: Seq<usize>, k: int, x: usize)
    requires
        0 <= k <= a.len(),
    ensures
        a.contains(x) <==> (a.take(k).contains(x) || a.skip(k).contains(x)),
{
    assert(a =~= a.take(k) + a.skip(k));
    lemma_contains_concat(a.take(k), a.skip(k), x);
}

/// The admission step keeps the fleet consistent and leaves at most `lim` jobs admitted.
pub proof fn lemma_queue_step_ok(ws: Seq<DownloadWorker>, a: Seq<usize>, lim: nat)
    requires
        fleet_ok(ws, a),
    ensures
        fleet_ok(queue_step(ws, a, lim).0, queue_step(ws, a, lim).1),
        queue_step(ws, a, lim).1.len() <= lim,
        queue_step(ws, a, lim).0.len() == ws.len(),
        forall|j: int| 0 <= j < ws.len() && (#[trigger] ws[j]).state.is_terminal()
            ==> queue_step(ws, a, lim).0[j] == ws[j],
        forall|j: int| 0 <= j < ws.len() ==> (#[trigger] queue_step(ws, a, lim).0[j]).id == ws[j].id,
        forall|j: int| 0 <= j < ws.len() ==> {
            let r = #[trigger] queue_step(ws, a, lim).0[j];
            ||| r == ws[j]
            ||| ws[j].state is Queued && r == launched(ws[j])
            ||| ws[j].state is Running && r == demoted(ws[j])
        },
{
    let (ws1, a1) = queue_step(ws, a, lim);
    if a.len() == lim {
    } else if a.len() > lim {
        let k = a.len() - lim;
        let d = a.take(k);
        assert forall|j: int| 0 <= j < ws.len() implies ((#[trigger] ws1[j]).state is Running <==> a1.contains(j as usize)) by {
            lemma_contains_split(a, k, j as usize);
            if d.contains(j as usize) {
                let t = choose|t: int| 0 <= t < d.len() && d[t] == j as usize;
                if a1.contains(j as usize) {
                    let u = choose|u: int| 0 <= u < a1.len() && a1[u] == j as usize;
                    assert(a[t] == a[u + k]);
                }
            }
        }
        assert forall|x: int, y: int| 0 <= x < y < a1.len() implies (#[trigger] a1[x]) != (#[trigger] a1[y]) by {
            assert(a1[x] == a[x + k] && a1[y] == a[y + k]);
        }
        assert forall|j: int| 0 <= j < ws.len() && d.contains(j as usize) implies (#[trigger] ws[j]).state is Running by {
            let t = choose|t: int| 0 <= t < d.len() && d[t] == j as usize;
            assert(a[t] == j as usize);
            assert(a.contains(j as usize));
        }
        assert forall|x: int| 0 <= x < a1.len() implies (#[trigger] a1[x]) < ws1.len() by {
            assert(a1[x] == a[x + k]);
        }
    } else {
        let p = picked(ws, a, lim);
        let q = queued_upto(ws, ws.len());
        lemma_queued(ws, ws.len());
        assert(p.len() <= q.len());
        assert forall|t: int| 0 <= t < p.len() implies (#[trigger] p[t]) < ws.len() && ws[p[t] as int].state is Queued by {
            assert(p[t] == q[t]);
        }
        assert forall|j: int| 0 <= j < ws.len() implies ((#[trigger] ws1[j]).state is Running <==> a1.contains(j as usize)) by {
            lemma_contains_concat(a, p, j as usize);
        }
        assert forall|x: int, y: int| 0 <= x < y < a1.len() implies (#[trigger] a1[x]) != (#[trigger] a1[y]) by {
            if y >= a.len() {
                let py = p[y - a.len()];
                if x < a.len() {
                    assert(a.contains(a[x]));
                    assert(ws[py as int].state is Queued);
                } else {
                    assert(p[x - a.len()] == q[x - a.len()]);
                    assert(p[y - a.len()] == q[y - a.len()]);
                }
            }
        }
        assert forall|x: int| 0 <= x < a1.len() implies (#[trigger] a1[x]) < ws1.len() by {
            if x >= a.len() {
                assert(a1[x] == p[x - a.len()]);
            }
        }
        assert forall|j: int| 0 <= j < ws.len() && (#[trigger] ws[j]).state.is_terminal() implies ws1[j] == ws[j] by {
            if p.contains(j as usize) {
                let t = choose|t: int| 0 <= t < p.len() && p[t] == j as usize;
                assert(ws[p[t] as int].state is Queued);
            }
        }
    }
}

/// Running the admission step a second time, with nothing else changed in
/// between, changes nothing.
pub proof fn lemma_admission_idempotent(ws: Seq<DownloadWorker>, a: Seq<usize>, lim: nat)
    requires
        fleet_ok(ws, a),
    ensures
        queue_step(queue_step(ws, a, lim).0, queue_step(ws, a, lim).1, lim) == queue_step(ws, a, lim),
        queue_directives(queue_step(ws, a, lim).0, queue_step(ws, a, lim).1, lim).len() == 0,
{
    let (ws1, a1) = queue_step(ws, a, lim);
    lemma_queue_step_ok(ws, a, lim);
    if a.len() < lim {
        let p = picked(ws, a, lim);
        let q = queued_upto(ws, ws.len());
        if a1.len() < lim {
            lemma_queued(ws, ws.len());
            assert(p == q);
            assert forall|j: int| 0 <= j < ws1.len() implies !((#[trigger] ws1[j]).state is Queued) by {
                if ws[j].state is Queued {
                    assert(q.contains(j as usize));
                }
            }
            lemma_queued(ws1, ws1.len());
            let q1 = queued_upto(ws1, ws1.len());
            if q1.len() > 0 {
                assert(ws1[q1[0] as int].state is Queued);
            }
            assert(picked(ws1, a1, lim) =~= seq![]);
            assert(launch_all(ws1, seq![]) =~= ws1);
            assert(a1 + seq![] =~= a1);
        }
    }
}

} // verus!
