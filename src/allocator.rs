//! The proportional allocator: each tick, the global byte-rate cap is shared
//! among the admitted jobs in proportion to their observed speeds.

use vstd::prelude::*;
use crate::manager::DownloadManager;
use crate::fleet::fleet_ok;
use crate::speed::{calc_speed, speed_of};
use crate::worker::DownloadWorker;

verus! {

/// Sum of the speeds.
pub open spec fn sum(s: Seq<u64>) -> nat
    decreases s.len(),
{
    if s.len() == 0 {
        0
    } else {
        sum(s.drop_last()) + (s.last() as nat)
    }
}

/// `x / y` rounded to the nearest integer, halves up.
pub open spec fn round_div(x: nat, y: nat) -> nat {
    if y == 0 {
        0
    } else if x % y >= y - x % y {
        x / y + 1
    } else {
        x / y
    }
}

/// The share of a job observed at `o` bytes per second when all admitted jobs
/// together make `total > 0`: `o / total` of the cap `g`, rounded, kept at
/// least at a twentieth of `g` so that slow starters stay alive, and never
/// above `g`.
pub open spec fn share_of(o: nat, total: nat, g: nat) -> nat {
    let s = round_div(o * g, total);
    let low = g / 20;
    let s1 = if s < low { low } else { s };
    if s1 > g { g } else { s1 }
}

/// The share of job `k` among jobs observed at `speeds` under the cap `g`:
/// an even split when nothing was observed, proportional shares otherwise.
pub open spec fn allocation(g: nat, speeds: Seq<u64>, k: int) -> nat {
    if sum(speeds) == 0 {
        g / speeds.len()
    } else {
        share_of(speeds[k] as nat, sum(speeds), g)
    }
}

proof fn lemma_sum_bound(s: Seq<u64>)
    ensures
        sum(s) <= s.len() * (u64::MAX as nat),
    decreases s.len(),
{
    if s.len() > 0 {
        lemma_sum_bound(s.drop_last());
        assert((s.len() - 1) * (u64::MAX as nat) + u64::MAX == s.len() * (u64::MAX as nat)) by (nonlinear_arith);
    }
}

/// The caps of jobs observed at `speeds` under the global cap `global`.
pub fn allocate_shares(global: u64, speeds: &Vec<u64>) -> (r: Vec<u64>)
    ensures
        r@.len() == speeds@.len(),
        forall|k: int| 0 <= k < r@.len() ==> (#[trigger] r@[k]) as nat == allocation(global as nat, speeds@, k),
{
    let n = speeds.len();
    let mut total: u128 = 0;
    let mut i: usize = 0;
    while i < n
        invariant
            i <= n,
            n == speeds@.len(),
            total == sum(speeds@.take(i as int)),
            total <= i * (u64::MAX as nat),
        decreases n - i,
    {
        proof {
            assert(speeds@.take(i + 1).drop_last() =~= speeds@.take(i as int));
            assert(i * (u64::MAX as nat) + u64::MAX == (i + 1) * (u64::MAX as nat)) by (nonlinear_arith);
            assert((i + 1) * (u64::MAX as nat) <= (usize::MAX as nat) * (u64::MAX as nat)) by (nonlinear_arith)
                requires i + 1 <= usize::MAX;
        }
        total = total + speeds[i] as u128;
        i = i + 1;
    }
    assert(speeds@.take(n as int) =~= speeds@);
    let mut out: Vec<u64> = Vec::new();
    let mut k: usize = 0;
    while k < n
        invariant
            k <= n,
            n == speeds@.len(),
            total == sum(speeds@),
            out@.len() == k,
            forall|j: int| 0 <= j < k ==> (#[trigger] out@[j]) as nat == allocation(global as nat, speeds@, j),
        decreases n - k,
    {
        let share: u64 = if total == 0 {
            global / (n as u64)
        } else {
            let o = speeds[k];
            assert((o as nat) * (global as nat) <= (u64::MAX as nat) * (u64::MAX as nat)) by (nonlinear_arith)
                requires o <= u64::MAX, global <= u64::MAX;
            let x: u128 = o as u128 * global as u128;
            let q = x / total;
            let rem = x % total;
            let s = if rem >= total - rem { q + 1 } else { q };
            let low = global / 20;
            let s1 = if s < low as u128 { low as u128 } else { s };
            if s1 > global as u128 { global } else { s1 as u64 }
        };
        out.push(share);
        k = k + 1;
    }
    out
}

/// The speeds observed of the admitted jobs `a`, in admission order.
pub open spec fn observed(ws: Seq<DownloadWorker>, a: Seq<usize>) -> Seq<u64> {
    a.map_values(|i: usize| speed_of(ws[i as int].history@) as u64)
}

impl DownloadManager {
    /// One tick of the allocator: with a global cap, each admitted job gets
    /// its share of it as its own cap; returns the new caps by job id. Without
    /// a global cap nothing changes.
    pub fn recalculate_speed_limits(&mut self) -> (r: Vec<(u128, u64)>)
        requires
            old(self).wf(),
        ensures
            final(self).wf(),
            final(self).settings == old(self).settings,
            final(self).active@ == old(self).active@,
            final(self).concurrency == old(self).concurrency,
            final(self).workers@.len() == old(self).workers@.len(),
            old(self).settings.speed_limit == 0 ==> final(self).workers@ == old(self).workers@ && r@.len() == 0,
            old(self).settings.speed_limit > 0 ==> {
                let ws = old(self).workers@;
                let a = old(self).active@;
                let g = old(self).settings.speed_limit as nat;
                &&& r@.len() == a.len()
                &&& forall|k: int| 0 <= k < a.len() ==> (#[trigger] r@[k]) == (ws[a[k] as int].id, allocation(g, observed(ws, a), k) as u64)
                &&& forall|k: int| 0 <= k < a.len() ==> (#[trigger] final(self).workers@[a[k] as int]).speed_limit == allocation(g, observed(ws, a), k)
                &&& forall|j: int| 0 <= j < ws.len() ==> (#[trigger] final(self).workers@[j]) == (DownloadWorker {
                        speed_limit: final(self).workers@[j].speed_limit,
                        ..ws[j]
                    })
                &&& forall|j: int| 0 <= j < ws.len() && !a.contains(j as usize) ==> (#[trigger] final(self).workers@[j]) == ws[j]
            },
    {
        let global = self.settings.speed_limit;
        if global == 0 {
            return Vec::new();
        }
        let ghost ws0 = self.workers@;
        let ghost a0 = self.active@;
        let ghost s0 = self.settings;
        let ghost c0 = self.concurrency;
        let mut speeds: Vec<u64> = Vec::new();
        let mut k: usize = 0;
        while k < self.active.len()
            invariant
                k <= a0.len(),
                self.active@ == a0,
                self.settings == s0,
                self.concurrency == c0,
                self.workers@ == ws0,
                fleet_ok(ws0, a0),
                speeds@ == observed(ws0, a0).take(k as int),
            decreases a0.len() - k,
        {
            let i = self.active[k];
            let s = calc_speed(&self.workers[i].history);
            speeds.push(s);
            k = k + 1;
            assert(speeds@ =~= observed(ws0, a0).take(k as int));
        }
        assert(speeds@ =~= observed(ws0, a0));
        let shares = allocate_shares(global, &speeds);
        let mut out: Vec<(u128, u64)> = Vec::new();
        let mut k: usize = 0;
        while k < self.active.len()
            invariant
                k <= a0.len(),
                self.active@ == a0,
                self.settings == s0,
                self.concurrency == c0,
                self.settings.speed_limit == global,
                fleet_ok(ws0, a0),
                shares@.len() == a0.len(),
                forall|t: int| 0 <= t < a0.len() ==> (#[trigger] shares@[t]) as nat == allocation(global as nat, observed(ws0, a0), t),
                self.workers@.len() == ws0.len(),
                out@.len() == k,
                forall|t: int| 0 <= t < k ==> (#[trigger] out@[t]) == (ws0[a0[t] as int].id, shares@[t]),
                forall|t: int| 0 <= t < k ==> (#[trigger] self.workers@[a0[t] as int]).speed_limit == shares@[t],
                forall|j: int| 0 <= j < ws0.len() ==> (#[trigger] self.workers@[j]) == (DownloadWorker {
                    speed_limit: self.workers@[j].speed_limit,
                    ..ws0[j]
                }),
                forall|j: int| 0 <= j < ws0.len() && !a0.take(k as int).contains(j as usize) ==> (#[trigger] self.workers@[j]) == ws0[j],
            decreases a0.len() - k,
        {
            let i = self.active[k];
            let id = self.workers[i].id;
            self.workers[i].speed_limit = shares[k];
            out.push((id, shares[k]));
            proof {
                assert forall|t: int| 0 <= t < k + 1 implies (#[trigger] self.workers@[a0[t] as int]).speed_limit == shares@[t] by {
                    if t < k {
                        assert(a0[t] != a0[k as int]);
                    }
                }
                assert forall|j: int| 0 <= j < ws0.len() && !a0.take(k + 1).contains(j as usize) implies (#[trigger] self.workers@[j]) == ws0[j] by {
                    assert(a0.take(k + 1)[k as int] == i);
                    if a0.take(k as int).contains(j as usize) {
                        let u = choose|u: int| 0 <= u < k && a0.take(k as int)[u] == j as usize;
                        assert(a0.take(k + 1)[u] == j as usize);
                    }
                }
            }
            k = k + 1;
        }
        proof {
            assert(a0.take(a0.len() as int) =~= a0);
            let ws1 = self.workers@;
            assert forall|x: int, y: int| 0 <= x < y < ws1.len() implies (#[trigger] ws1[x]).id != (#[trigger] ws1[y]).id by {
                assert(ws1[x].id == ws0[x].id && ws1[y].id == ws0[y].id);
            }
            assert forall|j: int| 0 <= j < ws1.len() implies (#[trigger] ws1[j]).wf() by {
                assert(ws1[j].history == ws0[j].history);
            }
        }
        out
    }
}

} // verus!
