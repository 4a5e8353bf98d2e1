//! Throughput samples and the speed derived from them.

use vstd::prelude::*;

verus! {

/// Most samples kept in a job's ring.
pub const MAX_HISTORY: usize = 15;

/// A ring is well formed: at most `MAX_HISTORY` samples, timestamps strictly
/// increasing, cumulative byte counts non-decreasing.
pub open spec fn ring_ok(h: Seq<(u128, u64)>) -> bool {
    &&& h.len() <= MAX_HISTORY
    &&& forall|i: int, j: int| 0 <= i < j < h.len() ==> (#[trigger] h[i]).0 < (#[trigger] h[j]).0
    &&& forall|i: int, j: int| 0 <= i < j < h.len() ==> (#[trigger] h[i]).1 <= (#[trigger] h[j]).1
}

/// The ring after offering the sample `s`.
/// A sample not later than the newest one is ignored; a byte count below the
/// newest one (the counter was reset) starts the ring anew; otherwise the sample
/// is appended and the oldest ones are dropped down to `MAX_HISTORY`.
pub open spec fn pushed(h: Seq<(u128, u64)>, s: (u128, u64)) -> Seq<(u128, u64)> {
    if h.len() > 0 && s.0 <= h.last().0 {
        h
    } else if h.len() > 0 && s.1 < h.last().1 {
        seq![s]
    } else if h.len() + 1 > MAX_HISTORY {
        h.push(s).subrange(h.len() + 1 - MAX_HISTORY, h.len() + 1 as int)
    } else {
        h.push(s)
    }
}

/// Bytes per second between the first and the last sample, rounded down and
/// saturated at `u64::MAX`; zero with fewer than two samples, an empty time span
/// or no growth.
pub open spec fn speed_of(h: Seq<(u128, u64)>) -> nat {
    if h.len() < 2 {
        0
    } else {
        let first = h[0];
        let last = h.last();
        if last.0 <= first.0 || last.1 <= first.1 {
            0
        } else {
            let v = (last.1 - first.1) * 1000 / (last.0 - first.0);
            if v > u64::MAX {
                u64::MAX as nat
            } else {
                v as nat
            }
        }
    }
}

/// Offers one `(unix_millis, cumulative_bytes)` sample to a job's ring.
pub fn push_sample(history: &mut Vec<(u128, u64)>, ts: u128, bytes: u64)
    requires
        ring_ok(old(history)@),
    ensures
        final(history)@ == pushed(old(history)@, (ts, bytes)),
        ring_ok(final(history)@),
{
    let n = history.len();
    if n > 0 {
        let last = history[n - 1];
        if ts <= last.0 {
            return;
        }
        if bytes < last.1 {
            history.clear();
            history.push((ts, bytes));
            assert(history@ =~= seq![(ts, bytes)]);
            return;
        }
    }
    let ghost h0 = history@;
    history.push((ts, bytes));
    if history.len() > MAX_HISTORY {
        history.remove(0);
        assert(history@ =~= h0.push((ts, bytes)).subrange(h0.len() + 1 - MAX_HISTORY, h0.len() + 1 as int));
    }
    proof {
        let h = history@;
        assert forall|i: int, j: int| 0 <= i < j < h.len() implies (#[trigger] h[i]).0 < (#[trigger] h[j]).0
            && h[i].1 <= h[j].1 by {
            let d: int = if h0.len() + 1 > MAX_HISTORY { 1 } else { 0 };
            assert(h[i] == h0.push((ts, bytes))[i + d]);
            assert(h[j] == h0.push((ts, bytes))[j + d]);
            if j + d == h0.len() as int {
                assert(h0[i + d].0 <= h0.last().0);
                assert(h0[i + d].1 <= h0.last().1);
            }
        }
    }
}

/// Current speed of a job from its ring, in bytes per second.
pub fn calc_speed(history: &Vec<(u128, u64)>) -> (r: u64)
    ensures
        r as nat == speed_of(history@),
{
    let n = history.len();
    if n < 2 {
        return 0;
    }
    let first = history[0];
    let last = history[n - 1];
    if last.0 <= first.0 || last.1 <= first.1 {
        return 0;
    }
    let delta: u128 = (last.1 - first.1) as u128;
    assert(delta * 1000 <= u64::MAX as u128 * 1000) by (nonlinear_arith)
        requires delta <= u64::MAX as u128;
    let v: u128 = delta * 1000 / (last.0 - first.0);
    if v > u64::MAX as u128 {
        u64::MAX
    } else {
        v as u64
    }
}

/// How long a fetcher sleeps after a chunk, in milliseconds, when its job runs
/// at `speed` bytes per second under the cap `cap` (zero: no cap).
/// The sleep is `speed / cap - 1` seconds, rounded down to whole milliseconds.
pub open spec fn throttle_ms(speed: nat, cap: nat) -> nat {
    if cap > 0 && speed > cap {
        ((speed - cap) * 1000 / (cap as int)) as nat
    } else {
        0
    }
}

/// The sleep that holds a job near its cap.
pub fn throttle_delay_ms(speed: u64, cap: u64) -> (r: u128)
    ensures
        r as nat == throttle_ms(speed as nat, cap as nat),
{
    if cap > 0 && speed > cap {
        let d: u128 = (speed - cap) as u128;
        assert(d * 1000 <= u64::MAX as u128 * 1000) by (nonlinear_arith)
            requires d <= u64::MAX as u128;
        d * 1000 / cap as u128
    } else {
        0
    }
}

} // verus!
