//! Splitting a file into the byte ranges that parallel fetchers download.

use vstd::prelude::*;

verus! {

/// The inclusive byte range `[start, end]` that fetcher `index` downloads.
#[derive(Debug, Clone, Copy, PartialEq, Eq, Structural)]
pub struct Segment {
    pub index: u64,
    pub start: u64,
    pub end: u64,
}

/// One fetcher covers the whole file when the server serves no ranges, the
/// size is unknown, parallelism is at most one, or the file has fewer bytes
/// than there would be segments.
pub open spec fn single_mode(total: Option<u64>, accept_ranges: bool, threads: u64) -> bool {
    !accept_ranges || total is None || threads <= 1 || (total matches Some(t) && t < threads)
}

/// The segments of a file of `total` bytes split `n` ways: each `total / n`
/// bytes long, the last one taking the remainder.
pub open spec fn split_spec(total: nat, n: nat, i: nat) -> (nat, nat) {
    let part = total / n;
    let start = i * part;
    let end = if i + 1 == n { (total - 1) as nat } else { ((i + 1) * part - 1) as nat };
    (start, end)
}

/// The segments tile `[0, total)`: the first starts at 0, each next one starts
/// right after the previous one ends, the last ends at `total - 1`.
pub open spec fn tiles(s: Seq<Segment>, total: nat) -> bool {
    &&& s.len() > 0
    &&& s[0].start == 0
    &&& s.last().end + 1 == total
    &&& forall|i: int| 0 <= i < s.len() ==> (#[trigger] s[i]).start <= s[i].end && s[i].index == i
    &&& forall|i: int| 0 <= i < s.len() - 1 ==> (#[trigger] s[i + 1]).start == s[i].end + 1
}

/// Sum of the segment lengths.
pub open spec fn total_len(s: Seq<Segment>) -> nat
    decreases s.len(),
{
    if s.len() == 0 {
        0
    } else {
        total_len(s.drop_last()) + (s.last().end - s.last().start + 1) as nat
    }
}

/// The ranges of a job of `total` bytes (when known) with parallelism
/// `threads`, and whether it runs in single mode. In single mode one segment
/// covers `[0, total - 1]` (`[0, 0]` when the size is unknown or zero);
/// otherwise `threads` segments split the file as `split_spec` says.
pub fn plan_segments(total: Option<u64>, accept_ranges: bool, threads: u64) -> (r: (Vec<Segment>, bool))
    ensures
        r.1 == single_mode(total, accept_ranges, threads),
        r.1 ==> r.0@ == seq![Segment {
            index: 0,
            start: 0,
            end: match total { Some(t) => if t > 0 { (t - 1) as u64 } else { 0 }, None => 0 },
        }],
        !r.1 ==> (total matches Some(t) && r.0@.len() == threads && forall|i: int| 0 <= i < threads ==> {
            let (s, e) = split_spec(t as nat, threads as nat, i as nat);
            &&& (#[trigger] r.0@[i]).index == i
            &&& r.0@[i].start == s
            &&& r.0@[i].end == e
        }),
        !r.1 ==> (total matches Some(t) && tiles(r.0@, t as nat)),
{
    let single = !accept_ranges || total.is_none() || threads <= 1 || (match total { Some(t) => t < threads, None => false });
    let mut out: Vec<Segment> = Vec::new();
    if single {
        let size = match total { Some(t) => t, None => 0 };
        let end = if size > 0 { size - 1 } else { 0 };
        out.push(Segment { index: 0, start: 0, end });
        assert(out@ =~= seq![Segment {
            index: 0,
            start: 0,
            end: match total { Some(t) => if t > 0 { (t - 1) as u64 } else { 0 }, None => 0 },
        }]);
        return (out, true);
    }
    let size = match total { Some(t) => t, None => 0 };
    let part = size / threads;
    assert(part >= 1 && part * threads <= size) by (nonlinear_arith)
        requires part == size / threads, threads > 1, size >= threads;
    let mut i: u64 = 0;
    let mut start: u64 = 0;
    while i < threads
        invariant
            threads > 1,
            size >= threads,
            part == size / threads,
            part >= 1,
            part * threads <= size,
            i <= threads,
            start as int == i * part,
            total == Some(size),
            out@.len() == i,
            forall|k: int| 0 <= k < i ==> {
                let (s, e) = split_spec(size as nat, threads as nat, k as nat);
                &&& (#[trigger] out@[k]).index == k
                &&& out@[k].start == s
                &&& out@[k].end == e
            },
        decreases threads - i,
    {
        assert((i + 1) * part <= threads * part) by (nonlinear_arith)
            requires i < threads, part >= 1;
        assert((i + 1) * part == i * part + part) by (nonlinear_arith);
        let end = if i == threads - 1 { size - 1 } else { start + part - 1 };
        out.push(Segment { index: i, start, end });
        start = start + part;
        i = i + 1;
    }
    proof {
        let s = out@;
        assert forall|k: int| 0 <= k < s.len() implies (#[trigger] s[k]).start <= s[k].end && s[k].index == k by {
            assert(k * part <= (threads - 1) * part) by (nonlinear_arith)
                requires k < threads, part >= 1;
            assert((threads - 1) * part + part == threads * part) by (nonlinear_arith);
            assert((k + 1) * part == k * part + part) by (nonlinear_arith);
        }
        assert forall|k: int| 0 <= k < s.len() - 1 implies (#[trigger] s[k + 1]).start == s[k].end + 1 by {
            assert((k + 1) * part == k * part + part) by (nonlinear_arith);
        }
        assert(s[0].start == 0) by {
            assert(0 * part == 0) by (nonlinear_arith);
        }
    }
    (out, false)
}

/// Whether the fetchers ask for byte ranges: the server serves them and the
/// size is known, so that every range has an end.
pub fn uses_ranges(total: Option<u64>, accept_ranges: bool) -> (r: bool)
    ensures
        r == (accept_ranges && total is Some),
{
    accept_ranges && total.is_some()
}

/// The lengths of segments that tile `[0, total)` add up to `total`.
pub proof fn lemma_tiles_total(s: Seq<Segment>, total: nat)
    requires
        tiles(s, total),
    ensures
        total_len(s) == total,
{
    lemma_prefix_len(s, s.len() as int);
    assert(s.take(s.len() as int) =~= s);
}

proof fn lemma_prefix_len(s: Seq<Segment>, k: int)
    requires
        0 < k <= s.len(),
        s[0].start == 0,
        forall|i: int| 0 <= i < s.len() ==> (#[trigger] s[i]).start <= s[i].end && s[i].index == i,
        forall|i: int| 0 <= i < s.len() - 1 ==> (#[trigger] s[i + 1]).start == s[i].end + 1,
    ensures
        total_len(s.take(k)) == s[k - 1].end + 1,
    decreases k,
{
    let t = s.take(k);
    assert(t.drop_last() =~= s.take(k - 1));
    assert(t.last() == s[k - 1]);
    assert(s[k - 1].start <= s[k - 1].end);
    if k > 1 {
        lemma_prefix_len(s, k - 1);
        assert(s[(k - 2) + 1].start == s[k - 2].end + 1);
    } else {
        assert(s.take(0).len() == 0);
        assert(total_len(s.take(0)) == 0);
    }
}

} // verus!
