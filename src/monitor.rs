//! What a job reports once all its fetchers have stopped.

use vstd::prelude::*;
use crate::types::WorkerEvent;

verus! {

/// Index of the first failed fetcher among `res`, if any.
pub open spec fn first_failure(res: Seq<Option<String>>) -> Option<int>
    decreases res.len(),
{
    if res.len() == 0 {
        None
    } else {
        match first_failure(res.drop_last()) {
            Some(i) => Some(i),
            None => if res.last() is Some { Some(res.len() - 1) } else { None },
        }
    }
}

/// The lifecycle event of job `id` whose fetchers ended with `res` (each
/// `None` on success, or the failure message): an error with the first failure
/// message; otherwise completion, unless the job was cancelled, in which case
/// there is no event.
pub fn monitor_outcome(id: u128, res: &Vec<Option<String>>, cancelled: bool) -> (r: Option<WorkerEvent>)
    ensures
        first_failure(res@) matches Some(i) ==> r == Some(WorkerEvent::Error(id, res@[i]->Some_0)),
        first_failure(res@) is None && !cancelled ==> r == Some(WorkerEvent::Completed(id)),
        first_failure(res@) is None && cancelled ==> r is None,
{
    let mut i: usize = 0;
    while i < res.len()
        invariant
            i <= res@.len(),
            first_failure(res@.take(i as int)) is None,
        decreases res@.len() - i,
    {
        assert(res@.take(i + 1).drop_last() =~= res@.take(i as int));
        match &res[i] {
            Some(m) => {
                proof {
                    lemma_first_failure_prefix(res@, i + 1);
                }
                return Some(WorkerEvent::Error(id, m.clone()));
            },
            None => {},
        }
        i = i + 1;
    }
    assert(res@.take(i as int) =~= res@);
    if cancelled {
        None
    } else {
        Some(WorkerEvent::Completed(id))
    }
}

proof fn lemma_first_failure_prefix(res: Seq<Option<String>>, k: int)
    requires
        0 < k <= res.len(),
        first_failure(res.take(k)) == Some(k - 1),
    ensures
        first_failure(res) == Some(k - 1),
    decreases res.len() - k,
{
    if k == res.len() {
        assert(res.take(k) =~= res);
    } else {
        assert(res.drop_last().take(k) =~= res.take(k));
        lemma_first_failure_prefix(res.drop_last(), k);
    }
}

} // verus!
