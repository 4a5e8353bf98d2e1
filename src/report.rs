//! What the user interface is shown of the jobs.

use vstd::prelude::*;
use vstd::string::StringExecFns;
use crate::types::{DownloadState, DWError};
use crate::signals::{DownloadGlance, DownloadDetails};
use crate::speed::{calc_speed, speed_of};
use crate::ids::{is_id_text, uuid_string};
use crate::worker::DownloadWorker;
use crate::manager::{DownloadManager, has_id, index_of};

verus! {

/// The last component of a path.
pub uninterp spec fn file_name_text(path: Seq<char>) -> Seq<char>;

/// Relies on `std::path::Path::file_name`: the last component of the path,
/// empty when there is none or it is not valid Unicode.
#[verifier::external_body]
pub(crate) fn file_name(path: &String) -> (r: String)
    ensures
        r@ == file_name_text(path@),
{
    std::path::Path::new(path.as_str()).file_name().and_then(|s| s.to_str()).unwrap_or("").to_string()
}

/// The short label of a state.
pub open spec fn label_of(s: DownloadState) -> Seq<char> {
    match s {
        DownloadState::Queued => "Queued"@,
        DownloadState::Running => "Running"@,
        DownloadState::Paused => "Paused"@,
        DownloadState::Completed => "Completed"@,
        DownloadState::Cancelled => "Cancelled"@,
        DownloadState::Error(_) => "Error"@,
    }
}

/// The label of a state with the reason of an error.
pub open spec fn detail_label_of(s: DownloadState) -> Seq<char> {
    match s {
        DownloadState::Error(m) => "Error: "@ + m@,
        _ => label_of(s),
    }
}

/// The short label of a state.
pub fn state_label(s: &DownloadState) -> (r: String)
    ensures
        r@ == label_of(*s),
{
    match s {
        DownloadState::Queued => "Queued".to_owned(),
        DownloadState::Running => "Running".to_owned(),
        DownloadState::Paused => "Paused".to_owned(),
        DownloadState::Completed => "Completed".to_owned(),
        DownloadState::Cancelled => "Cancelled".to_owned(),
        DownloadState::Error(_) => "Error".to_owned(),
    }
}

/// The label of a state, with the reason of an error.
pub fn detail_label(s: &DownloadState) -> (r: String)
    ensures
        r@ == detail_label_of(*s),
{
    match s {
        DownloadState::Error(m) => "Error: ".to_owned().concat(m.as_str()),
        _ => state_label(s),
    }
}

/// The line of the job list that shows `w`.
pub open spec fn glance_of(g: DownloadGlance, w: DownloadWorker) -> bool {
    &&& is_id_text(g.id@, w.id)
    &&& g.name@ == file_name_text(w.dest@)
    &&& g.total_size == w.total_size
    &&& g.downloaded == w.downloaded
    &&& g.speed as nat == speed_of(w.history@)
    &&& g.state@ == label_of(w.state)
}

/// The details that show `w`.
pub open spec fn details_of(d: DownloadDetails, w: DownloadWorker) -> bool {
    &&& is_id_text(d.id@, w.id)
    &&& d.name@ == file_name_text(w.dest@)
    &&& d.url@ == w.url@
    &&& d.dest@ == w.dest@
    &&& d.total_size == w.total_size
    &&& d.downloaded == w.downloaded
    &&& d.speed as nat == speed_of(w.history@)
    &&& d.state@ == detail_label_of(w.state)
}

/// The line of the job list that shows `w`.
pub fn glance(w: &DownloadWorker) -> (g: DownloadGlance)
    ensures
        glance_of(g, *w),
{
    DownloadGlance {
        id: uuid_string(w.id),
        name: file_name(&w.dest),
        total_size: w.total_size,
        downloaded: w.downloaded,
        speed: calc_speed(&w.history),
        state: state_label(&w.state),
    }
}

impl DownloadManager {
    /// The job list, in order of submission.
    pub fn glances(&self) -> (r: Vec<DownloadGlance>)
        ensures
            r@.len() == self.workers@.len(),
            forall|j: int| 0 <= j < r@.len() ==> glance_of(#[trigger] r@[j], self.workers@[j]),
    {
        let mut out: Vec<DownloadGlance> = Vec::new();
        let mut j: usize = 0;
        while j < self.workers.len()
            invariant
                j <= self.workers@.len(),
                out@.len() == j,
                forall|k: int| 0 <= k < j ==> glance_of(#[trigger] out@[k], self.workers@[k]),
            decreases self.workers@.len() - j,
        {
            out.push(glance(&self.workers[j]));
            j = j + 1;
        }
        out
    }

    /// The details of the job with id `id`.
    pub fn details(&self, id: u128) -> (r: Result<DownloadDetails, DWError>)
        requires
            self.wf(),
        ensures
            r is Err <==> !has_id(self.workers@, id),
            r is Err ==> r == Err::<DownloadDetails, DWError>(DWError::NotFound),
            r matches Ok(d) ==> details_of(d, self.workers@[index_of(self.workers@, id)]),
    {
        match self.find(id) {
            Some(i) => {
                let w = &self.workers[i];
                Ok(DownloadDetails {
                    id: uuid_string(w.id),
                    name: file_name(&w.dest),
                    url: w.url.clone(),
                    dest: w.dest.clone(),
                    total_size: w.total_size,
                    downloaded: w.downloaded,
                    speed: calc_speed(&w.history),
                    state: detail_label(&w.state),
                })
            },
            None => Err(DWError::NotFound),
        }
    }
}

} // verus!
