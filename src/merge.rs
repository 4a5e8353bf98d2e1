//! The dual-stream download: a video and an audio job whose files are muxed
//! into the destination once both are complete.

use vstd::prelude::*;
use crate::types::DownloadState;

verus! {

/// What to do about a dual-stream download.
#[derive(Debug, Clone, Copy, PartialEq, Eq, Structural)]
pub enum MergeStep {
    /// A part is still under way.
    Wait,
    /// Both parts are complete: mux them into the destination and remove them.
    Merge,
    /// A part failed or was cancelled: nothing is muxed.
    Abandon,
}

/// The step for the parts in states `video` and `audio` (absent when not requested).
pub open spec fn merge_step_of(video: Option<DownloadState>, audio: Option<DownloadState>) -> MergeStep {
    let failed = |s: Option<DownloadState>| s matches Some(x) && (x is Error || x is Cancelled);
    let done = |s: Option<DownloadState>| s matches Some(x) && x is Completed;
    if failed(video) || failed(audio) {
        MergeStep::Abandon
    } else if done(video) && done(audio) {
        MergeStep::Merge
    } else {
        MergeStep::Wait
    }
}

fn failed(s: Option<&DownloadState>) -> (r: bool)
    ensures
        r == (s matches Some(x) && (x is Error || x is Cancelled)),
{
    match s {
        Some(DownloadState::Error(_)) | Some(DownloadState::Cancelled) => true,
        _ => false,
    }
}

fn done(s: Option<&DownloadState>) -> (r: bool)
    ensures
        r == (s matches Some(x) && x is Completed),
{
    match s {
        Some(DownloadState::Completed) => true,
        _ => false,
    }
}

/// Decides a dual-stream download from the states of its parts: abandon it
/// once a part failed or was cancelled, merge once both parts are complete,
/// wait otherwise. A part that was not requested never completes.
pub fn merge_step(video: Option<&DownloadState>, audio: Option<&DownloadState>) -> (r: MergeStep)
    ensures
        r == merge_step_of(
            match video { Some(x) => Some(*x), None => None },
            match audio { Some(x) => Some(*x), None => None },
        ),
{
    if failed(video) || failed(audio) {
        MergeStep::Abandon
    } else if done(video) && done(audio) {
        MergeStep::Merge
    } else {
        MergeStep::Wait
    }
}

/// Where the extractor's format goes: a video list when it carries video, else
/// an audio list when it carries audio, else neither.
#[derive(Debug, Clone, Copy, PartialEq, Eq, Structural)]
pub enum FormatKind {
    Video,
    Audio,
    Other,
}

fn is_none_codec(c: &Option<String>) -> (r: bool)
    ensures
        r == (c matches Some(x) && x@ == "none"@),
{
    match c {
        Some(x) => {
            let n = "none".to_owned();
            proof {
                reveal_strlit("none");
            }
            *x == n
        },
        None => false,
    }
}

/// Sorts a format by its codecs: video when the video codec is not `none`,
/// else audio when the audio codec is not `none`, else neither.
pub fn classify_format(vcodec: &Option<String>, acodec: &Option<String>) -> (r: FormatKind)
    ensures
        !(vcodec matches Some(x) && x@ == "none"@) ==> r == FormatKind::Video,
        (vcodec matches Some(x) && x@ == "none"@) && !(acodec matches Some(x) && x@ == "none"@) ==> r == FormatKind::Audio,
        (vcodec matches Some(x) && x@ == "none"@) && (acodec matches Some(x) && x@ == "none"@) ==> r == FormatKind::Other,
{
    if !is_none_codec(vcodec) {
        FormatKind::Video
    } else if !is_none_codec(acodec) {
        FormatKind::Audio
    } else {
        FormatKind::Other
    }
}

} // verus!
