//! The data model shared by the engine's components.

use vstd::prelude::*;

verus! {

/// Live engine settings.
#[derive(Debug, Clone, Copy)]
pub struct DMSettings {
    /// Global byte-rate cap in bytes per second; 0 is unlimited.
    pub speed_limit: u64,
    /// Fetchers per range-parallel job.
    pub download_threads: u8,
    /// Most jobs admitted at once.
    pub concurrency_limit: u8,
    /// Read timeout of a fetcher, in seconds.
    pub download_timeout: u64,
    /// Retry budget of a fetcher.
    pub download_retries: u8,
}

/// Settings of the local server that the UI talks to.
#[derive(Debug, Clone, Copy)]
pub struct ServerSettings {
    pub port: Option<u16>,
}

/// What a `HEAD` probe tells about a source.
#[derive(Debug, Clone)]
pub struct HeadData {
    pub total_size: Option<u64>,
    pub accept_ranges: bool,
    pub content_type: Option<String>,
}

/// Lifecycle of a job.
#[derive(Debug, Clone)]
pub enum DownloadState {
    Queued,
    Running,
    Paused,
    Completed,
    Cancelled,
    Error(String),
}

impl DownloadState {
    /// `Completed`, `Cancelled` and `Error` are final.
    pub open spec fn is_terminal(&self) -> bool {
        self is Completed || self is Cancelled || self is Error
    }

    /// An equal copy.
    pub fn duplicate(&self) -> (r: DownloadState)
        ensures
            r == *self,
    {
        match self {
            DownloadState::Queued => DownloadState::Queued,
            DownloadState::Running => DownloadState::Running,
            DownloadState::Paused => DownloadState::Paused,
            DownloadState::Completed => DownloadState::Completed,
            DownloadState::Cancelled => DownloadState::Cancelled,
            DownloadState::Error(m) => DownloadState::Error(m.clone()),
        }
    }
}

/// A snapshot of a job.
#[derive(Debug, Clone)]
pub struct DownloadInfo {
    pub id: u128,
    pub url: String,
    pub dest: String,
    pub total_size: Option<u64>,
    pub downloaded: u64,
    pub state: DownloadState,
    /// `(unix_millis, cumulative_bytes)` samples, oldest first.
    pub history: Vec<(u128, u64)>,
}

/// A lifecycle event that a job reports when it stops for good.
#[derive(Debug, Clone)]
pub enum WorkerEvent {
    Completed(u128),
    Error(u128, String),
    Cancelled(u128),
}

/// Errors of the engine's commands.
#[derive(Debug, Clone, Copy, PartialEq, Eq, Structural)]
pub enum DWError {
    /// No job has the given id.
    NotFound,
    /// A job with the given id exists already.
    DuplicateId,
    /// The text is not a job id.
    InvalidId,
    /// The operating system's random source failed, so no id could be drawn.
    RandomUnavailable,
}

/// What an inspection of a URL reports.
#[derive(Debug, Clone)]
pub struct UrlInfo {
    pub url: String,
    pub name: String,
    pub total_size: Option<u64>,
    pub accept_ranges: bool,
    pub content_type: Option<String>,
}

} // verus!
