//! The messages exchanged with the user interface.

use vstd::prelude::*;

verus! {

/// A settings change; absent fields keep their values.
#[derive(Debug, Clone, Copy)]
pub struct UpdateSettings {
    pub server_port: Option<u16>,
    pub speed_limit: Option<u64>,
    pub download_threads: Option<u8>,
    pub concurrency_limit: Option<u8>,
    pub download_timeout: Option<u64>,
    pub download_retries: Option<u8>,
}

/// A request to inspect a URL.
#[derive(Debug, Clone)]
pub struct QueryUrl {
    pub url: String,
}

/// A request to inspect a media page through the external extractor.
#[derive(Debug, Clone)]
pub struct QueryYtdl {
    pub url: String,
}

/// What an inspection of a URL found.
#[derive(Debug, Clone)]
pub struct UrlQueryOutput {
    pub url: String,
    pub name: String,
    pub total_size: Option<u64>,
    pub accept_ranges: bool,
    pub content_type: Option<String>,
    pub is_webpage: bool,
    pub error: bool,
}

/// What the external extractor found on a media page.
#[derive(Debug, Clone)]
pub struct YtdlQueryOutput {
    pub name: String,
    pub thumbnail: Option<String>,
    pub videos: Vec<YtdlFormat>,
    pub audios: Vec<YtdlFormat>,
    pub error: Option<String>,
}

/// One stream format offered by a media page.
#[derive(Debug, Clone)]
pub struct YtdlFormat {
    pub format_id: String,
    pub ext: String,
    pub filesize: Option<u64>,
    pub url: String,
    pub vcodec: Option<String>,
    pub acodec: Option<String>,
    pub note: String,
}

/// A request to download `url` (or a video and an audio stream) into `dest`.
#[derive(Debug, Clone)]
pub struct DoDownload {
    pub url: Option<String>,
    pub dest: String,
    pub video_format: Option<YtdlFormat>,
    pub audio_format: Option<YtdlFormat>,
    pub is_ytdl: bool,
}

/// A request for the list of jobs.
#[derive(Debug, Clone, Copy)]
pub struct GetDownloadList {}

/// The list of jobs, sent every second.
#[derive(Debug, Clone)]
pub struct DownloadList {
    pub list: Vec<DownloadGlance>,
}

/// One line of the job list. `speed` is in bytes per second.
#[derive(Debug, Clone)]
pub struct DownloadGlance {
    pub id: String,
    pub name: String,
    pub total_size: Option<u64>,
    pub downloaded: u64,
    pub speed: u64,
    pub state: String,
}

/// A request for the details of one job.
#[derive(Debug, Clone)]
pub struct GetDownloadDetails {
    pub id: String,
}

/// The details of one job. `speed` is in bytes per second.
#[derive(Debug, Clone)]
pub struct DownloadDetails {
    pub id: String,
    pub name: String,
    pub url: String,
    pub dest: String,
    pub total_size: Option<u64>,
    pub downloaded: u64,
    pub speed: u64,
    pub state: String,
}

/// A request to pause a job.
#[derive(Debug, Clone)]
pub struct PauseDownload {
    pub id: String,
}

/// A request to resume a job.
#[derive(Debug, Clone)]
pub struct ResumeDownload {
    pub id: String,
}

/// A request to cancel a job.
#[derive(Debug, Clone)]
pub struct CancelDownload {
    pub id: String,
}

/// A diagnostic line.
#[derive(Debug, Clone)]
pub struct LogSignal {
    pub level: String,
    pub message: String,
}

} // verus!
