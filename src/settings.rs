//! Applying a partial settings change.

use vstd::prelude::*;
use crate::types::DMSettings;
use crate::signals::UpdateSettings;
use crate::manager::DownloadManager;

verus! {

/// `v` if given, else `d`.
pub open spec fn or_keep<T>(v: Option<T>, d: T) -> T {
    match v {
        Some(x) => x,
        None => d,
    }
}

/// The settings after the change `u`: each given field replaces the old value.
pub fn merge_settings(old: DMSettings, u: &UpdateSettings) -> (r: DMSettings)
    ensures
        r.speed_limit == or_keep(u.speed_limit, old.speed_limit),
        r.download_threads == or_keep(u.download_threads, old.download_threads),
        r.concurrency_limit == or_keep(u.concurrency_limit, old.concurrency_limit),
        r.download_timeout == or_keep(u.download_timeout, old.download_timeout),
        r.download_retries == or_keep(u.download_retries, old.download_retries),
{
    DMSettings {
        speed_limit: match u.speed_limit { Some(x) => x, None => old.speed_limit },
        download_threads: match u.download_threads { Some(x) => x, None => old.download_threads },
        concurrency_limit: match u.concurrency_limit { Some(x) => x, None => old.concurrency_limit },
        download_timeout: match u.download_timeout { Some(x) => x, None => old.download_timeout },
        download_retries: match u.download_retries { Some(x) => x, None => old.download_retries },
    }
}

/// The settings the engine starts with: no cap, three jobs at once, eight
/// fetchers per job, a 30 s read timeout and five retries.
pub fn default_settings() -> (r: DMSettings)
    ensures
        r.speed_limit == 0,
        r.concurrency_limit == 3,
        r.download_threads == 8,
        r.download_timeout == 30,
        r.download_retries == 5,
{
    DMSettings { speed_limit: 0, concurrency_limit: 3, download_threads: 8, download_timeout: 30, download_retries: 5 }
}

/// The engine's manager with its starting settings and no jobs.
pub fn start_download_manager() -> (r: DownloadManager)
    ensures
        r.wf(),
        r.settings == (DMSettings { speed_limit: 0, concurrency_limit: 3, download_threads: 8, download_timeout: 30, download_retries: 5 }),
        r.workers@.len() == 0,
{
    DownloadManager::new(default_settings())
}

} // verus!
