//! Core of a concurrent multi-source download engine: the bookkeeping and
//! decision logic of jobs, fetchers, admission and bandwidth sharing, with
//! the I/O left to the caller.

pub mod speed;
pub mod types;
pub mod worker;
pub mod fleet;
pub mod manager;
pub mod segments;
pub mod fetcher;
pub mod allocator;
pub mod signals;
pub mod logger;
pub mod settings;
pub mod monitor;
pub mod headers;
pub mod manifest;
pub mod ids;
pub mod report;
pub mod laws;
pub mod merge;
pub mod disposition;
pub mod paths;
