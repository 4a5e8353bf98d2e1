use hub::allocator::allocate_shares;
use hub::fetcher::{ChunkEvent, Fault, FetchAction, FetchError, FetchPhase, Response, SegmentFetcher};
use hub::manager::DownloadManager;
use hub::segments::{plan_segments, Segment};
use hub::settings::{default_settings, merge_settings};
use hub::signals::UpdateSettings;
use hub::speed::{calc_speed, push_sample, throttle_delay_ms};
use hub::types::{DMSettings, DWError, DownloadState, WorkerEvent};
use hub::worker::{Directive, DownloadWorker};

fn settings(concurrency: u8, speed_limit: u64) -> DMSettings {
    DMSettings {
        speed_limit,
        download_threads: 4,
        concurrency_limit: concurrency,
        download_timeout: 30,
        download_retries: 5,
    }
}

fn add(m: &mut DownloadManager, id: u128) -> Vec<Directive> {
    m.insert_job(id, format!("http://host/{}", id), format!("/tmp/file{}", id)).unwrap()
}

fn state_of(m: &DownloadManager, i: usize) -> DownloadState {
    m.workers[i].state.clone()
}

#[test]
fn speed_from_first_and_last_sample() {
    let h = vec![(1000u128, 0u64), (2000, 500), (3000, 2000)];
    assert_eq!(calc_speed(&h), 1000);
    assert_eq!(calc_speed(&vec![(1000u128, 10u64)]), 0);
    assert_eq!(calc_speed(&vec![(1000u128, 10u64), (1000, 20)]), 0);
}

#[test]
fn ring_keeps_fifteen_increasing_samples() {
    let mut h: Vec<(u128, u64)> = Vec::new();
    for t in 0..20u64 {
        push_sample(&mut h, (t as u128) * 1000, t * 10);
    }
    assert_eq!(h.len(), 15);
    assert_eq!(h[0], (5000, 50));
    assert_eq!(h[14], (19000, 190));
    push_sample(&mut h, 19000, 500);
    assert_eq!(h.len(), 15);
    push_sample(&mut h, 20000, 3);
    assert_eq!(h, vec![(20000, 3)]);
}

#[test]
fn throttle_sleeps_in_proportion_to_overshoot() {
    assert_eq!(throttle_delay_ms(2000, 1000), 1000);
    assert_eq!(throttle_delay_ms(1500, 1000), 500);
    assert_eq!(throttle_delay_ms(900, 1000), 0);
    assert_eq!(throttle_delay_ms(5000, 0), 0);
}

#[test]
fn range_parallel_plan_splits_in_four() {
    let (segs, single) = plan_segments(Some(1048576), true, 4);
    assert!(!single);
    let ranges: Vec<(u64, u64)> = segs.iter().map(|s| (s.start, s.end)).collect();
    assert_eq!(ranges, vec![(0, 262143), (262144, 524287), (524288, 786431), (786432, 1048575)]);
}

#[test]
fn last_segment_takes_the_remainder() {
    let (segs, single) = plan_segments(Some(10), true, 3);
    assert!(!single);
    let ranges: Vec<(u64, u64)> = segs.iter().map(|s| (s.start, s.end)).collect();
    assert_eq!(ranges, vec![(0, 2), (3, 5), (6, 9)]);
}

#[test]
fn no_range_server_gets_one_fetcher() {
    let (segs, single) = plan_segments(Some(500), false, 4);
    assert!(single);
    assert_eq!(segs, vec![Segment { index: 0, start: 0, end: 499 }]);
    let (segs, single) = plan_segments(None, true, 4);
    assert!(single);
    assert_eq!(segs, vec![Segment { index: 0, start: 0, end: 0 }]);
    let (_, single) = plan_segments(Some(3), true, 4);
    assert!(single);
}

fn run_chunk(f: &mut SegmentFetcher, n: u64) -> FetchAction {
    match f.on_chunk(ChunkEvent::Data(n)) {
        FetchAction::Write { take } => f.on_written(take),
        other => other,
    }
}

#[test]
fn single_fetcher_without_ranges_completes() {
    let seg = Segment { index: 0, start: 0, end: 499 };
    let mut f = SegmentFetcher::new(seg, true, true, false, 5);
    assert_eq!(f.begin(), FetchAction::Request { from: 0, to: 499, ranged: false });
    assert_eq!(f.on_response(Response::Opened), FetchAction::Read);
    assert_eq!(run_chunk(&mut f, 300), FetchAction::Read);
    assert_eq!(run_chunk(&mut f, 200), FetchAction::Done);
    assert_eq!(f.progress, 500);
    assert_eq!(f.phase, FetchPhase::Done);
}

#[test]
fn chunk_beyond_segment_is_cut() {
    let seg = Segment { index: 1, start: 100, end: 199 };
    let mut f = SegmentFetcher::new(seg, true, false, true, 5);
    f.begin();
    f.on_response(Response::Opened);
    assert_eq!(f.on_chunk(ChunkEvent::Data(150)), FetchAction::Write { take: 100 });
    assert_eq!(f.on_chunk(ChunkEvent::Data(0)), FetchAction::Read);
}

#[test]
fn transient_stream_error_resumes_where_it_stopped() {
    let seg = Segment { index: 2, start: 524288, end: 786431 };
    let mut f = SegmentFetcher::new(seg, true, false, true, 5);
    assert_eq!(f.begin(), FetchAction::Request { from: 524288, to: 786431, ranged: true });
    f.on_response(Response::Opened);
    for _ in 0..100 {
        assert_eq!(run_chunk(&mut f, 1024), FetchAction::Read);
    }
    assert_eq!(f.on_chunk(ChunkEvent::StreamError), FetchAction::Retry { reset: false });
    assert_eq!(f.begin(), FetchAction::Request { from: 524288 + 100 * 1024, to: 786431, ranged: true });
    f.on_response(Response::Opened);
    assert_eq!(run_chunk(&mut f, 786432 - 524288 - 100 * 1024), FetchAction::Done);
    assert_eq!(f.progress, 262144);
}

#[test]
fn persistent_error_exceeds_budget() {
    let seg = Segment { index: 1, start: 262144, end: 524287 };
    let mut f = SegmentFetcher::new(seg, true, false, true, 1);
    f.begin();
    f.on_response(Response::Opened);
    assert_eq!(f.on_chunk(ChunkEvent::StreamError), FetchAction::Retry { reset: false });
    f.begin();
    f.on_response(Response::Opened);
    assert_eq!(f.on_chunk(ChunkEvent::StreamError), FetchAction::Fail(FetchError::Exhausted(Fault::Stream)));
    assert_eq!(f.phase, FetchPhase::Failed);
}

#[test]
fn bad_status_is_fatal_and_network_error_retries() {
    let seg = Segment { index: 0, start: 0, end: 9 };
    let mut f = SegmentFetcher::new(seg, true, false, true, 0);
    f.begin();
    assert_eq!(f.on_response(Response::NetworkError), FetchAction::Fail(FetchError::Exhausted(Fault::Network)));
    let mut g = SegmentFetcher::new(seg, true, false, true, 3);
    g.begin();
    assert_eq!(g.on_response(Response::BadStatus), FetchAction::Fail(FetchError::BadStatus));
}

#[test]
fn non_range_retry_restarts_from_zero() {
    let seg = Segment { index: 0, start: 0, end: 999 };
    let mut f = SegmentFetcher::new(seg, true, true, false, 2);
    f.begin();
    f.on_response(Response::Opened);
    run_chunk(&mut f, 400);
    assert_eq!(f.on_chunk(ChunkEvent::Timeout), FetchAction::Retry { reset: true });
    assert_eq!(f.progress, 0);
    assert_eq!(f.begin(), FetchAction::Request { from: 0, to: 999, ranged: false });
}

#[test]
fn early_end_is_a_fault_in_multi_mode() {
    let seg = Segment { index: 3, start: 0, end: 99 };
    let mut f = SegmentFetcher::new(seg, true, false, true, 2);
    f.begin();
    f.on_response(Response::Opened);
    run_chunk(&mut f, 10);
    assert_eq!(f.on_chunk(ChunkEvent::End), FetchAction::Retry { reset: false });
    let mut g = SegmentFetcher::new(Segment { index: 0, start: 0, end: 0 }, false, true, true, 2);
    g.begin();
    g.on_response(Response::Opened);
    run_chunk(&mut g, 10);
    assert_eq!(g.on_chunk(ChunkEvent::End), FetchAction::Done);
}

#[test]
fn admission_is_fifo_and_bounded() {
    let mut m = DownloadManager::new(settings(2, 0));
    assert_eq!(add(&mut m, 1), vec![Directive::Launch(1)]);
    assert_eq!(add(&mut m, 2), vec![Directive::Launch(2)]);
    assert_eq!(add(&mut m, 3), vec![]);
    assert_eq!(m.concurrency, 2);
    assert_eq!(m.active, vec![0, 1]);
    assert!(matches!(state_of(&m, 2), DownloadState::Queued));
    assert_eq!(m.insert_job(1, String::new(), String::new()), Err(DWError::DuplicateId));
}

#[test]
fn admission_twice_is_a_no_op() {
    let mut m = DownloadManager::new(settings(2, 0));
    add(&mut m, 1);
    add(&mut m, 2);
    add(&mut m, 3);
    assert_eq!(m.process_queue(), vec![]);
    assert_eq!(m.active, vec![0, 1]);
    assert_eq!(m.concurrency, 2);
}

#[test]
fn pause_and_resume_through_the_queue() {
    let mut m = DownloadManager::new(settings(1, 0));
    add(&mut m, 10);
    add(&mut m, 11);
    let d = m.pause(10).unwrap();
    assert_eq!(d, vec![Directive::Suspend(10), Directive::Launch(11)]);
    assert!(matches!(state_of(&m, 0), DownloadState::Paused));
    assert_eq!(m.pause(10).unwrap(), vec![]);
    assert_eq!(m.resume(10).unwrap(), vec![]);
    assert!(matches!(state_of(&m, 0), DownloadState::Queued));
    assert_eq!(m.resume(10).unwrap(), vec![]);
    let d = m.handle_event(WorkerEvent::Completed(11)).unwrap();
    assert_eq!(d, vec![Directive::Wake(10)]);
    assert!(matches!(state_of(&m, 0), DownloadState::Running));
    assert!(matches!(state_of(&m, 1), DownloadState::Completed));
    assert_eq!(m.pause(99), Err(DWError::NotFound));
}

#[test]
fn concurrency_demotion_and_refill() {
    let mut m = DownloadManager::new(settings(3, 0));
    add(&mut m, 1);
    add(&mut m, 2);
    add(&mut m, 3);
    add(&mut m, 4);
    assert_eq!(m.concurrency, 3);
    let d = m.update_settings(settings(1, 0));
    assert_eq!(d, vec![Directive::Suspend(1), Directive::Suspend(2)]);
    assert_eq!(m.concurrency, 1);
    assert_eq!(m.active, vec![2]);
    assert!(matches!(state_of(&m, 0), DownloadState::Queued));
    assert!(matches!(state_of(&m, 1), DownloadState::Queued));
    assert!(matches!(state_of(&m, 2), DownloadState::Running));
    let d = m.handle_event(WorkerEvent::Completed(3)).unwrap();
    assert_eq!(d, vec![Directive::Wake(1)]);
    assert_eq!(m.active, vec![0]);
    assert_eq!(m.update_settings(settings(1, 0)), vec![]);
}

#[test]
fn cancel_is_final_and_idempotent() {
    let mut m = DownloadManager::new(settings(1, 0));
    add(&mut m, 5);
    m.pause(5).unwrap();
    assert_eq!(m.cancel(5).unwrap(), vec![Directive::Abort(5)]);
    assert!(matches!(state_of(&m, 0), DownloadState::Cancelled));
    assert_eq!(m.cancel(5).unwrap(), vec![]);
    m.handle_event(WorkerEvent::Error(5, "late".to_string())).unwrap();
    assert!(matches!(state_of(&m, 0), DownloadState::Cancelled));
    assert_eq!(m.resume(5).unwrap(), vec![]);
    assert!(matches!(state_of(&m, 0), DownloadState::Cancelled));
    assert_eq!(m.concurrency, 0);
}

#[test]
fn error_event_releases_the_slot() {
    let mut m = DownloadManager::new(settings(1, 0));
    add(&mut m, 7);
    add(&mut m, 8);
    let d = m.handle_event(WorkerEvent::Error(7, "Segment 1 stream error".to_string())).unwrap();
    assert_eq!(d, vec![Directive::Launch(8)]);
    match state_of(&m, 0) {
        DownloadState::Error(msg) => assert_eq!(msg, "Segment 1 stream error"),
        _ => panic!("expected an error state"),
    }
    assert_eq!(m.concurrency, 1);
}

#[test]
fn worker_controls_are_idempotent() {
    let mut w = DownloadWorker::new(1, "u".to_string(), "d".to_string(), 0);
    assert!(w.pause());
    assert!(!w.pause());
    assert!(w.resume());
    assert!(!w.resume());
    assert!(matches!(w.state, DownloadState::Running));
    assert!(w.cancel());
    assert!(!w.cancel());
    assert!(matches!(w.state, DownloadState::Cancelled));
}

#[test]
fn worker_start_wakes_a_paused_started_job() {
    let mut w = DownloadWorker::new(3, "u".to_string(), "d".to_string(), 0);
    assert_eq!(w.start(), Some(Directive::Launch(3)));
    assert_eq!(w.start(), None);
    w.demote();
    assert_eq!(w.start(), Some(Directive::Wake(3)));
    assert!(!w.paused);
}

#[test]
fn worker_start_leaves_a_completed_job() {
    let mut w = DownloadWorker::new(4, "u".to_string(), "d".to_string(), 0);
    w.start();
    assert!(w.finish(&WorkerEvent::Completed(4)));
    assert_eq!(w.start(), Some(Directive::Completed(4)));
    assert!(matches!(w.state, DownloadState::Completed));
}

#[test]
fn progress_beyond_total_is_refused() {
    let mut m = DownloadManager::new(settings(1, 0));
    add(&mut m, 1);
    assert_eq!(m.record_progress(1, Some(100), 50), Ok(true));
    assert_eq!(m.record_progress(1, Some(100), 150), Ok(false));
    assert_eq!(m.workers[0].downloaded, 50);
    m.sample(1, 1000).unwrap();
    m.record_progress(1, Some(100), 100).unwrap();
    m.sample(1, 2000).unwrap();
    assert_eq!(m.workers[0].history, vec![(1000, 50), (2000, 100)]);
    let info = m.info(1).unwrap();
    assert_eq!(info.downloaded, 100);
    assert_eq!(info.total_size, Some(100));
    assert_eq!(m.list_all().len(), 1);
    m.pause(1).unwrap();
    m.sample(1, 3000).unwrap();
    assert_eq!(m.workers[0].history.len(), 2);
}

#[test]
fn shares_split_evenly_without_traffic() {
    assert_eq!(allocate_shares(1000, &vec![0, 0, 0]), vec![333, 333, 333]);
}

#[test]
fn shares_follow_observed_speeds_with_a_floor() {
    assert_eq!(allocate_shares(1000, &vec![300, 100]), vec![750, 250]);
    assert_eq!(allocate_shares(1000, &vec![999, 1]), vec![999, 50]);
    assert_eq!(allocate_shares(1000, &vec![1, 2]), vec![333, 667]);
}

#[test]
fn manager_publishes_shares_to_admitted_jobs() {
    let mut m = DownloadManager::new(settings(2, 1000));
    add(&mut m, 1);
    add(&mut m, 2);
    add(&mut m, 3);
    let caps = m.recalculate_speed_limits();
    assert_eq!(caps, vec![(1, 500), (2, 500)]);
    assert_eq!(m.workers[0].speed_limit, 500);
    let mut n = DownloadManager::new(settings(2, 0));
    add(&mut n, 1);
    assert_eq!(n.recalculate_speed_limits(), vec![]);
}

#[test]
fn settings_change_keeps_absent_fields() {
    let old = default_settings();
    let u = UpdateSettings {
        server_port: Some(8080),
        speed_limit: Some(4096),
        download_threads: None,
        concurrency_limit: Some(1),
        download_timeout: None,
        download_retries: None,
    };
    let s = merge_settings(old, &u);
    assert_eq!(s.speed_limit, 4096);
    assert_eq!(s.concurrency_limit, 1);
    assert_eq!(s.download_threads, 8);
    assert_eq!(s.download_timeout, 30);
    assert_eq!(s.download_retries, 5);
}
