use hub::manifest::concat_list;
use hub::segments::uses_ranges;
use hub::paths::pair_paths;
use hub::disposition::disposition_filename;
use hub::headers::{accepts_byte_ranges, head_data, is_manifest, is_webpage, parse_content_length};
use hub::ids::command_id;
use hub::logger::{debug, error};
use hub::manager::DownloadManager;
use hub::manifest::parse_manifest;
use hub::merge::{classify_format, merge_step, FormatKind, MergeStep};
use hub::monitor::monitor_outcome;
use hub::report::{detail_label, state_label};
use hub::settings::default_settings;
use hub::types::{DWError, DownloadState, WorkerEvent};

#[test]
fn content_length_reads_like_u64_parse() {
    assert_eq!(parse_content_length(b"1048576"), Some(1048576));
    assert_eq!(parse_content_length(b"+12"), Some(12));
    assert_eq!(parse_content_length(b""), None);
    assert_eq!(parse_content_length(b"+"), None);
    assert_eq!(parse_content_length(b"12a"), None);
    assert_eq!(parse_content_length(b"18446744073709551615"), Some(u64::MAX));
    assert_eq!(parse_content_length(b"18446744073709551616"), None);
}

#[test]
fn accept_ranges_detection() {
    assert!(accepts_byte_ranges(Some(b"bytes")));
    assert!(accepts_byte_ranges(Some(b"Bytes")));
    assert!(!accepts_byte_ranges(Some(b"none")));
    assert!(!accepts_byte_ranges(None));
}

#[test]
fn head_data_from_headers() {
    let h = head_data(Some(b"500"), None, Some("text/plain".to_string()));
    assert_eq!(h.total_size, Some(500));
    assert!(!h.accept_ranges);
    assert_eq!(h.content_type.as_deref(), Some("text/plain"));
}

#[test]
fn webpage_detection() {
    assert!(is_webpage(Some(b"text/html; charset=utf-8")));
    assert!(is_webpage(Some(b"Application/XHTML+XML")));
    assert!(!is_webpage(Some(b"application/octet-stream")));
    assert!(!is_webpage(None));
}

#[test]
fn manifest_detection() {
    assert!(is_manifest(b"http://h/live/index.m3u8?token=1", None));
    assert!(is_manifest(b"http://h/live/INDEX.M3U8", None));
    assert!(!is_manifest(b"http://h/file.bin?x=.m3u8", None));
    assert!(is_manifest(b"http://h/x", Some(b"application/vnd.apple.mpegurl")));
    assert!(is_manifest(b"http://h/x", Some(b"application/x-mpegURL")));
    assert!(!is_manifest(b"http://h/x", Some(b"video/mp2t")));
}

#[test]
fn manifest_entries_resolve_against_directory() {
    let body = b"#EXTM3U\n#EXTINF:4,\nseg0.ts\r\n\nhttp://cdn/seg1.ts\nseg2.ts";
    let r = parse_manifest(body, b"http://h/p/list.m3u8");
    let r: Vec<String> = r.into_iter().map(|v| String::from_utf8(v).unwrap()).collect();
    assert_eq!(r, vec!["http://h/p/seg0.ts", "http://cdn/seg1.ts", "http://h/p/seg2.ts"]);
    assert!(parse_manifest(b"#EXTM3U\n", b"http://h/a.m3u8").is_empty());
    let r = parse_manifest(b"a.ts\n", b"noslash");
    assert_eq!(r, vec![b"/a.ts".to_vec()]);
}

#[test]
fn command_ids_parse() {
    assert_eq!(
        command_id("a1a2a3a4-b1b2-c1c2-d1d2-d3d4d5d6d7d8"),
        Ok(0xa1a2a3a4b1b2c1c2d1d2d3d4d5d6d7d8)
    );
    assert_eq!(command_id("not-an-id"), Err(DWError::InvalidId));
}

#[test]
fn glances_show_id_name_and_state() {
    let mut m = DownloadManager::new(default_settings());
    m.insert_job(0xa1a2a3a4b1b2c1c2d1d2d3d4d5d6d7d8, "http://h/f.bin".to_string(), "/tmp/dir/f.bin".to_string()).unwrap();
    let g = m.glances();
    assert_eq!(g.len(), 1);
    assert_eq!(g[0].id, "a1a2a3a4-b1b2-c1c2-d1d2-d3d4d5d6d7d8");
    assert_eq!(g[0].name, "f.bin");
    assert_eq!(g[0].state, "Running");
    assert_eq!(g[0].speed, 0);
    let d = m.details(0xa1a2a3a4b1b2c1c2d1d2d3d4d5d6d7d8).unwrap();
    assert_eq!(d.url, "http://h/f.bin");
    assert_eq!(d.dest, "/tmp/dir/f.bin");
    assert!(m.details(1).is_err());
}

#[test]
fn fresh_ids_are_distinct() {
    let mut m = DownloadManager::new(default_settings());
    let (a, _) = m.add_download("u1".to_string(), "d1".to_string()).unwrap();
    let (b, _) = m.add_download("u2".to_string(), "d2".to_string()).unwrap();
    assert_ne!(a, b);
    assert_eq!(m.workers.len(), 2);
}

#[test]
fn state_labels() {
    assert_eq!(state_label(&DownloadState::Queued), "Queued");
    assert_eq!(state_label(&DownloadState::Error("x".to_string())), "Error");
    assert_eq!(detail_label(&DownloadState::Error("boom".to_string())), "Error: boom");
    assert_eq!(detail_label(&DownloadState::Paused), "Paused");
}

#[test]
fn monitor_reports_first_failure() {
    let res = vec![None, Some("Segment 1 failed".to_string()), Some("Segment 2 failed".to_string())];
    match monitor_outcome(9, &res, false) {
        Some(WorkerEvent::Error(9, m)) => assert_eq!(m, "Segment 1 failed"),
        _ => panic!("expected an error event"),
    }
    assert!(matches!(monitor_outcome(9, &vec![None, None], false), Some(WorkerEvent::Completed(9))));
    assert!(monitor_outcome(9, &vec![None, None], true).is_none());
}

#[test]
fn merge_waits_for_both_parts() {
    let done = DownloadState::Completed;
    let run = DownloadState::Running;
    let err = DownloadState::Error("e".to_string());
    assert_eq!(merge_step(Some(&done), Some(&done)), MergeStep::Merge);
    assert_eq!(merge_step(Some(&done), Some(&run)), MergeStep::Wait);
    assert_eq!(merge_step(Some(&err), Some(&run)), MergeStep::Abandon);
    assert_eq!(merge_step(Some(&done), None), MergeStep::Wait);
}

#[test]
fn formats_sort_by_codec() {
    let none = Some("none".to_string());
    let avc = Some("avc1".to_string());
    assert_eq!(classify_format(&avc, &none), FormatKind::Video);
    assert_eq!(classify_format(&none, &Some("mp4a".to_string())), FormatKind::Audio);
    assert_eq!(classify_format(&none, &none), FormatKind::Other);
    assert_eq!(classify_format(&None, &none), FormatKind::Video);
}

#[test]
fn log_records() {
    let d = debug("hello");
    assert_eq!(d.level, "DEBUG");
    assert_eq!(d.message, "hello");
    assert_eq!(error("bad").level, "ERROR");
}

#[test]
fn disposition_names_the_file() {
    assert_eq!(disposition_filename(b"attachment; filename=\"report.pdf\""), Some(b"report.pdf".to_vec()));
    assert_eq!(disposition_filename(b"  filename=a.bin  ;x=1"), Some(b"a.bin".to_vec()));
    assert_eq!(disposition_filename(b"inline; name=x"), None);
    assert_eq!(disposition_filename(b""), None);
    assert_eq!(disposition_filename(b"attachment;filename=filename=\"\"q.txt\""), Some(b"q.txt".to_vec()));
}

#[test]
fn concat_list_has_one_line_per_segment() {
    let paths = vec!["/t/segment_0.ts".to_string(), "/t/segment_1.ts".to_string()];
    assert_eq!(concat_list(&paths), "file '/t/segment_0.ts'\nfile '/t/segment_1.ts'\n");
    assert_eq!(concat_list(&vec![]), "");
}

#[test]
fn ranges_only_with_a_known_size() {
    assert!(uses_ranges(Some(10), true));
    assert!(!uses_ranges(None, true));
    assert!(!uses_ranges(Some(10), false));
}

#[test]
fn pair_paths_name_the_parts() {
    let p = pair_paths(&"/d/movie.mkv".to_string(), Some("mp4"), Some("m4a")).unwrap();
    assert_eq!(p.output, "/d/movie.mkv");
    assert_eq!(p.video.as_deref(), Some("/d/movie.mkv_part.mp4"));
    assert_eq!(p.audio.as_deref(), Some("/d/movie.mkv_part.m4a"));
    let q = pair_paths(&"/d/movie".to_string(), Some("webm"), None).unwrap();
    assert_eq!(q.output, "/d/movie");
    assert!(pair_paths(&"/d/movie".to_string(), None, None).unwrap().video.is_none());
    assert_eq!(q.video.as_deref(), Some("/d/movie.webm"));
    assert!(q.audio.is_none());
    assert!(pair_paths(&"/d/movie".to_string(), Some("a/b"), None).is_none());
}
