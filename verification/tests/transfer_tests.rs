use modpack_downloader::manifest::{download_url_list, FileJson, ManifestJson};
use modpack_downloader::status::{FileMsg, FileStatus};
use modpack_downloader::text::{decimal_text, human_bytes, starts_with_text};
use modpack_downloader::transfer::{
    cancellation, is_refused, FileStep, Part, PartFailure, PartOutcome, ResponseDecision, Transfer,
};

/// A transfer of `url` that has learned `full` (when given) and written `written` bytes.
fn transfer_at(url: &str, full: Option<u64>, written: u64) -> Transfer {
    let mut t = Transfer::new(url);
    let mut part = match t.on_response(200, full) {
        ResponseDecision::Accepted { part, .. } => part,
        _ => panic!("expected acceptance"),
    };
    if written > 0 {
        t.on_chunk(&mut part, written);
    }
    t
}

fn msg(text: &str, error: bool) -> Option<FileMsg> {
    Some(FileMsg { msg: text.to_string(), error })
}

#[test]
fn decimal_text_matches_display() {
    for n in [0u64, 7, 10, 99, 100, 12345, u64::MAX] {
        assert_eq!(decimal_text(n), n.to_string());
    }
}

#[test]
fn human_bytes_texts() {
    assert_eq!(human_bytes(15), "15 B");
    assert_eq!(human_bytes(1023), "1023 B");
    assert_eq!(human_bytes(1_500), "1.46 KiB");
    assert_eq!(human_bytes(1_500_000), "1.43 MiB");
}

#[test]
fn starts_with_text_cases() {
    assert!(starts_with_text("abc", ""));
    assert!(starts_with_text("abc", "ab"));
    assert!(!starts_with_text("ab", "abc"));
    assert!(!starts_with_text("abc", "b"));
}

#[test]
fn refusal_codes() {
    assert!(!is_refused(200));
    assert!(!is_refused(206));
    assert!(!is_refused(404));
    assert!(is_refused(403));
    assert!(is_refused(416));
    assert!(is_refused(500));
    assert!(is_refused(503));
    assert!(!is_refused(302));
    assert!(!is_refused(600));
}

#[test]
fn fresh_transfer_has_no_range() {
    let t = Transfer::new("u");
    assert_eq!((t.offset(), t.full_length(), t.total()), (0, None, 0));
    assert_eq!(t.url(), "u");
    assert_eq!(t.range_header(), None);
    assert_eq!(t.connecting_status(), FileStatus::from_str("u", "Connecting...", false, 0, 0, false));
}

#[test]
fn range_header_resumes_from_offset() {
    let t = transfer_at("u", None, 1234);
    assert_eq!(t.range_header(), Some("bytes=1234-".to_string()));
}

#[test]
fn refused_response_stops_the_file() {
    let mut t = Transfer::new("u");
    match t.on_response(503, Some(10)) {
        ResponseDecision::Rejected { message } => {
            assert_eq!(message, "Server gave bad response code: 503 Service Unavailable")
        }
        _ => panic!("expected a refusal"),
    }
    assert_eq!(t.full_length(), None);
}

#[test]
fn accepted_response_learns_length_once() {
    let mut t = Transfer::new("u");
    let mut part = match t.on_response(200, Some(1500)) {
        ResponseDecision::Accepted { status, part } => {
            assert_eq!(status.msg, msg("Connected. Downloading: 1.46 KiB", false));
            assert_eq!((status.cur_bytes, status.total_bytes), (0, 1500));
            assert_eq!(part, Part { length: Some(1500), downloaded: 0 });
            part
        }
        _ => panic!("expected acceptance"),
    };
    assert_eq!(t.full_length(), Some(1500));
    t.on_chunk(&mut part, 500);
    match t.on_response(206, Some(1000)) {
        ResponseDecision::Accepted { status, .. } => {
            assert_eq!((status.cur_bytes, status.total_bytes), (500, 1500));
        }
        _ => panic!("expected acceptance"),
    }
    assert_eq!(t.full_length(), Some(1500));
}

#[test]
fn length_is_counted_from_offset_when_first_learned() {
    let mut t = transfer_at("u", None, 100);
    match t.on_response(404, None) {
        ResponseDecision::Accepted { status, part } => {
            assert_eq!(status.msg, msg("Connected.", false));
            assert_eq!(status.cur_bytes, 100);
            assert_eq!(part.length, None);
        }
        _ => panic!("a 404 is not refused"),
    }
    assert_eq!(t.full_length(), None);
    t.on_response(206, Some(50));
    assert_eq!(t.full_length(), Some(150));
    assert_eq!(t.offset(), 100);
}

#[test]
fn chunks_advance_offset_and_part() {
    let mut t = Transfer::new("u");
    let mut part = match t.on_response(200, Some(10)) {
        ResponseDecision::Accepted { part, .. } => part,
        _ => panic!("expected acceptance"),
    };
    let s1 = t.on_chunk(&mut part, 4);
    assert_eq!(s1, FileStatus::from_empty("u", 4, 10, false));
    let s2 = t.on_chunk(&mut part, 6);
    assert_eq!(s2, FileStatus::from_empty("u", 10, 10, false));
    assert_eq!(part.downloaded, 10);
    assert!(matches!(part.finish(), PartOutcome::Finished));
}

#[test]
fn short_body_is_incomplete() {
    let part = Part { length: Some(10), downloaded: 9 };
    assert!(matches!(part.finish(), PartOutcome::Failed(PartFailure::Incomplete)));
    let unknown = Part { length: None, downloaded: 0 };
    assert!(matches!(unknown.finish(), PartOutcome::Finished));
}

#[test]
fn failure_messages() {
    assert_eq!(PartFailure::ConnectionTimeout.message(), "Connection timeout");
    assert_eq!(PartFailure::ConnectionFailed.message(), "Error connecting to server");
    assert_eq!(PartFailure::ChunkTimeout.message(), "Chunk download timeout");
    assert_eq!(PartFailure::ChunkFailed.message(), "Error downloading byte chunk");
    assert_eq!(PartFailure::WriteFailed.message(), "Error writing to file");
    assert_eq!(PartFailure::Incomplete.message(), "Incomplete download");
}

#[test]
fn after_part_steps() {
    let t = transfer_at("u", Some(9), 3);
    match t.after_part(PartOutcome::Failed(PartFailure::ChunkTimeout)) {
        FileStep::Retry(s) => assert_eq!(s, FileStatus::from_str("u", "Chunk download timeout", true, 3, 9, false)),
        _ => panic!("expected a retry"),
    }
    match t.after_part(PartOutcome::Finished) {
        FileStep::Complete(s) => assert_eq!(s, FileStatus::from_str("u", "Complete.", false, 3, 9, true)),
        _ => panic!("expected completion"),
    }
    match t.after_part(PartOutcome::cancelled()) {
        FileStep::Abort(m) => assert_eq!(m, "Cancelled."),
        _ => panic!("expected an abort"),
    }
}

#[test]
fn offset_counts_bytes_across_attempts() {
    let mut t = Transfer::new("u");
    let mut first = match t.on_response(200, Some(10)) {
        ResponseDecision::Accepted { part, .. } => part,
        _ => panic!("expected acceptance"),
    };
    t.on_chunk(&mut first, 3);
    t.on_chunk(&mut first, 4);
    assert!(matches!(t.after_part(PartOutcome::Failed(PartFailure::ChunkTimeout)), FileStep::Retry(_)));
    assert_eq!(t.range_header(), Some("bytes=7-".to_string()));
    let mut second = match t.on_response(206, Some(3)) {
        ResponseDecision::Accepted { part, .. } => part,
        _ => panic!("expected acceptance"),
    };
    t.on_chunk(&mut second, 3);
    assert_eq!((t.offset(), t.total()), (10, 10));
    assert!(matches!(second.finish(), PartOutcome::Finished));
}

#[test]
fn cancellation_stops_only_when_flagged() {
    assert!(cancellation(false).is_none());
    match cancellation(true) {
        Some(PartOutcome::Stopped(m)) => assert_eq!(m, "Cancelled."),
        _ => panic!("expected a stop"),
    }
}

fn file(url: &str) -> FileJson {
    FileJson { project_id: 1, file_id: 2, download_url: url.to_string(), required: true }
}

#[test]
fn url_list_parses_every_file() {
    let mut m = ManifestJson::default();
    m.files = vec![file("https://a.example/x.jar"), file("HTTPS://B.example/y.jar")];
    assert_eq!(
        download_url_list(&m),
        Ok(vec!["https://a.example/x.jar".to_string(), "https://b.example/y.jar".to_string()])
    );
}

#[test]
fn url_list_reports_first_bad_url() {
    let mut m = ManifestJson::default();
    m.files = vec![file("https://a.example/x.jar"), file("no url"), file("also bad")];
    assert_eq!(download_url_list(&m), Err(1));
    assert_eq!(download_url_list(&ManifestJson::default()), Ok(vec![]));
}
