use modpack_downloader::downloader::{get_status, DownloadEvent, DownloaderState};
use modpack_downloader::status::{FileMsg, FileStatus};
use modpack_downloader::status_manager::FileStatusManager;

fn msg(text: &str, error: bool) -> Option<FileMsg> {
    Some(FileMsg { msg: text.to_string(), error })
}

#[test]
fn initial_status_is_not_started() {
    let s = FileStatus::initial("https://example.com/a.jar");
    assert_eq!(s.url, "https://example.com/a.jar");
    assert_eq!(s.msg, msg("Not started.", false));
    assert_eq!(s.cur_bytes, 0);
    assert_eq!(s.total_bytes, 0);
    assert!(!s.complete);
}

#[test]
fn from_str_and_from_string_carry_message() {
    let a = FileStatus::from_str("u", "Connecting...", false, 3, 9, false);
    let b = FileStatus::from_string("u", "Connecting...".to_string(), false, 3, 9, false);
    assert_eq!(a, b);
    assert_eq!(a.msg, msg("Connecting...", false));
    assert_eq!((a.cur_bytes, a.total_bytes, a.complete), (3, 9, false));
    let e = FileStatus::from_string("u", "boom".to_string(), true, 1, 2, true);
    assert_eq!(e.msg, msg("boom", true));
    assert!(e.complete);
}

#[test]
fn from_empty_has_no_message() {
    let s = FileStatus::from_empty("u", 7, 8, true);
    assert_eq!(s.msg, None);
    assert_eq!((s.cur_bytes, s.total_bytes, s.complete), (7, 8, true));
}

#[test]
fn copy_keeps_every_field() {
    let s = FileStatus::from_str("u", "m", true, 1, 2, false);
    assert_eq!(s.copy(), s);
}

fn urls(list: &[&str]) -> Vec<String> {
    list.iter().map(|s| s.to_string()).collect()
}

#[test]
fn new_manager_tracks_nothing() {
    let m = FileStatusManager::new();
    assert_eq!(m.get("u"), None);
}

#[test]
fn setup_tracks_exactly_the_listed_urls() {
    let mut m = FileStatusManager::new();
    m.setup(&urls(&["a", "b", "a"]));
    assert_eq!(m.get("a"), Some(FileStatus::initial("a")));
    assert_eq!(m.get("b"), Some(FileStatus::initial("b")));
    assert_eq!(m.get("c"), None);
}

#[test]
fn setup_forgets_earlier_files() {
    let mut m = FileStatusManager::new();
    m.setup(&urls(&["a"]));
    m.put(&FileStatus::from_str("a", "Complete.", false, 4, 4, true));
    m.setup(&urls(&["b"]));
    assert_eq!(m.get("a"), None);
    assert_eq!(m.get("b"), Some(FileStatus::initial("b")));
    m.setup(&urls(&["a"]));
    assert_eq!(m.get("a"), Some(FileStatus::initial("a")));
}

#[test]
fn put_then_get_reads_back_the_status() {
    let mut m = FileStatusManager::new();
    m.setup(&urls(&["a", "b"]));
    let s = FileStatus::from_str("a", "Connected.", false, 0, 100, false);
    m.put(&s);
    assert_eq!(m.get("a"), Some(s));
    assert_eq!(m.get("b"), Some(FileStatus::initial("b")));
}

#[test]
fn put_without_message_keeps_the_stored_message() {
    let mut m = FileStatusManager::new();
    m.setup(&urls(&["a"]));
    m.put(&FileStatus::from_str("a", "Connected.", false, 0, 100, false));
    m.put(&FileStatus::from_empty("a", 40, 100, false));
    let got = m.get("a").unwrap();
    assert_eq!(got.msg, msg("Connected.", false));
    assert_eq!((got.cur_bytes, got.total_bytes, got.complete), (40, 100, false));
}

#[test]
fn put_for_untracked_url_is_ignored() {
    let mut m = FileStatusManager::new();
    m.setup(&urls(&["a"]));
    m.put(&FileStatus::from_str("z", "Complete.", false, 1, 1, true));
    assert_eq!(m.get("z"), None);
    assert_eq!(m.get("a"), Some(FileStatus::initial("a")));
}

#[test]
fn put_twice_is_put_once() {
    let mut once = FileStatusManager::new();
    let mut twice = FileStatusManager::new();
    once.setup(&urls(&["a"]));
    twice.setup(&urls(&["a"]));
    let s = FileStatus::from_empty("a", 3, 5, false);
    once.put(&s);
    twice.put(&s);
    twice.put(&s);
    assert_eq!(once.get("a"), twice.get("a"));
}

#[test]
fn puts_for_different_urls_commute() {
    let mut x = FileStatusManager::new();
    let mut y = FileStatusManager::new();
    x.setup(&urls(&["a", "b"]));
    y.setup(&urls(&["a", "b"]));
    let a = FileStatus::from_str("a", "Complete.", false, 2, 2, true);
    let b = FileStatus::from_empty("b", 1, 9, false);
    x.put(&a);
    x.put(&b);
    y.put(&b);
    y.put(&a);
    assert_eq!(x.get("a"), y.get("a"));
    assert_eq!(x.get("b"), y.get("b"));
}

#[test]
fn get_status_reports_missing_url() {
    let d = DownloaderState::new();
    assert_eq!(get_status(&d, "https://x/y"), Err("No state for https://x/y".to_string()));
}

#[test]
fn get_status_reads_the_manager() {
    let mut d = DownloaderState::new();
    d.status_manager.setup(&urls(&["u"]));
    assert_eq!(get_status(&d, "u"), Ok(FileStatus::initial("u")));
}

#[test]
fn only_one_download_runs_at_a_time() {
    let mut d = DownloaderState::new();
    assert!(!d.downloading);
    assert!(d.start_download());
    assert!(!d.start_download());
    assert!(matches!(d.finish_download(Ok(())), DownloadEvent::Complete));
    assert!(!d.downloading);
    assert!(d.start_download());
}

#[test]
fn a_failed_download_blocks_later_ones() {
    let mut d = DownloaderState::new();
    assert!(d.start_download());
    match d.finish_download(Err("Error downloading mods".to_string())) {
        DownloadEvent::Error(m) => assert_eq!(m, "Error downloading mods"),
        DownloadEvent::Complete => panic!("expected an error"),
    }
    assert!(d.downloading);
    assert!(!d.start_download());
}
