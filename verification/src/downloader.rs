use vstd::prelude::*;
use vstd::string::*;
use crate::status::{FileStatus, FileStatusView};
use crate::status_manager::FileStatusManager;

verus! {

/// What the end of a modpack download reports.
pub enum DownloadEvent {
    /// The download finished.
    Complete,
    /// The download failed with this message.
    Error(String),
}

/// Whether a modpack download is running, and the status of its files.
pub struct DownloaderState {
    pub downloading: bool,
    pub status_manager: FileStatusManager,
}

impl DownloaderState {
    /// A downloader that runs nothing and tracks no file.
    pub fn new() -> (d: DownloaderState)
        ensures
            !d.downloading,
            d.status_manager.wf(),
            d.status_manager@ == Map::<Seq<char>, FileStatusView>::empty(),
    {
        DownloaderState { downloading: false, status_manager: FileStatusManager::new() }
    }

    /// Asks to start a download. It starts, and the downloader is marked
    /// busy, only when no download runs; while one runs every request is
    /// refused.
    pub fn start_download(&mut self) -> (started: bool)
        ensures
            started == !old(self).downloading,
            final(self).downloading,
            final(self).status_manager == old(self).status_manager,
    {
        let started = !self.downloading;
        self.downloading = true;
        started
    }

    /// Ends a download with its result. Success frees the downloader; a
    /// failure is reported and leaves it marked busy, so that no later
    /// download starts.
    pub fn finish_download(&mut self, result: Result<(), String>) -> (event: DownloadEvent)
        ensures
            final(self).status_manager == old(self).status_manager,
            result is Ok ==> !final(self).downloading && event is Complete,
            result matches Err(e) ==> final(self).downloading == old(self).downloading && (
            event matches DownloadEvent::Error(m) && m@ == e@),
    {
        match result {
            Ok(()) => {
                self.downloading = false;
                DownloadEvent::Complete
            },
            Err(e) => DownloadEvent::Error(e),
        }
    }
}

/// The status of the file with the given URL, or the message that none is
/// tracked.
pub fn get_status(downloader: &DownloaderState, url: &str) -> (r: Result<FileStatus, String>)
    requires
        downloader.status_manager.wf(),
    ensures
        r is Ok <==> downloader.status_manager@.contains_key(url@),
        r matches Ok(s) ==> s@ == downloader.status_manager@[url@],
        r matches Err(e) ==> e@ == "No state for "@ + url@,
{
    match downloader.status_manager.get(url) {
        Some(s) => Ok(s),
        None => {
            let mut e = "No state for ".to_string();
            e.append(url);
            Err(e)
        },
    }
}

} // verus!
