use vstd::prelude::*;

verus! {

/// A message attached to the status of one file, and whether it reports an error.
#[derive(Clone, Debug, PartialEq)]
pub struct FileMsg {
    pub msg: String,
    pub error: bool,
}

/// The mathematical value of a [`FileMsg`].
pub struct FileMsgView {
    pub msg: Seq<char>,
    pub error: bool,
}

impl View for FileMsg {
    type V = FileMsgView;

    open spec fn view(&self) -> FileMsgView {
        FileMsgView { msg: self.msg@, error: self.error }
    }
}

/// Progress of the download of one file, keyed by its URL.
#[derive(Clone, Debug, PartialEq)]
pub struct FileStatus {
    pub url: String,
    pub msg: Option<FileMsg>,
    pub cur_bytes: u64,
    pub total_bytes: u64,
    pub complete: bool,
}

/// The mathematical value of a [`FileStatus`].
pub struct FileStatusView {
    pub url: Seq<char>,
    pub msg: Option<FileMsgView>,
    pub cur_bytes: u64,
    pub total_bytes: u64,
    pub complete: bool,
}

pub open spec fn msg_view(m: Option<FileMsg>) -> Option<FileMsgView> {
    match m {
        Some(m) => Some(m@),
        None => None,
    }
}

impl View for FileStatus {
    type V = FileStatusView;

    open spec fn view(&self) -> FileStatusView {
        FileStatusView {
            url: self.url@,
            msg: msg_view(self.msg),
            cur_bytes: self.cur_bytes,
            total_bytes: self.total_bytes,
            complete: self.complete,
        }
    }
}

/// The status with which every file starts: "Not started.", nothing transferred.
pub open spec fn initial_status(url: Seq<char>) -> FileStatusView {
    FileStatusView {
        url,
        msg: Some(FileMsgView { msg: "Not started."@, error: false }),
        cur_bytes: 0,
        total_bytes: 0,
        complete: false,
    }
}

/// A status that carries a message.
pub open spec fn message_status(
    url: Seq<char>,
    msg: Seq<char>,
    error: bool,
    cur_bytes: u64,
    total_bytes: u64,
    complete: bool,
) -> FileStatusView {
    FileStatusView {
        url,
        msg: Some(FileMsgView { msg, error }),
        cur_bytes,
        total_bytes,
        complete,
    }
}

/// A status that carries no message: only progress.
pub open spec fn progress_status(
    url: Seq<char>,
    cur_bytes: u64,
    total_bytes: u64,
    complete: bool,
) -> FileStatusView {
    FileStatusView { url, msg: None, cur_bytes, total_bytes, complete }
}

/// A status with a message carries exactly the given URL, message, error
/// flag, byte counts and completion; one without a message carries no
/// message and the rest as given.
pub proof fn lemma_status_fields(
    url: Seq<char>,
    msg: Seq<char>,
    error: bool,
    cur_bytes: u64,
    total_bytes: u64,
    complete: bool,
)
    ensures
        message_status(url, msg, error, cur_bytes, total_bytes, complete).url == url,
        message_status(url, msg, error, cur_bytes, total_bytes, complete).msg == Some(
            FileMsgView { msg, error },
        ),
        message_status(url, msg, error, cur_bytes, total_bytes, complete).cur_bytes == cur_bytes,
        message_status(url, msg, error, cur_bytes, total_bytes, complete).total_bytes == total_bytes,
        message_status(url, msg, error, cur_bytes, total_bytes, complete).complete == complete,
        progress_status(url, cur_bytes, total_bytes, complete).url == url,
        progress_status(url, cur_bytes, total_bytes, complete).msg is None,
        progress_status(url, cur_bytes, total_bytes, complete).cur_bytes == cur_bytes,
        progress_status(url, cur_bytes, total_bytes, complete).total_bytes == total_bytes,
        progress_status(url, cur_bytes, total_bytes, complete).complete == complete,
{
}

/// The value of a status is its fields as they are: its URL and message as
/// text, its counts and its completion.
pub proof fn lemma_status_view(s: FileStatus)
    ensures
        s@.url == s.url@,
        s@.cur_bytes == s.cur_bytes,
        s@.total_bytes == s.total_bytes,
        s@.complete == s.complete,
        s.msg is None ==> s@.msg is None,
        s.msg matches Some(m) ==> s@.msg == Some(FileMsgView { msg: m.msg@, error: m.error }),
{
}

impl FileMsg {
    /// A copy with the same value.
    pub fn copy(&self) -> (r: FileMsg)
        ensures
            r@ == self@,
    {
        FileMsg { msg: self.msg.clone(), error: self.error }
    }
}

impl FileStatus {
    /// The status of a file whose download has not started.
    pub fn initial(url: &str) -> (s: FileStatus)
        ensures
            s@ == initial_status(url@),
            s.url@ == url@,
            s.msg matches Some(m) && m.msg@ == "Not started."@ && !m.error,
            s.cur_bytes == 0,
            s.total_bytes == 0,
            !s.complete,
    {
        FileStatus {
            url: url.to_string(),
            msg: Some(FileMsg { msg: "Not started.".to_string(), error: false }),
            cur_bytes: 0,
            total_bytes: 0,
            complete: false,
        }
    }

    /// A status with a message given as a string slice.
    pub fn from_str(
        url: &str,
        msg: &str,
        error: bool,
        cur_bytes: u64,
        total_bytes: u64,
        complete: bool,
    ) -> (s: FileStatus)
        ensures
            s@ == message_status(url@, msg@, error, cur_bytes, total_bytes, complete),
            s.url@ == url@,
            s.msg matches Some(m) && m.msg@ == msg@ && m.error == error,
            s.cur_bytes == cur_bytes,
            s.total_bytes == total_bytes,
            s.complete == complete,
    {
        FileStatus {
            url: url.to_string(),
            msg: Some(FileMsg { msg: msg.to_string(), error }),
            cur_bytes,
            total_bytes,
            complete,
        }
    }

    /// A status with a message given as an owned string.
    pub fn from_string(
        url: &str,
        msg: String,
        error: bool,
        cur_bytes: u64,
        total_bytes: u64,
        complete: bool,
    ) -> (s: FileStatus)
        ensures
            s@ == message_status(url@, msg@, error, cur_bytes, total_bytes, complete),
            s.url@ == url@,
            s.msg matches Some(m) && m.msg@ == msg@ && m.error == error,
            s.cur_bytes == cur_bytes,
            s.total_bytes == total_bytes,
            s.complete == complete,
    {
        FileStatus { url: url.to_string(), msg: Some(FileMsg { msg, error }), cur_bytes, total_bytes, complete }
    }

    /// A status that reports progress only and leaves the message as it was.
    pub fn from_empty(url: &str, cur_bytes: u64, total_bytes: u64, complete: bool) -> (s: FileStatus)
        ensures
            s@ == progress_status(url@, cur_bytes, total_bytes, complete),
            s.url@ == url@,
            s.msg is None,
            s.cur_bytes == cur_bytes,
            s.total_bytes == total_bytes,
            s.complete == complete,
    {
        FileStatus { url: url.to_string(), msg: None, cur_bytes, total_bytes, complete }
    }

    /// A copy with the same value.
    pub fn copy(&self) -> (r: FileStatus)
        ensures
            r@ == self@,
            r.url@ == self.url@,
            r.cur_bytes == self.cur_bytes,
            r.total_bytes == self.total_bytes,
            r.complete == self.complete,
            r.msg is None <==> self.msg is None,
            r.msg matches Some(m) ==> (self.msg matches Some(n) && m.msg@ == n.msg@ && m.error == n.error),
    {
        let msg = match &self.msg {
            Some(m) => Some(m.copy()),
            None => None,
        };
        FileStatus {
            url: self.url.clone(),
            msg,
            cur_bytes: self.cur_bytes,
            total_bytes: self.total_bytes,
            complete: self.complete,
        }
    }
}

} // verus!
