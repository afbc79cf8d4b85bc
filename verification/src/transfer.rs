use vstd::prelude::*;
use vstd::string::*;
use crate::status::{FileMsgView, FileStatus, FileStatusView, message_status, progress_status};
use crate::text::{decimal, decimal_text, human_bytes, human_bytes_text, status_code_text, status_text};

verus! {

/// The size reported in statuses: the full length once it is known, else 0.
pub open spec fn known_total(full_length: Option<u64>) -> u64 {
    match full_length {
        Some(l) => l,
        None => 0,
    }
}

/// Whether a response status makes the server's answer final: a client
/// error other than 404, or a server error.
pub open spec fn is_refusal(code: u16) -> bool {
    (400 <= code < 500 && code != 404) || (500 <= code < 600)
}

/// The status reported once the server has answered.
pub open spec fn connected_status(
    url: Seq<char>,
    content_length: Option<u64>,
    offset: u64,
    total: u64,
) -> FileStatusView {
    match content_length {
        Some(l) => message_status(
            url,
            "Connected. Downloading: "@ + human_bytes_text(l),
            false,
            offset,
            total,
            false,
        ),
        None => message_status(url, "Connected."@, false, offset, total, false),
    }
}

/// The full length learned from a response: the first length learned is kept.
pub open spec fn learned_length(
    full_length: Option<u64>,
    offset: u64,
    content_length: Option<u64>,
) -> Option<u64> {
    match full_length {
        Some(l) => Some(l),
        None => match content_length {
            Some(c) => Some((offset + c) as u64),
            None => None,
        },
    }
}

/// Once a response announced the full length of a file, no later response
/// changes it, whatever it announces and however far the transfer went.
pub proof fn lemma_full_length_kept(full_length: Option<u64>, offset: u64, content_length: Option<u64>)
    requires
        full_length is Some,
    ensures
        learned_length(full_length, offset, content_length) == full_length,
        known_total(learned_length(full_length, offset, content_length)) == known_total(full_length),
{
}

/// Once the server answers, the status says "Connected." or, when the
/// length is announced, "Connected. Downloading: " and that length for
/// humans; it is no error, reports the given progress and is not complete.
pub proof fn lemma_connected_status(url: Seq<char>, content_length: Option<u64>, offset: u64, total: u64)
    ensures
        connected_status(url, content_length, offset, total).url == url,
        connected_status(url, content_length, offset, total).cur_bytes == offset,
        connected_status(url, content_length, offset, total).total_bytes == total,
        !connected_status(url, content_length, offset, total).complete,
        content_length matches Some(l) ==> connected_status(url, content_length, offset, total).msg
            == Some(FileMsgView { msg: "Connected. Downloading: "@ + human_bytes_text(l), error: false }),
        content_length is None ==> connected_status(url, content_length, offset, total).msg == Some(
            FileMsgView { msg: "Connected."@, error: false },
        ),
{
}

/// The message of each failure after which an attempt is repeated.
pub proof fn lemma_failure_messages()
    ensures
        failure_message(PartFailure::ConnectionTimeout) == "Connection timeout"@,
        failure_message(PartFailure::ConnectionFailed) == "Error connecting to server"@,
        failure_message(PartFailure::ChunkTimeout) == "Chunk download timeout"@,
        failure_message(PartFailure::ChunkFailed) == "Error downloading byte chunk"@,
        failure_message(PartFailure::WriteFailed) == "Error writing to file"@,
        failure_message(PartFailure::Incomplete) == "Incomplete download"@,
{
}

/// The codes that refuse a file are exactly the client errors other than
/// 404 (400 through 499) and the server errors (500 through 599).
pub proof fn lemma_refused_codes(code: u16)
    ensures
        400 <= code < 600 && code != 404 ==> is_refusal(code),
        code < 400 || code >= 600 || code == 404 ==> !is_refusal(code),
{
}

/// The first length a response announces is counted from the bytes already
/// written; a response that announces none leaves the length unknown.
pub proof fn lemma_first_length_learned(offset: u64, content_length: Option<u64>)
    ensures
        content_length matches Some(c) ==> learned_length(None, offset, content_length) == Some(
            (offset + c) as u64,
        ),
        content_length is None ==> learned_length(None, offset, content_length) is None,
        known_total(None) == 0,
        forall|l: u64| known_total(Some(l)) == l,
{
}

/// A failure of one attempt at a file, after which the attempt is repeated.
#[derive(Debug, Clone, Copy, PartialEq, Eq)]
pub enum PartFailure {
    ConnectionTimeout,
    ConnectionFailed,
    ChunkTimeout,
    ChunkFailed,
    WriteFailed,
    Incomplete,
}

impl PartFailure {
    /// The message reported for the failure.
    pub fn message(&self) -> (s: String)
        ensures
            *self == PartFailure::ConnectionTimeout ==> s@ == "Connection timeout"@,
            *self == PartFailure::ConnectionFailed ==> s@ == "Error connecting to server"@,
            *self == PartFailure::ChunkTimeout ==> s@ == "Chunk download timeout"@,
            *self == PartFailure::ChunkFailed ==> s@ == "Error downloading byte chunk"@,
            *self == PartFailure::WriteFailed ==> s@ == "Error writing to file"@,
            *self == PartFailure::Incomplete ==> s@ == "Incomplete download"@,
    {
        match self {
            PartFailure::ConnectionTimeout => "Connection timeout".to_string(),
            PartFailure::ConnectionFailed => "Error connecting to server".to_string(),
            PartFailure::ChunkTimeout => "Chunk download timeout".to_string(),
            PartFailure::ChunkFailed => "Error downloading byte chunk".to_string(),
            PartFailure::WriteFailed => "Error writing to file".to_string(),
            PartFailure::Incomplete => "Incomplete download".to_string(),
        }
    }
}

/// How one attempt at a file ended.
pub enum PartOutcome {
    /// A failure after which the file is attempted again.
    Failed(PartFailure),
    /// The download of the file stops, with this message.
    Stopped(String),
    /// The file is complete.
    Finished,
}

impl PartOutcome {
    /// The outcome of an attempt that notices the download was cancelled.
    pub fn cancelled() -> (r: PartOutcome)
        ensures
            r matches PartOutcome::Stopped(m) && m@ == "Cancelled."@,
    {
        PartOutcome::Stopped("Cancelled.".to_string())
    }
}

/// The body of one response: the length the server announced and what has
/// been read of it.
#[derive(Debug, Clone, Copy, PartialEq, Eq)]
pub struct Part {
    pub length: Option<u64>,
    pub downloaded: u64,
}

impl Part {
    /// How the attempt ends once the body is read: incomplete when less than
    /// the announced length arrived.
    pub fn finish(&self) -> (r: PartOutcome)
        ensures
            (self.length matches Some(l) && self.downloaded < l) ==> r matches PartOutcome::Failed(
                PartFailure::Incomplete,
            ),
            !(self.length matches Some(l) && self.downloaded < l) ==> r is Finished,
    {
        match self.length {
            Some(l) => {
                if self.downloaded < l {
                    PartOutcome::Failed(PartFailure::Incomplete)
                } else {
                    PartOutcome::Finished
                }
            },
            None => PartOutcome::Finished,
        }
    }
}

/// What to do with a response.
pub enum ResponseDecision {
    /// The server refused the file: the download of the file stops with this message.
    Rejected { message: String },
    /// Report `status`, then read the body, counting it in `part`.
    Accepted { status: FileStatus, part: Part },
}

/// What comes after an attempt at a file.
pub enum FileStep {
    /// Report the status, then attempt the file again.
    Retry(FileStatus),
    /// Report the status: the file is done.
    Complete(FileStatus),
    /// The download of the file fails with this message.
    Abort(String),
}

/// The sum of the lengths of the chunks written so far.
pub open spec fn written_total(chunks: Seq<u64>) -> int
    decreases chunks.len(),
{
    if chunks.len() == 0 {
        0
    } else {
        written_total(chunks.drop_last()) + chunks.last()
    }
}

/// Counting one more chunk adds its length, so the count never decreases.
pub proof fn lemma_written_total_push(chunks: Seq<u64>, len: u64)
    ensures
        written_total(chunks.push(len)) == written_total(chunks) + len,
        written_total(chunks.push(len)) >= written_total(chunks),
{
    assert(chunks.push(len).drop_last() =~= chunks);
}

/// The mathematical value of a [`Transfer`]: besides its URL, offset and
/// full length, the lengths of every chunk written for the file, in order,
/// across all attempts.
pub struct TransferView {
    pub url: Seq<char>,
    pub offset: u64,
    pub full_length: Option<u64>,
    pub written: Seq<u64>,
}

/// The progress of the download of one file across its attempts: how many
/// bytes are written, and the full length once a response announced it.
pub struct Transfer {
    url: String,
    offset: u64,
    full_length: Option<u64>,
    written: Ghost<Seq<u64>>,
}

impl View for Transfer {
    type V = TransferView;

    closed spec fn view(&self) -> TransferView {
        TransferView {
            url: self.url@,
            offset: self.offset,
            full_length: self.full_length,
            written: self.written@,
        }
    }
}

impl Transfer {
    /// The offset is the number of bytes written for the file: the sum of
    /// the lengths of all chunks counted, whatever attempt they came in.
    pub open spec fn wf(&self) -> bool {
        self@.offset == written_total(self@.written)
    }

    /// A file of which nothing is downloaded yet.
    pub fn new(url: &str) -> (t: Transfer)
        ensures
            t.wf(),
            t@.url == url@,
            t@.offset == 0,
            t@.full_length is None,
            t@.written == Seq::<u64>::empty(),
    {
        Transfer { url: url.to_string(), offset: 0, full_length: None, written: Ghost(Seq::empty()) }
    }

    /// The URL of the file.
    pub fn url(&self) -> (r: &str)
        ensures
            r@ == self@.url,
    {
        self.url.as_str()
    }

    /// The number of bytes written.
    pub fn offset(&self) -> (r: u64)
        ensures
            r == self@.offset,
    {
        self.offset
    }

    /// The full length, once a response announced it.
    pub fn full_length(&self) -> (r: Option<u64>)
        ensures
            r == self@.full_length,
    {
        self.full_length
    }

    /// The size reported in statuses.
    pub fn total(&self) -> (r: u64)
        ensures
            r == known_total(self@.full_length),
    {
        match self.full_length {
            Some(l) => l,
            None => 0,
        }
    }

    /// The status reported when an attempt starts.
    pub fn connecting_status(&self) -> (s: FileStatus)
        ensures
            s@ == message_status(
                self@.url,
                "Connecting..."@,
                false,
                self@.offset,
                known_total(self@.full_length),
                false,
            ),
    {
        FileStatus::from_str(self.url.as_str(), "Connecting...", false, self.offset, self.total(), false)
    }

    /// The value of the `range` header of a request: present once some bytes
    /// are written, asking for the rest from there on.
    pub fn range_header(&self) -> (r: Option<String>)
        ensures
            r is Some <==> self@.offset > 0,
            r matches Some(h) ==> h@ == "bytes="@ + decimal(self@.offset as nat) + "-"@,
    {
        if self.offset > 0 {
            let mut h = "bytes=".to_string();
            let n = decimal_text(self.offset);
            h.append(n.as_str());
            h.append("-");
            Some(h)
        } else {
            None
        }
    }

    /// Decides on a response with the given status code and announced
    /// length. A refusal leaves the transfer as it was; otherwise the first
    /// announced length, counted from the bytes already written, becomes the
    /// full length, and a full length once known never changes. The bytes
    /// written are not touched.
    pub fn on_response(&mut self, status_code: u16, content_length: Option<u64>) -> (r:
        ResponseDecision)
        requires
            old(self).wf(),
            100 <= status_code < 1000,
            !is_refusal(status_code) && old(self)@.full_length is None ==> (content_length matches Some(
                c,
            ) ==> old(self)@.offset + c <= u64::MAX),
        ensures
            final(self).wf(),
            final(self)@.url == old(self)@.url,
            final(self)@.offset == old(self)@.offset,
            final(self)@.written == old(self)@.written,
            is_refusal(status_code) ==> {
                &&& final(self)@.full_length == old(self)@.full_length
                &&& r matches ResponseDecision::Rejected { message }
                &&& message@ == "Server gave bad response code: "@ + status_code_text(status_code)
            },
            400 <= status_code < 600 && status_code != 404 ==> {
                &&& r is Rejected
                &&& final(self)@.full_length == old(self)@.full_length
            },
            status_code < 400 || status_code >= 600 || status_code == 404 ==> r is Accepted,
            !is_refusal(status_code) ==> {
                &&& final(self)@.full_length == learned_length(
                    old(self)@.full_length,
                    old(self)@.offset,
                    content_length,
                )
                &&& r matches ResponseDecision::Accepted { status, part }
                &&& part == (Part { length: content_length, downloaded: 0 })
                &&& status@ == connected_status(
                    old(self)@.url,
                    content_length,
                    old(self)@.offset,
                    known_total(final(self)@.full_length),
                )
            },
    {
        let refused = (400 <= status_code && status_code < 500 && status_code != 404) || (500
            <= status_code && status_code < 600);
        if refused {
            let mut message = "Server gave bad response code: ".to_string();
            let code = status_text(status_code);
            message.append(code.as_str());
            return ResponseDecision::Rejected { message };
        }
        if self.full_length.is_none() {
            self.full_length = match content_length {
                Some(c) => Some(self.offset + c),
                None => None,
            };
        }
        let status = match content_length {
            Some(c) => {
                let mut msg = "Connected. Downloading: ".to_string();
                let size = human_bytes(c);
                msg.append(size.as_str());
                FileStatus::from_string(self.url.as_str(), msg, false, self.offset, self.total(), false)
            },
            None => FileStatus::from_str(
                self.url.as_str(),
                "Connected.",
                false,
                self.offset,
                self.total(),
                false,
            ),
        };
        ResponseDecision::Accepted { status, part: Part { length: content_length, downloaded: 0 } }
    }

    /// Counts a chunk of the body as written and gives the progress status
    /// to report, which leaves the message as it was. The chunk joins the
    /// chunks written for the file, so the offset stays their total.
    pub fn on_chunk(&mut self, part: &mut Part, chunk_len: u64) -> (s: FileStatus)
        requires
            old(self).wf(),
            old(self)@.offset + chunk_len <= u64::MAX,
            old(part).downloaded + chunk_len <= u64::MAX,
        ensures
            final(self).wf(),
            final(self)@.url == old(self)@.url,
            final(self)@.full_length == old(self)@.full_length,
            final(self)@.written == old(self)@.written.push(chunk_len),
            final(self)@.offset == old(self)@.offset + chunk_len,
            final(part).length == old(part).length,
            final(part).downloaded == old(part).downloaded + chunk_len,
            s@ == progress_status(
                old(self)@.url,
                final(self)@.offset,
                known_total(old(self)@.full_length),
                false,
            ),
    {
        proof {
            lemma_written_total_push(self.written@, chunk_len);
        }
        self.offset = self.offset + chunk_len;
        self.written = Ghost(self.written@.push(chunk_len));
        part.downloaded = part.downloaded + chunk_len;
        FileStatus::from_empty(self.url.as_str(), self.offset, self.total(), false)
    }

    /// What follows an attempt: a failure is reported as an error status and
    /// retried; a finished file is reported complete; a stop ends the file
    /// with its message.
    pub fn after_part(&self, outcome: PartOutcome) -> (r: FileStep)
        ensures
            outcome matches PartOutcome::Failed(f) ==> (r matches FileStep::Retry(s) && s@
                == message_status(
                self@.url,
                failure_message(f),
                true,
                self@.offset,
                known_total(self@.full_length),
                false,
            )),
            outcome is Finished ==> (r matches FileStep::Complete(s) && s@ == message_status(
                self@.url,
                "Complete."@,
                false,
                self@.offset,
                known_total(self@.full_length),
                true,
            )),
            outcome matches PartOutcome::Stopped(m) ==> (r matches FileStep::Abort(e) && e@ == m@),
    {
        match outcome {
            PartOutcome::Failed(f) => {
                let msg = f.message();
                FileStep::Retry(
                    FileStatus::from_string(self.url.as_str(), msg, true, self.offset, self.total(), false),
                )
            },
            PartOutcome::Finished => FileStep::Complete(
                FileStatus::from_str(self.url.as_str(), "Complete.", false, self.offset, self.total(), true),
            ),
            PartOutcome::Stopped(m) => FileStep::Abort(m),
        }
    }
}

/// The outcome owed to a cancelled download: an attempt that finds the
/// cancellation flag set stops the file with "Cancelled."; otherwise it goes on.
pub fn cancellation(cancelled: bool) -> (r: Option<PartOutcome>)
    ensures
        r is Some <==> cancelled,
        r matches Some(o) ==> (o matches PartOutcome::Stopped(m) && m@ == "Cancelled."@),
{
    if cancelled {
        Some(PartOutcome::cancelled())
    } else {
        None
    }
}

/// The message reported for a failure.
pub open spec fn failure_message(f: PartFailure) -> Seq<char> {
    match f {
        PartFailure::ConnectionTimeout => "Connection timeout"@,
        PartFailure::ConnectionFailed => "Error connecting to server"@,
        PartFailure::ChunkTimeout => "Chunk download timeout"@,
        PartFailure::ChunkFailed => "Error downloading byte chunk"@,
        PartFailure::WriteFailed => "Error writing to file"@,
        PartFailure::Incomplete => "Incomplete download"@,
    }
}

/// Whether a response status makes the server's answer final.
pub fn is_refused(status_code: u16) -> (r: bool)
    ensures
        r == is_refusal(status_code),
        400 <= status_code < 600 && status_code != 404 ==> r,
        status_code < 400 || status_code >= 600 || status_code == 404 ==> !r,
{
    (400 <= status_code && status_code < 500 && status_code != 404) || (500 <= status_code
        && status_code < 600)
}

} // verus!
