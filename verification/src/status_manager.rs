use vstd::prelude::*;
use crate::status::{FileMsgView, FileStatus, FileStatusView, initial_status};

verus! {

/// What a stored status becomes when `incoming` is put for the same URL:
/// every field comes from `incoming`, except that a status without a
/// message keeps the message that was stored.
pub open spec fn merged_status(stored: FileStatusView, incoming: FileStatusView) -> FileStatusView {
    FileStatusView {
        url: incoming.url,
        msg: if incoming.msg is Some { incoming.msg } else { stored.msg },
        cur_bytes: incoming.cur_bytes,
        total_bytes: incoming.total_bytes,
        complete: incoming.complete,
    }
}

/// The statuses after a put: only a URL that is already tracked is updated.
pub open spec fn put_statuses(
    m: Map<Seq<char>, FileStatusView>,
    incoming: FileStatusView,
) -> Map<Seq<char>, FileStatusView> {
    if m.contains_key(incoming.url) {
        m.insert(incoming.url, merged_status(m[incoming.url], incoming))
    } else {
        m
    }
}

/// The statuses after a setup with the given URLs: each of them, and no
/// other, starts from its initial status.
pub open spec fn setup_statuses(urls: Seq<Seq<char>>) -> Map<Seq<char>, FileStatusView> {
    Map::new(|k: Seq<char>| urls.contains(k), |k: Seq<char>| initial_status(k))
}

pub open spec fn url_views(urls: Seq<String>) -> Seq<Seq<char>> {
    urls.map_values(|u: String| u@)
}

/// After a status is put for a tracked URL, that URL reads back the status,
/// with the stored message kept when the status carries none; every other
/// URL reads back what it did before.
pub proof fn lemma_put_then_get(m: Map<Seq<char>, FileStatusView>, s: FileStatusView, other: Seq<char>)
    requires
        m.contains_key(s.url),
    ensures
        put_statuses(m, s).contains_key(s.url),
        put_statuses(m, s)[s.url] == merged_status(m[s.url], s),
        s.msg is None ==> put_statuses(m, s)[s.url].msg == m[s.url].msg,
        s.msg is Some ==> put_statuses(m, s)[s.url] == s,
        other != s.url ==> (put_statuses(m, s).contains_key(other) == m.contains_key(other)),
        other != s.url && m.contains_key(other) ==> put_statuses(m, s)[other] == m[other],
{
}

/// A put replaces the progress of a tracked URL outright: the stored status
/// has the put status's URL, byte counts and completion, whether or not it
/// carries a message; only a missing message falls back to the stored one.
pub proof fn lemma_put_fields(m: Map<Seq<char>, FileStatusView>, s: FileStatusView)
    requires
        m.contains_key(s.url),
    ensures
        put_statuses(m, s)[s.url].url == s.url,
        put_statuses(m, s)[s.url].cur_bytes == s.cur_bytes,
        put_statuses(m, s)[s.url].total_bytes == s.total_bytes,
        put_statuses(m, s)[s.url].complete == s.complete,
        s.msg is Some ==> put_statuses(m, s)[s.url].msg == s.msg,
        s.msg is None ==> put_statuses(m, s)[s.url].msg == m[s.url].msg,
        put_statuses(m, s).dom() == m.dom(),
{
    assert(put_statuses(m, s).dom() =~= m.dom());
}

/// Every file starts "Not started.", as no error, with nothing transferred
/// and not complete.
pub proof fn lemma_initial_status_fields(url: Seq<char>)
    ensures
        initial_status(url).url == url,
        initial_status(url).msg == Some(FileMsgView { msg: "Not started."@, error: false }),
        initial_status(url).cur_bytes == 0,
        initial_status(url).total_bytes == 0,
        !initial_status(url).complete,
{
}

/// A status put for a URL that is not tracked changes nothing.
pub proof fn lemma_put_untracked(m: Map<Seq<char>, FileStatusView>, s: FileStatusView)
    requires
        !m.contains_key(s.url),
    ensures
        put_statuses(m, s) == m,
{
}

/// Putting the same status twice is putting it once.
pub proof fn lemma_put_idempotent(m: Map<Seq<char>, FileStatusView>, s: FileStatusView)
    ensures
        put_statuses(put_statuses(m, s), s) == put_statuses(m, s),
{
    if m.contains_key(s.url) {
        assert(merged_status(merged_status(m[s.url], s), s) == merged_status(m[s.url], s));
        assert(put_statuses(put_statuses(m, s), s) =~= put_statuses(m, s));
    }
}

/// Statuses put for different URLs do not depend on each other's order.
pub proof fn lemma_puts_commute(
    m: Map<Seq<char>, FileStatusView>,
    a: FileStatusView,
    b: FileStatusView,
)
    requires
        a.url != b.url,
    ensures
        put_statuses(put_statuses(m, a), b) == put_statuses(put_statuses(m, b), a),
{
    assert(put_statuses(put_statuses(m, a), b) =~= put_statuses(put_statuses(m, b), a));
}

/// After a setup, exactly the given URLs are tracked, each at its initial
/// status, whatever was tracked before.
pub proof fn lemma_setup_tracks_exactly(urls: Seq<Seq<char>>, k: Seq<char>)
    ensures
        setup_statuses(urls).contains_key(k) <==> urls.contains(k),
        urls.contains(k) ==> setup_statuses(urls)[k] == initial_status(k),
{
}

/// The status of every file of the current download, keyed by URL.
///
/// The statuses are kept in a vector with one entry per URL, tied by `wf`
/// to a ghost map that the contracts speak of: Verus's specification of
/// std's hash maps proves nothing for `String` keys (not even the length
/// after an insert), so a map keyed by the URL text would leave these
/// contracts unprovable.
pub struct FileStatusManager {
    entries: Vec<FileStatus>,
    statuses: Ghost<Map<Seq<char>, FileStatusView>>,
}

impl View for FileStatusManager {
    type V = Map<Seq<char>, FileStatusView>;

    closed spec fn view(&self) -> Map<Seq<char>, FileStatusView> {
        self.statuses@
    }
}

impl FileStatusManager {
    /// The stored entries hold exactly the tracked statuses, one per URL.
    pub closed spec fn wf(&self) -> bool {
        &&& forall|i: int|
            0 <= i < self.entries.len() ==> {
                &&& self.statuses@.contains_key(#[trigger] self.entries@[i]@.url)
                &&& self.statuses@[self.entries@[i]@.url] == self.entries@[i]@
            }
        &&& forall|k: Seq<char>|
            #[trigger] self.statuses@.contains_key(k) ==> exists|i: int|
                0 <= i < self.entries.len() && #[trigger] self.entries@[i]@.url == k
        &&& forall|i: int, j: int|
            0 <= i < self.entries.len() && 0 <= j < self.entries.len() && i != j
                ==> self.entries@[i]@.url != self.entries@[j]@.url
    }

    /// A manager that tracks no file.
    pub fn new() -> (m: FileStatusManager)
        ensures
            m.wf(),
            m@ == Map::<Seq<char>, FileStatusView>::empty(),
    {
        FileStatusManager { entries: Vec::new(), statuses: Ghost(Map::empty()) }
    }

    /// The position of the entry for `key`, if one is stored.
    fn find(&self, key: &String) -> (r: Option<usize>)
        requires
            self.wf(),
        ensures
            r matches Some(i) ==> i < self.entries.len() && self.entries@[i as int]@.url == key@,
            r is None ==> !self@.contains_key(key@),
    {
        let n = self.entries.len();
        let mut i: usize = 0;
        while i < n
            invariant
                n == self.entries.len(),
                i <= n,
                forall|j: int| 0 <= j < i ==> self.entries@[j]@.url != key@,
            decreases n - i,
        {
            if self.entries[i].url == *key {
                return Some(i);
            }
            i = i + 1;
        }
        proof {
            if self.statuses@.contains_key(key@) {
                let w = choose|j: int| 0 <= j < self.entries.len() && #[trigger] self.entries@[j]@.url == key@;
                assert(self.entries@[w]@.url == key@);
            }
        }
        None
    }

    /// Forgets every tracked file, then tracks each of `url_list` from its
    /// initial status.
    pub fn setup(&mut self, url_list: &Vec<String>)
        requires
            old(self).wf(),
        ensures
            final(self).wf(),
            final(self)@ == setup_statuses(url_views(url_list@)),
            forall|k: Seq<char>|
                #[trigger] final(self)@.contains_key(k) <==> exists|i: int|
                    0 <= i < url_list.len() && url_list@[i]@ == k,
            forall|k: Seq<char>|
                #[trigger] final(self)@.contains_key(k) ==> {
                    let s = final(self)@[k];
                    &&& s.url == k
                    &&& s.msg == Some(FileMsgView { msg: "Not started."@, error: false })
                    &&& s.cur_bytes == 0
                    &&& s.total_bytes == 0
                    &&& !s.complete
                },
    {
        self.entries = Vec::new();
        self.statuses = Ghost(Map::empty());
        let n = url_list.len();
        let mut i: usize = 0;
        while i < n
            invariant
                n == url_list.len(),
                i <= n,
                self.wf(),
                self@ == setup_statuses(url_views(url_list@.subrange(0, i as int))),
            decreases n - i,
        {
            let url = &url_list[i];
            let ghost prev = url_views(url_list@.subrange(0, i as int));
            let ghost next = url_views(url_list@.subrange(0, i + 1));
            assert(next == prev.push(url@)) by {
                assert(url_list@.subrange(0, i + 1) == url_list@.subrange(0, i as int).push(url_list@[i as int]));
            }
            match self.find(url) {
                Some(_) => {
                    assert(prev.contains(url@));
                    assert(setup_statuses(next) =~= setup_statuses(prev)) by {
                        assert forall|k: Seq<char>| next.contains(k) <==> prev.contains(k) by {
                            if next.contains(k) && !prev.contains(k) {
                                let j = choose|j: int| 0 <= j < next.len() && next[j] == k;
                                if j < prev.len() {
                                    assert(prev[j] == k);
                                }
                            }
                            if prev.contains(k) {
                                let j = choose|j: int| 0 <= j < prev.len() && prev[j] == k;
                                assert(next[j] == k);
                            }
                        }
                    }
                },
                None => {
                    let ghost old_entries = self.entries@;
                    let status = FileStatus::initial(url.as_str());
                    self.entries.push(status);
                    self.statuses = Ghost(self.statuses@.insert(url@, initial_status(url@)));
                    assert(setup_statuses(next) =~= setup_statuses(prev).insert(url@, initial_status(url@))) by {
                        assert forall|k: Seq<char>| next.contains(k) <==> (prev.contains(k) || k == url@) by {
                            if next.contains(k) && k != url@ {
                                let j = choose|j: int| 0 <= j < next.len() && next[j] == k;
                                assert(j < prev.len());
                                assert(prev[j] == k);
                            }
                            if prev.contains(k) {
                                let j = choose|j: int| 0 <= j < prev.len() && prev[j] == k;
                                assert(next[j] == k);
                            }
                            if k == url@ {
                                assert(next[prev.len() as int] == k);
                            }
                        }
                    }
                    assert forall|k: Seq<char>|
                        #[trigger] self.statuses@.contains_key(k) implies exists|j: int|
                            0 <= j < self.entries.len() && #[trigger] self.entries@[j]@.url == k by {
                        if k == url@ {
                            assert(self.entries@[old_entries.len() as int]@.url == k);
                        } else {
                            let j = choose|j: int| 0 <= j < old_entries.len() && #[trigger] old_entries[j]@.url == k;
                            assert(self.entries@[j]@.url == k);
                        }
                    }
                },
            }
            i = i + 1;
        }
        assert(url_list@.subrange(0, n as int) == url_list@);
        assert forall|k: Seq<char>|
            #[trigger] self@.contains_key(k) <==> exists|i: int|
                0 <= i < url_list.len() && url_list@[i]@ == k by {
            let views = url_views(url_list@);
            if self@.contains_key(k) {
                let i = choose|i: int| 0 <= i < views.len() && views[i] == k;
                assert(url_list@[i]@ == k);
            }
            if exists|i: int| 0 <= i < url_list.len() && url_list@[i]@ == k {
                let i = choose|i: int| 0 <= i < url_list.len() && url_list@[i]@ == k;
                assert(views[i] == k);
            }
        }
    }

    /// Records `status` for its URL, keeping the stored message when
    /// `status` carries none; a URL that is not tracked is ignored.
    pub fn put(&mut self, status: &FileStatus)
        requires
            old(self).wf(),
        ensures
            final(self).wf(),
            final(self)@ == put_statuses(old(self)@, status@),
            final(self)@.dom() == old(self)@.dom(),
            old(self)@.contains_key(status@.url) ==> {
                let stored = final(self)@[status@.url];
                &&& stored.url == status@.url
                &&& stored.cur_bytes == status.cur_bytes
                &&& stored.total_bytes == status.total_bytes
                &&& stored.complete == status.complete
                &&& status.msg is Some ==> stored.msg == status@.msg
                &&& status.msg is None ==> stored.msg == old(self)@[status@.url].msg
            },
            forall|k: Seq<char>|
                k != status@.url && #[trigger] old(self)@.contains_key(k) ==> final(self)@[k] == old(
                    self,
                )@[k],
    {
        match self.find(&status.url) {
            Some(i) => {
                let msg = match &status.msg {
                    Some(m) => Some(m.copy()),
                    None => match &self.entries[i].msg {
                        Some(m) => Some(m.copy()),
                        None => None,
                    },
                };
                let updated = FileStatus {
                    url: status.url.clone(),
                    msg,
                    cur_bytes: status.cur_bytes,
                    total_bytes: status.total_bytes,
                    complete: status.complete,
                };
                let ghost stored = self.entries@[i as int]@;
                assert(updated@ == merged_status(stored, status@));
                self.entries.set(i, updated);
                self.statuses = Ghost(self.statuses@.insert(status@.url, merged_status(stored, status@)));
                assert forall|k: Seq<char>|
                    #[trigger] self.statuses@.contains_key(k) implies exists|j: int|
                        0 <= j < self.entries.len() && #[trigger] self.entries@[j]@.url == k by {
                    let j = choose|j: int| 0 <= j < self.entries.len() && #[trigger] old(self).entries@[j]@.url == k;
                    assert(self.entries@[j]@.url == k);
                }
            },
            None => {},
        }
    }

    /// The status stored for `url`, if it is tracked.
    pub fn get(&self, url: &str) -> (r: Option<FileStatus>)
        requires
            self.wf(),
        ensures
            r is Some <==> self@.contains_key(url@),
            r matches Some(s) ==> s@ == self@[url@],
    {
        let key = url.to_string();
        match self.find(&key) {
            Some(i) => Some(self.entries[i].copy()),
            None => None,
        }
    }
}

} // verus!
