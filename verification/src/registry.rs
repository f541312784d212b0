//! The transfer registry: the set of in-flight transfer handles and the
//! status snapshot store. It enforces at most one running transfer per id,
//! routes pause, resume and cancel signals to the right handle, and
//! reconstructs a handle from its resume record when no in-memory handle
//! exists.

use vstd::prelude::*;

use crate::record::ResumeRecord;
use crate::status::{StatusSnapshot, StatusTag};
use crate::text::{is_blank, str_is_blank};

verus! {

/// A synchronous failure of a registry command.
#[derive(Clone, Copy, Debug, PartialEq, Eq, Structural)]
pub enum RegistryError {
    /// The credential was empty or whitespace.
    MissingToken,
    /// A running transfer for the id already exists.
    AlreadyRunning,
    /// No handle and no resume record exists for the id.
    NotFound,
}

impl RegistryError {
    /// The message returned to the caller of the command.
    pub fn message(&self) -> (r: String)
        ensures
            r@ == self.message_spec(),
    {
        proof {
            reveal_strlit("Missing auth token.");
            reveal_strlit("Download already in progress.");
            reveal_strlit("Download not found.");
        }
        match self {
            RegistryError::MissingToken => "Missing auth token.".to_owned(),
            RegistryError::AlreadyRunning => "Download already in progress.".to_owned(),
            RegistryError::NotFound => "Download not found.".to_owned(),
        }
    }

    pub open spec fn message_spec(self) -> Seq<char> {
        match self {
            RegistryError::MissingToken => "Missing auth token."@,
            RegistryError::AlreadyRunning => "Download already in progress."@,
            RegistryError::NotFound => "Download not found."@,
        }
    }
}

/// What a caller supplies to start a fresh download.
pub struct StartRequest {
    /// The transfer id, the unique key.
    pub id: String,
    /// Where the archive is fetched from.
    pub archive_url: String,
    /// Where the small config resource is fetched from.
    pub config_url: String,
    /// The destination root directory.
    pub dest_dir: String,
    /// The authorization credential.
    pub token: String,
}

/// One transfer's descriptor and its three control signals. Signals are
/// cooperative: the running engine observes them between chunks.
pub struct Handle {
    /// The transfer id, the unique key.
    pub id: String,
    /// Where the archive is fetched from.
    pub archive_url: String,
    /// Where the small config resource is fetched from.
    pub config_url: String,
    /// The authorization credential.
    pub token: String,
    /// The destination root directory.
    pub dest_dir: String,
    /// Set by `pause`; observed by the engine at the next chunk boundary.
    pub paused: bool,
    /// Set by `cancel`; observed by the engine at the next chunk boundary.
    pub cancelled: bool,
    /// Whether an engine run currently owns this transfer.
    pub running: bool,
}

impl Clone for Handle {
    fn clone(&self) -> (r: Handle)
        ensures
            r == *self,
    {
        Handle {
            id: self.id.clone(),
            archive_url: self.archive_url.clone(),
            config_url: self.config_url.clone(),
            token: self.token.clone(),
            dest_dir: self.dest_dir.clone(),
            paused: self.paused,
            cancelled: self.cancelled,
            running: self.running,
        }
    }
}

impl Handle {
    /// The resume record persisted for this transfer, carrying the known
    /// total; the credential is always stored.
    pub fn to_record(&self, total: Option<u64>) -> (r: ResumeRecord)
        ensures
            r.id == self.id,
            r.archive_url == self.archive_url,
            r.config_url == self.config_url,
            r.dest_dir == self.dest_dir,
            r.token == Some(self.token),
            r.total == total,
    {
        ResumeRecord {
            id: self.id.clone(),
            archive_url: self.archive_url.clone(),
            config_url: self.config_url.clone(),
            dest_dir: self.dest_dir.clone(),
            token: Some(self.token.clone()),
            total,
        }
    }
}

/// A transfer found on disk: its resume record and the length of the
/// partial archive beside it (0 when no partial file exists).
pub struct DiskEntry {
    /// The record read from the transfer directory.
    pub record: ResumeRecord,
    /// The on-disk length of the partial archive file.
    pub partial_len: u64,
}

/// Whether some handle in `s` has the id `id`.
pub open spec fn has_entry(s: Seq<Handle>, id: Seq<char>) -> bool {
    exists|i: int| 0 <= i < s.len() && s[i].id@ == id
}

/// The index of the handle with id `id`.
pub open spec fn entry_ix(s: Seq<Handle>, id: Seq<char>) -> int {
    choose|i: int| 0 <= i < s.len() && s[i].id@ == id
}

/// The handle with id `id`.
pub open spec fn entry_of(s: Seq<Handle>, id: Seq<char>) -> Handle {
    s[entry_ix(s, id)]
}

/// Whether some snapshot in `s` has the id `id`.
pub open spec fn has_snap(s: Seq<StatusSnapshot>, id: Seq<char>) -> bool {
    exists|i: int| 0 <= i < s.len() && s[i].id@ == id
}

/// The index of the snapshot with id `id`.
pub open spec fn snap_ix(s: Seq<StatusSnapshot>, id: Seq<char>) -> int {
    choose|i: int| 0 <= i < s.len() && s[i].id@ == id
}

/// The snapshot with id `id`.
pub open spec fn snap_of(s: Seq<StatusSnapshot>, id: Seq<char>) -> StatusSnapshot {
    s[snap_ix(s, id)]
}

/// No two handles share an id.
pub open spec fn unique_handle_ids(s: Seq<Handle>) -> bool {
    forall|i: int, j: int| 0 <= i < j < s.len() ==> (#[trigger] s[i]).id@ != (#[trigger] s[j]).id@
}

/// No two snapshots share an id.
pub open spec fn unique_snap_ids(s: Seq<StatusSnapshot>) -> bool {
    forall|i: int, j: int| 0 <= i < j < s.len() ==> (#[trigger] s[i]).id@ != (#[trigger] s[j]).id@
}

/// `s` with the handle `h` set: replacing the handle of the same id if one
/// exists, appended otherwise.
pub open spec fn upsert_handle(s: Seq<Handle>, h: Handle) -> Seq<Handle> {
    if has_entry(s, h.id@) {
        s.update(entry_ix(s, h.id@), h)
    } else {
        s.push(h)
    }
}

/// `s` with the snapshot `snap` set: replacing the snapshot of the same id
/// if one exists, appended otherwise.
pub open spec fn upsert_snap(s: Seq<StatusSnapshot>, snap: StatusSnapshot) -> Seq<StatusSnapshot> {
    if has_snap(s, snap.id@) {
        s.update(snap_ix(s, snap.id@), snap)
    } else {
        s.push(snap)
    }
}

/// In a sequence of unique ids, the handle found at any index is the one
/// `entry_of` names.
pub proof fn lemma_entry_at(s: Seq<Handle>, i: int)
    requires
        unique_handle_ids(s),
        0 <= i < s.len(),
    ensures
        has_entry(s, s[i].id@),
        entry_ix(s, s[i].id@) == i,
        entry_of(s, s[i].id@) == s[i],
{
    assert(has_entry(s, s[i].id@));
    let j = entry_ix(s, s[i].id@);
    assert(0 <= j < s.len() && s[j].id@ == s[i].id@);
    if i < j {
        assert(s[i].id@ != s[j].id@);
    } else if j < i {
        assert(s[j].id@ != s[i].id@);
    }
}

/// In a sequence of unique ids, the snapshot found at any index is the one
/// `snap_of` names.
pub proof fn lemma_snap_at(s: Seq<StatusSnapshot>, i: int)
    requires
        unique_snap_ids(s),
        0 <= i < s.len(),
    ensures
        has_snap(s, s[i].id@),
        snap_ix(s, s[i].id@) == i,
        snap_of(s, s[i].id@) == s[i],
{
    assert(has_snap(s, s[i].id@));
    let j = snap_ix(s, s[i].id@);
    assert(0 <= j < s.len() && s[j].id@ == s[i].id@);
    if i < j {
        assert(s[i].id@ != s[j].id@);
    } else if j < i {
        assert(s[j].id@ != s[i].id@);
    }
}

/// Setting a handle keeps ids unique, stores exactly `h` under its id, and
/// leaves every other id's handle as it was.
pub proof fn lemma_upsert_handle(s: Seq<Handle>, h: Handle)
    requires
        unique_handle_ids(s),
    ensures
        unique_handle_ids(upsert_handle(s, h)),
        has_entry(upsert_handle(s, h), h.id@),
        entry_of(upsert_handle(s, h), h.id@) == h,
        forall|k: Seq<char>|
            k != h.id@ ==> (#[trigger] has_entry(upsert_handle(s, h), k) <==> has_entry(s, k)),
        forall|k: Seq<char>|
            k != h.id@ && has_entry(s, k) ==> #[trigger] entry_of(upsert_handle(s, h), k)
                == entry_of(s, k),
{
    let post = upsert_handle(s, h);
    if has_entry(s, h.id@) {
        let i = entry_ix(s, h.id@);
        assert(0 <= i < s.len() && s[i].id@ == h.id@);
        assert(post == s.update(i, h));
        assert forall|p: int, q: int| 0 <= p < q < post.len() implies (#[trigger] post[p]).id@ != (
        #[trigger] post[q]).id@ by {
            assert(s[p].id@ != s[q].id@);
        }
        assert(post[i] == h);
        lemma_entry_at(post, i);
        assert forall|k: Seq<char>| k != h.id@ implies (#[trigger] has_entry(post, k) <==> has_entry(
            s,
            k,
        )) by {
            if has_entry(post, k) {
                let p = entry_ix(post, k);
                assert(post[p].id@ == k);
                assert(p != i);
                assert(s[p].id@ == k);
            }
            if has_entry(s, k) {
                let p = entry_ix(s, k);
                assert(s[p].id@ == k);
                assert(p != i);
                assert(post[p].id@ == k);
            }
        }
        assert forall|k: Seq<char>| k != h.id@ && has_entry(s, k) implies #[trigger] entry_of(
            post,
            k,
        ) == entry_of(s, k) by {
            let p = entry_ix(s, k);
            assert(0 <= p < s.len() && s[p].id@ == k);
            assert(p != i);
            assert(post[p] == s[p]);
            lemma_entry_at(post, p);
            lemma_entry_at(s, p);
        }
    } else {
        assert(post == s.push(h));
        assert forall|p: int, q: int| 0 <= p < q < post.len() implies (#[trigger] post[p]).id@ != (
        #[trigger] post[q]).id@ by {
            if q < s.len() {
                assert(s[p].id@ != s[q].id@);
            } else {
                assert(post[q] == h);
                assert(post[p] == s[p]);
                assert(!(s[p].id@ == h.id@)) by {
                    if s[p].id@ == h.id@ {
                        assert(has_entry(s, h.id@));
                    }
                }
            }
        }
        assert(post[s.len() as int] == h);
        lemma_entry_at(post, s.len() as int);
        assert forall|k: Seq<char>| k != h.id@ implies (#[trigger] has_entry(post, k) <==> has_entry(
            s,
            k,
        )) by {
            if has_entry(post, k) {
                let p = entry_ix(post, k);
                assert(post[p].id@ == k);
                assert(p != s.len());
                assert(s[p].id@ == k);
            }
            if has_entry(s, k) {
                let p = entry_ix(s, k);
                assert(post[p].id@ == k);
            }
        }
        assert forall|k: Seq<char>| k != h.id@ && has_entry(s, k) implies #[trigger] entry_of(
            post,
            k,
        ) == entry_of(s, k) by {
            let p = entry_ix(s, k);
            assert(0 <= p < s.len() && s[p].id@ == k);
            assert(post[p] == s[p]);
            lemma_entry_at(post, p);
            lemma_entry_at(s, p);
        }
    }
}

/// Setting a snapshot keeps ids unique, stores exactly `snap` under its
/// id, and leaves every other id's snapshot as it was.
pub proof fn lemma_upsert_snap(s: Seq<StatusSnapshot>, snap: StatusSnapshot)
    requires
        unique_snap_ids(s),
    ensures
        unique_snap_ids(upsert_snap(s, snap)),
        has_snap(upsert_snap(s, snap), snap.id@),
        snap_of(upsert_snap(s, snap), snap.id@) == snap,
        forall|k: Seq<char>|
            k != snap.id@ ==> (#[trigger] has_snap(upsert_snap(s, snap), k) <==> has_snap(s, k)),
        forall|k: Seq<char>|
            k != snap.id@ && has_snap(s, k) ==> #[trigger] snap_of(upsert_snap(s, snap), k)
                == snap_of(s, k),
{
    let post = upsert_snap(s, snap);
    if has_snap(s, snap.id@) {
        let i = snap_ix(s, snap.id@);
        assert(0 <= i < s.len() && s[i].id@ == snap.id@);
        assert(post == s.update(i, snap));
        assert forall|p: int, q: int| 0 <= p < q < post.len() implies (#[trigger] post[p]).id@ != (
        #[trigger] post[q]).id@ by {
            assert(s[p].id@ != s[q].id@);
        }
        assert(post[i] == snap);
        lemma_snap_at(post, i);
        assert forall|k: Seq<char>| k != snap.id@ implies (#[trigger] has_snap(post, k) <==> has_snap(
            s,
            k,
        )) by {
            if has_snap(post, k) {
                let p = snap_ix(post, k);
                assert(post[p].id@ == k);
                assert(p != i);
                assert(s[p].id@ == k);
            }
            if has_snap(s, k) {
                let p = snap_ix(s, k);
                assert(s[p].id@ == k);
                assert(p != i);
                assert(post[p].id@ == k);
            }
        }
        assert forall|k: Seq<char>| k != snap.id@ && has_snap(s, k) implies #[trigger] snap_of(
            post,
            k,
        ) == snap_of(s, k) by {
            let p = snap_ix(s, k);
            assert(0 <= p < s.len() && s[p].id@ == k);
            assert(p != i);
            assert(post[p] == s[p]);
            lemma_snap_at(post, p);
            lemma_snap_at(s, p);
        }
    } else {
        assert(post == s.push(snap));
        assert forall|p: int, q: int| 0 <= p < q < post.len() implies (#[trigger] post[p]).id@ != (
        #[trigger] post[q]).id@ by {
            if q < s.len() {
                assert(s[p].id@ != s[q].id@);
            } else {
                assert(post[q] == snap);
                assert(post[p] == s[p]);
                assert(!(s[p].id@ == snap.id@)) by {
                    if s[p].id@ == snap.id@ {
                        assert(has_snap(s, snap.id@));
                    }
                }
            }
        }
        assert(post[s.len() as int] == snap);
        lemma_snap_at(post, s.len() as int);
        assert forall|k: Seq<char>| k != snap.id@ implies (#[trigger] has_snap(post, k) <==> has_snap(
            s,
            k,
        )) by {
            if has_snap(post, k) {
                let p = snap_ix(post, k);
                assert(post[p].id@ == k);
                assert(p != s.len());
                assert(s[p].id@ == k);
            }
            if has_snap(s, k) {
                let p = snap_ix(s, k);
                assert(post[p].id@ == k);
            }
        }
        assert forall|k: Seq<char>| k != snap.id@ && has_snap(s, k) implies #[trigger] snap_of(
            post,
            k,
        ) == snap_of(s, k) by {
            let p = snap_ix(s, k);
            assert(0 <= p < s.len() && s[p].id@ == k);
            assert(post[p] == s[p]);
            lemma_snap_at(post, p);
            lemma_snap_at(s, p);
        }
    }
}

/// The handle a successful `start` installs: the request's descriptor with
/// cleared signals and the running flag set.
pub open spec fn started_handle(req: StartRequest) -> Handle {
    Handle {
        id: req.id,
        archive_url: req.archive_url,
        config_url: req.config_url,
        token: req.token,
        dest_dir: req.dest_dir,
        paused: false,
        cancelled: false,
        running: true,
    }
}

/// Whether a running handle for `id` exists: the condition under which
/// `start` and `resume` are rejected.
pub open spec fn running_for(s: Seq<Handle>, id: Seq<char>) -> bool {
    has_entry(s, id) && entry_of(s, id).running
}

/// The credential a hydrated transfer runs with: the one stored in the
/// record when it is present and not blank, else the caller-supplied
/// fallback. Only when both are blank is there no usable credential.
pub open spec fn stored_or_fallback(m: ResumeRecord, fallback: String) -> String {
    match m.token {
        Some(t) => if is_blank(t@) {
            fallback
        } else {
            t
        },
        None => fallback,
    }
}

/// The handle `resume` reconstructs from a resume record: the record's
/// descriptor with cleared signals and the running flag set.
pub open spec fn hydrated_handle(m: ResumeRecord, fallback: String) -> Handle {
    Handle {
        id: m.id,
        archive_url: m.archive_url,
        config_url: m.config_url,
        token: stored_or_fallback(m, fallback),
        dest_dir: m.dest_dir,
        paused: false,
        cancelled: false,
        running: true,
    }
}

/// The registry: in-flight handles and the latest snapshot per id, each
/// keyed by the transfer id.
pub struct Registry {
    /// The in-flight transfer handles.
    pub handles: Vec<Handle>,
    /// The latest observable progress per transfer id.
    pub snapshots: Vec<StatusSnapshot>,
}

impl Registry {
    /// Ids are unique among handles and among snapshots. Every command
    /// preserves this.
    pub open spec fn wf(self) -> bool {
        unique_handle_ids(self.handles@) && unique_snap_ids(self.snapshots@)
    }

    /// An empty registry.
    pub fn new() -> (r: Registry)
        ensures
            r.wf(),
            r.handles@ == Seq::<Handle>::empty(),
            r.snapshots@ == Seq::<StatusSnapshot>::empty(),
    {
        Registry { handles: Vec::new(), snapshots: Vec::new() }
    }

    /// The index of the handle for `id`, if one exists.
    fn find_handle(&self, id: &String) -> (r: Option<usize>)
        ensures
            match r {
                Some(i) => i < self.handles@.len() && self.handles@[i as int].id@ == id@,
                None => !has_entry(self.handles@, id@),
            },
    {
        let mut i: usize = 0;
        while i < self.handles.len()
            invariant
                i <= self.handles@.len(),
                forall|j: int| 0 <= j < i ==> (#[trigger] self.handles@[j]).id@ != id@,
            decreases self.handles@.len() - i,
        {
            if self.handles[i].id == *id {
                return Some(i);
            }
            i = i + 1;
        }
        None
    }

    /// The index of the snapshot for `id`, if one exists.
    fn find_snapshot(&self, id: &String) -> (r: Option<usize>)
        ensures
            match r {
                Some(i) => i < self.snapshots@.len() && self.snapshots@[i as int].id@ == id@,
                None => !has_snap(self.snapshots@, id@),
            },
    {
        let mut i: usize = 0;
        while i < self.snapshots.len()
            invariant
                i <= self.snapshots@.len(),
                forall|j: int| 0 <= j < i ==> (#[trigger] self.snapshots@[j]).id@ != id@,
            decreases self.snapshots@.len() - i,
        {
            if self.snapshots[i].id == *id {
                return Some(i);
            }
            i = i + 1;
        }
        None
    }

    /// Request a cooperative pause of the running transfer: the engine
    /// stops at the next chunk boundary, leaving the partial file and the
    /// resume record intact.
    pub fn pause(&mut self, id: &String) -> (r: Result<(), RegistryError>)
        requires
            old(self).wf(),
        ensures
            final(self).wf(),
            !has_entry(old(self).handles@, id@) ==> r == Err::<(), RegistryError>(
                RegistryError::NotFound,
            ) && *final(self) == *old(self),
            has_entry(old(self).handles@, id@) ==> r == Ok::<(), RegistryError>(())
                && final(self).handles@ == old(self).handles@.update(
                entry_ix(old(self).handles@, id@),
                (Handle { paused: true, ..entry_of(old(self).handles@, id@) }),
            ) && final(self).snapshots@ == old(self).snapshots@,
    {
        match self.find_handle(id) {
            None => Err(RegistryError::NotFound),
            Some(i) => {
                proof {
                    lemma_entry_at(self.handles@, i as int);
                }
                let updated = Handle { paused: true, ..self.handles[i].clone() };
                self.handles[i] = updated;
                proof {
                    assert forall|p: int, q: int|
                        0 <= p < q < self.handles@.len() implies (#[trigger] self.handles@[p]).id@
                        != (#[trigger] self.handles@[q]).id@ by {
                        assert(old(self).handles@[p].id@ != old(self).handles@[q].id@);
                    }
                }
                Ok(())
            },
        }
    }

    /// The pause and cancel signals for `id`, polled by the running engine
    /// at each chunk boundary. A removed handle reads as cancelled.
    pub fn signals(&self, id: &String) -> (r: (bool, bool))
        requires
            self.wf(),
        ensures
            has_entry(self.handles@, id@) ==> r == (
                entry_of(self.handles@, id@).paused,
                entry_of(self.handles@, id@).cancelled,
            ),
            !has_entry(self.handles@, id@) ==> r == (false, true),
    {
        match self.find_handle(id) {
            None => (false, true),
            Some(i) => {
                proof {
                    lemma_entry_at(self.handles@, i as int);
                }
                (self.handles[i].paused, self.handles[i].cancelled)
            },
        }
    }

    /// Start a fresh download: rejected when the credential is blank or a
    /// running transfer for the id exists; otherwise a handle with cleared
    /// signals and the running flag set is installed, the initial snapshot
    /// is published, and the id is returned.
    pub fn start(&mut self, req: StartRequest) -> (r: Result<String, RegistryError>)
        requires
            old(self).wf(),
        ensures
            final(self).wf(),
            is_blank(req.token@) ==> r == Err::<String, RegistryError>(RegistryError::MissingToken)
                && *final(self) == *old(self),
            !is_blank(req.token@) && running_for(old(self).handles@, req.id@) ==> r == Err::<
                String,
                RegistryError,
            >(RegistryError::AlreadyRunning) && *final(self) == *old(self),
            !is_blank(req.token@) && !running_for(old(self).handles@, req.id@) ==> (r matches Ok(rid)
                && rid@ == req.id@) && final(self).handles@ == upsert_handle(
                old(self).handles@,
                started_handle(req),
            ) && final(self).snapshots@ == upsert_snap(
                old(self).snapshots@,
                StatusSnapshot::initial_spec(req.id),
            ),
    {
        if str_is_blank(req.token.as_str()) {
            return Err(RegistryError::MissingToken);
        }
        let found = self.find_handle(&req.id);
        if let Some(i) = found {
            proof {
                lemma_entry_at(self.handles@, i as int);
            }
            if self.handles[i].running {
                return Err(RegistryError::AlreadyRunning);
            }
        }
        let rid = req.id.clone();
        let snap = StatusSnapshot::initial(req.id.clone());
        let h = Handle {
            id: req.id,
            archive_url: req.archive_url,
            config_url: req.config_url,
            token: req.token,
            dest_dir: req.dest_dir,
            paused: false,
            cancelled: false,
            running: true,
        };
        proof {
            lemma_upsert_handle(self.handles@, h);
            lemma_upsert_snap(self.snapshots@, snap);
        }
        match found {
            Some(i) => {
                self.handles[i] = h;
            },
            None => {
                self.handles.push(h);
            },
        }
        self.upsert_snapshot_inner(snap);
        Ok(rid)
    }

    /// Replace or append the snapshot for `snap.id`.
    fn upsert_snapshot_inner(&mut self, snap: StatusSnapshot)
        requires
            unique_snap_ids(old(self).snapshots@),
        ensures
            final(self).snapshots@ == upsert_snap(old(self).snapshots@, snap),
            final(self).handles@ == old(self).handles@,
            unique_snap_ids(final(self).snapshots@),
    {
        proof {
            lemma_upsert_snap(self.snapshots@, snap);
        }
        match self.find_snapshot(&snap.id) {
            Some(i) => {
                proof {
                    lemma_snap_at(self.snapshots@, i as int);
                }
                self.snapshots[i] = snap;
            },
            None => {
                self.snapshots.push(snap);
            },
        }
    }

    /// Publish the latest snapshot for a transfer; last write wins.
    pub fn update_snapshot(&mut self, snap: StatusSnapshot)
        requires
            old(self).wf(),
        ensures
            final(self).wf(),
            final(self).handles@ == old(self).handles@,
            final(self).snapshots@ == upsert_snap(old(self).snapshots@, snap),
    {
        self.upsert_snapshot_inner(snap);
    }

    /// Resume a suspended transfer. An in-memory handle is reused after
    /// clearing its signals; with none, the resume record read from the
    /// transfer directory is hydrated into a fresh handle, taking the
    /// stored credential when it is present and not blank, else the
    /// caller's fallback. Rejected when the transfer is already running,
    /// when neither handle nor record exists, or when both credentials are
    /// blank.
    pub fn resume(
        &mut self,
        id: &String,
        fallback_token: &String,
        disk: Option<ResumeRecord>,
    ) -> (r: Result<(), RegistryError>)
        requires
            old(self).wf(),
        ensures
            final(self).wf(),
            running_for(old(self).handles@, id@) ==> r == Err::<(), RegistryError>(
                RegistryError::AlreadyRunning,
            ) && *final(self) == *old(self),
            has_entry(old(self).handles@, id@) && !entry_of(old(self).handles@, id@).running ==> r
                == Ok::<(), RegistryError>(()) && final(self).handles@ == old(
                self,
            ).handles@.update(
                entry_ix(old(self).handles@, id@),
                (Handle {
                    paused: false,
                    cancelled: false,
                    running: true,
                    ..entry_of(old(self).handles@, id@)
                }),
            ) && final(self).snapshots@ == old(self).snapshots@,
            !has_entry(old(self).handles@, id@) && disk is None ==> r == Err::<(), RegistryError>(
                RegistryError::NotFound,
            ) && *final(self) == *old(self),
            !has_entry(old(self).handles@, id@) ==> (disk matches Some(m) ==> ((is_blank(
                stored_or_fallback(m, *fallback_token)@,
            ) ==> r == Err::<(), RegistryError>(RegistryError::MissingToken) && *final(self) == *old(
                self,
            )) && (!is_blank(stored_or_fallback(m, *fallback_token)@) ==> r == Ok::<
                (),
                RegistryError,
            >(()) && final(self).handles@ == upsert_handle(
                old(self).handles@,
                hydrated_handle(m, *fallback_token),
            ) && final(self).snapshots@ == old(self).snapshots@))),
    {
        match self.find_handle(id) {
            Some(i) => {
                proof {
                    lemma_entry_at(self.handles@, i as int);
                }
                if self.handles[i].running {
                    return Err(RegistryError::AlreadyRunning);
                }
                let updated = Handle {
                    paused: false,
                    cancelled: false,
                    running: true,
                    ..self.handles[i].clone()
                };
                self.handles[i] = updated;
                proof {
                    assert forall|p: int, q: int|
                        0 <= p < q < self.handles@.len() implies (#[trigger] self.handles@[p]).id@
                        != (#[trigger] self.handles@[q]).id@ by {
                        assert(old(self).handles@[p].id@ != old(self).handles@[q].id@);
                    }
                }
                Ok(())
            },
            None => {
                match disk {
                    None => Err(RegistryError::NotFound),
                    Some(m) => {
                        let ResumeRecord { id: mid, archive_url, config_url, dest_dir, token, total } =
                            m;
                        let tok = match token {
                            Some(t) => if str_is_blank(t.as_str()) {
                                fallback_token.clone()
                            } else {
                                t
                            },
                            None => fallback_token.clone(),
                        };
                        if str_is_blank(tok.as_str()) {
                            return Err(RegistryError::MissingToken);
                        }
                        let h = Handle {
                            id: mid,
                            archive_url,
                            config_url,
                            token: tok,
                            dest_dir,
                            paused: false,
                            cancelled: false,
                            running: true,
                        };
                        proof {
                            lemma_upsert_handle(self.handles@, h);
                        }
                        let found = self.find_handle(&h.id);
                        match found {
                            Some(i) => {
                                proof {
                                    lemma_entry_at(self.handles@, i as int);
                                }
                                self.handles[i] = h;
                            },
                            None => {
                                self.handles.push(h);
                            },
                        }
                        Ok(())
                    },
                }
            },
        }
    }

    /// Cancel a transfer: the handle and its snapshot are removed, and the
    /// removed handle is returned so its partial file and transfer
    /// directory can be deleted. A running engine observes the removal as
    /// the cancel signal.
    pub fn cancel(&mut self, id: &String) -> (r: Result<Handle, RegistryError>)
        requires
            old(self).wf(),
        ensures
            final(self).wf(),
            !has_entry(old(self).handles@, id@) ==> (r matches Err(e) && e
                == RegistryError::NotFound) && *final(self) == *old(self),
            has_entry(old(self).handles@, id@) ==> (r matches Ok(h) && h == entry_of(
                old(self).handles@,
                id@,
            )) && final(self).handles@ == old(self).handles@.remove(entry_ix(old(self).handles@, id@))
                && (has_snap(old(self).snapshots@, id@) ==> final(self).snapshots@ == old(
                self,
            ).snapshots@.remove(snap_ix(old(self).snapshots@, id@))) && (!has_snap(
                old(self).snapshots@,
                id@,
            ) ==> final(self).snapshots@ == old(self).snapshots@),
    {
        match self.find_handle(id) {
            None => Err(RegistryError::NotFound),
            Some(i) => {
                proof {
                    lemma_entry_at(self.handles@, i as int);
                    self.handles@.remove_ensures(i as int);
                }
                let h = self.handles.remove(i);
                proof {
                    assert forall|p: int, q: int|
                        0 <= p < q < self.handles@.len() implies (#[trigger] self.handles@[p]).id@
                        != (#[trigger] self.handles@[q]).id@ by {
                        let p0 = if p < i { p } else { p + 1 };
                        let q0 = if q < i { q } else { q + 1 };
                        assert(self.handles@[p] == old(self).handles@[p0]);
                        assert(self.handles@[q] == old(self).handles@[q0]);
                        assert(old(self).handles@[p0].id@ != old(self).handles@[q0].id@);
                    }
                }
                match self.find_snapshot(id) {
                    Some(j) => {
                        proof {
                            lemma_snap_at(self.snapshots@, j as int);
                            self.snapshots@.remove_ensures(j as int);
                        }
                        let _ = self.snapshots.remove(j);
                        proof {
                            assert forall|p: int, q: int|
                                0 <= p < q < self.snapshots@.len() implies (#[trigger] self.snapshots@[p]).id@
                                != (#[trigger] self.snapshots@[q]).id@ by {
                                let p0 = if p < j { p } else { p + 1 };
                                let q0 = if q < j { q } else { q + 1 };
                                assert(self.snapshots@[p] == old(self).snapshots@[p0]);
                                assert(self.snapshots@[q] == old(self).snapshots@[q0]);
                                assert(old(self).snapshots@[p0].id@ != old(self).snapshots@[q0].id@);
                            }
                        }
                    },
                    None => {},
                }
                Ok(h)
            },
        }
    }

    /// Clear the running flag when an engine run ends; a transfer whose
    /// handle is already gone needs nothing cleared.
    pub fn set_not_running(&mut self, id: &String)
        requires
            old(self).wf(),
        ensures
            final(self).wf(),
            final(self).snapshots@ == old(self).snapshots@,
            !has_entry(old(self).handles@, id@) ==> *final(self) == *old(self),
            has_entry(old(self).handles@, id@) ==> final(self).handles@ == old(
                self,
            ).handles@.update(
                entry_ix(old(self).handles@, id@),
                (Handle { running: false, ..entry_of(old(self).handles@, id@) }),
            ),
    {
        match self.find_handle(id) {
            None => {},
            Some(i) => {
                proof {
                    lemma_entry_at(self.handles@, i as int);
                }
                let updated = Handle { running: false, ..self.handles[i].clone() };
                self.handles[i] = updated;
                proof {
                    assert forall|p: int, q: int|
                        0 <= p < q < self.handles@.len() implies (#[trigger] self.handles@[p]).id@
                        != (#[trigger] self.handles@[q]).id@ by {
                        assert(old(self).handles@[p].id@ != old(self).handles@[q].id@);
                    }
                }
            },
        }
    }

    /// A copy of the handle for `id`, for the host that runs its engine.
    pub fn get_handle(&self, id: &String) -> (r: Option<Handle>)
        requires
            self.wf(),
        ensures
            has_entry(self.handles@, id@) ==> r == Some(entry_of(self.handles@, id@)),
            !has_entry(self.handles@, id@) ==> r is None,
    {
        match self.find_handle(id) {
            None => None,
            Some(i) => {
                proof {
                    lemma_entry_at(self.handles@, i as int);
                }
                Some(self.handles[i].clone())
            },
        }
    }

    /// Report every transfer: the live snapshots, then a paused snapshot
    /// for each transfer found only on disk, its `downloaded` the on-disk
    /// length of its partial archive.
    pub fn list(&self, disk: &Vec<DiskEntry>) -> (out: Vec<StatusSnapshot>)
        requires
            self.wf(),
        ensures
            out@ == list_spec(self.snapshots@, disk@),
    {
        let mut out: Vec<StatusSnapshot> = Vec::new();
        let mut i: usize = 0;
        while i < self.snapshots.len()
            invariant
                i <= self.snapshots@.len(),
                out@ == self.snapshots@.take(i as int),
            decreases self.snapshots@.len() - i,
        {
            out.push(self.snapshots[i].clone());
            proof {
                assert(self.snapshots@.take(i as int).push(self.snapshots@[i as int])
                    =~= self.snapshots@.take(i + 1));
            }
            i = i + 1;
        }
        proof {
            assert(self.snapshots@.take(self.snapshots@.len() as int) =~= self.snapshots@);
        }
        let mut d: usize = 0;
        while d < disk.len()
            invariant
                d <= disk@.len(),
                out@ == list_spec(self.snapshots@, disk@.take(d as int)),
            decreases disk@.len() - d,
        {
            proof {
                assert(disk@.take(d + 1).drop_last() =~= disk@.take(d as int));
                assert(disk@.take(d + 1).last() == disk@[d as int]);
            }
            if !vec_has_snap(&out, &disk[d].record.id) {
                out.push(
                    StatusSnapshot::from_disk(
                        disk[d].record.id.clone(),
                        disk[d].partial_len,
                        disk[d].record.total,
                    ),
                );
            }
            d = d + 1;
        }
        proof {
            assert(disk@.take(disk@.len() as int) =~= disk@);
        }
        out
    }

    /// A copy of the latest snapshot for `id`.
    pub fn get_snapshot(&self, id: &String) -> (r: Option<StatusSnapshot>)
        requires
            self.wf(),
        ensures
            has_snap(self.snapshots@, id@) ==> r == Some(snap_of(self.snapshots@, id@)),
            !has_snap(self.snapshots@, id@) ==> r is None,
    {
        match self.find_snapshot(id) {
            None => None,
            Some(i) => {
                proof {
                    lemma_snap_at(self.snapshots@, i as int);
                }
                Some(self.snapshots[i].clone())
            },
        }
    }
}

/// The snapshot `list` synthesizes for a transfer found only on disk.
pub open spec fn disk_snap(e: DiskEntry) -> StatusSnapshot {
    StatusSnapshot::from_disk_spec(e.record.id, e.partial_len, e.record.total)
}

/// The union `list` reports: every live snapshot, then — in order — a
/// paused snapshot for each disk entry whose id is not already reported.
pub open spec fn list_spec(live: Seq<StatusSnapshot>, disk: Seq<DiskEntry>) -> Seq<StatusSnapshot>
    decreases disk.len(),
{
    if disk.len() == 0 {
        live
    } else {
        let prev = list_spec(live, disk.drop_last());
        if has_snap(prev, disk.last().record.id@) {
            prev
        } else {
            prev.push(disk_snap(disk.last()))
        }
    }
}

/// An id is reported by `list` exactly when it is live or on disk.
pub proof fn lemma_list_ids(live: Seq<StatusSnapshot>, disk: Seq<DiskEntry>, k: Seq<char>)
    ensures
        has_snap(list_spec(live, disk), k) <==> (has_snap(live, k) || exists|j: int|
            0 <= j < disk.len() && (#[trigger] disk[j]).record.id@ == k),
    decreases disk.len(),
{
    if disk.len() > 0 {
        let sub = disk.drop_last();
        let e = disk.last();
        let prev = list_spec(live, sub);
        lemma_list_ids(live, sub, k);
        let post = list_spec(live, disk);
        if has_snap(prev, e.record.id@) {
            assert(post == prev);
            if has_snap(post, k) {
                if !has_snap(live, k) {
                    let j = choose|j: int| 0 <= j < sub.len() && (#[trigger] sub[j]).record.id@ == k;
                    assert(disk[j].record.id@ == k);
                }
            }
            if exists|j: int| 0 <= j < disk.len() && (#[trigger] disk[j]).record.id@ == k {
                let j = choose|j: int| 0 <= j < disk.len() && (#[trigger] disk[j]).record.id@ == k;
                if j < disk.len() - 1 {
                    assert(sub[j].record.id@ == k);
                } else {
                    assert(k == e.record.id@);
                    assert(has_snap(prev, k));
                }
                assert(has_snap(post, k));
            }
        } else {
            assert(post == prev.push(disk_snap(e)));
            assert(disk_snap(e).id@ == e.record.id@);
            if has_snap(post, k) {
                let p = snap_ix(post, k);
                assert(0 <= p < post.len() && post[p].id@ == k);
                if p < prev.len() {
                    assert(prev[p].id@ == k);
                    assert(has_snap(prev, k));
                    if !has_snap(live, k) {
                        let j = choose|j: int|
                            0 <= j < sub.len() && (#[trigger] sub[j]).record.id@ == k;
                        assert(disk[j].record.id@ == k);
                    }
                } else {
                    assert(k == e.record.id@);
                    assert(disk[disk.len() - 1].record.id@ == k);
                }
            }
            if has_snap(live, k) {
                assert(has_snap(prev, k));
                let p = snap_ix(prev, k);
                assert(post[p].id@ == k);
                assert(has_snap(post, k));
            }
            if exists|j: int| 0 <= j < disk.len() && (#[trigger] disk[j]).record.id@ == k {
                let j = choose|j: int| 0 <= j < disk.len() && (#[trigger] disk[j]).record.id@ == k;
                if j < disk.len() - 1 {
                    assert(sub[j].record.id@ == k);
                    assert(has_snap(prev, k));
                    let p = snap_ix(prev, k);
                    assert(post[p].id@ == k);
                } else {
                    assert(post[post.len() - 1].id@ == k);
                }
                assert(has_snap(post, k));
            }
        }
    }
}

/// The report never lists an id twice.
pub proof fn lemma_list_unique(live: Seq<StatusSnapshot>, disk: Seq<DiskEntry>)
    requires
        unique_snap_ids(live),
    ensures
        unique_snap_ids(list_spec(live, disk)),
    decreases disk.len(),
{
    if disk.len() > 0 {
        let sub = disk.drop_last();
        let e = disk.last();
        let prev = list_spec(live, sub);
        lemma_list_unique(live, sub);
        if !has_snap(prev, e.record.id@) {
            assert(upsert_snap(prev, disk_snap(e)) == prev.push(disk_snap(e)));
            lemma_upsert_snap(prev, disk_snap(e));
        }
    }
}

/// Every live snapshot appears in the report unchanged.
pub proof fn lemma_list_keeps_live(live: Seq<StatusSnapshot>, disk: Seq<DiskEntry>, k: Seq<char>)
    requires
        unique_snap_ids(live),
        has_snap(live, k),
    ensures
        has_snap(list_spec(live, disk), k),
        snap_of(list_spec(live, disk), k) == snap_of(live, k),
    decreases disk.len(),
{
    if disk.len() > 0 {
        let sub = disk.drop_last();
        let e = disk.last();
        let prev = list_spec(live, sub);
        lemma_list_keeps_live(live, sub, k);
        lemma_list_unique(live, sub);
        if !has_snap(prev, e.record.id@) {
            assert(k != disk_snap(e).id@);
            assert(upsert_snap(prev, disk_snap(e)) == prev.push(disk_snap(e)));
            lemma_upsert_snap(prev, disk_snap(e));
        }
    }
}

/// Restart safety of the report: a transfer that exists only on disk — no
/// live snapshot carries its id — is reported paused, with `downloaded`
/// equal to its partial file's on-disk length and `total` taken from its
/// record.
pub proof fn lemma_list_reports_disk_transfer(
    live: Seq<StatusSnapshot>,
    disk: Seq<DiskEntry>,
    i: int,
)
    requires
        unique_snap_ids(live),
        0 <= i < disk.len(),
        !has_snap(live, disk[i].record.id@),
        forall|j: int| 0 <= j < i ==> (#[trigger] disk[j]).record.id@ != disk[i].record.id@,
    ensures
        has_snap(list_spec(live, disk), disk[i].record.id@),
        snap_of(list_spec(live, disk), disk[i].record.id@) == disk_snap(disk[i]),
    decreases disk.len(),
{
    let id = disk[i].record.id@;
    let sub = disk.drop_last();
    let e = disk.last();
    let prev = list_spec(live, sub);
    lemma_list_unique(live, sub);
    if i == disk.len() - 1 {
        lemma_list_ids(live, sub, id);
        assert(!(exists|j: int| 0 <= j < sub.len() && (#[trigger] sub[j]).record.id@ == id)) by {
            if exists|j: int| 0 <= j < sub.len() && (#[trigger] sub[j]).record.id@ == id {
                let j = choose|j: int| 0 <= j < sub.len() && (#[trigger] sub[j]).record.id@ == id;
                assert(disk[j].record.id@ == id);
            }
        }
        assert(!has_snap(prev, id));
        assert(list_spec(live, disk) == prev.push(disk_snap(e)));
        assert(upsert_snap(prev, disk_snap(e)) == prev.push(disk_snap(e)));
        lemma_upsert_snap(prev, disk_snap(e));
        assert(disk_snap(e).id@ == id);
    } else {
        assert(sub[i] == disk[i]);
        lemma_list_reports_disk_transfer(live, sub, i);
        if !has_snap(prev, e.record.id@) {
            assert(e.record.id@ != id);
            assert(upsert_snap(prev, disk_snap(e)) == prev.push(disk_snap(e)));
            lemma_upsert_snap(prev, disk_snap(e));
        }
    }
}

/// Whether some snapshot in `v` carries the id `id`.
fn vec_has_snap(v: &Vec<StatusSnapshot>, id: &String) -> (r: bool)
    ensures
        r == has_snap(v@, id@),
{
    let mut i: usize = 0;
    while i < v.len()
        invariant
            i <= v@.len(),
            forall|j: int| 0 <= j < i ==> (#[trigger] v@[j]).id@ != id@,
        decreases v@.len() - i,
    {
        if v[i].id == *id {
            return true;
        }
        i = i + 1;
    }
    false
}

/// Mutual exclusion of starts: once a start for an id has succeeded, the
/// registry holds a running handle for that id, so a second start (or
/// resume) of the same id is the rejected one — `start`'s contract turns
/// `running_for` into the `AlreadyRunning` error and leaves the registry
/// unchanged.
pub proof fn lemma_start_excludes_second_start(
    s: Seq<Handle>,
    req: StartRequest,
    second_id: Seq<char>,
)
    requires
        unique_handle_ids(s),
        second_id == req.id@,
    ensures
        running_for(upsert_handle(s, started_handle(req)), second_id),
{
    lemma_upsert_handle(s, started_handle(req));
}

} // verus!
