//! The observable progress model: a status tag for each state of the
//! download state machine and the snapshot that observers poll.

use vstd::prelude::*;

verus! {

/// The externally visible state of a download.
///
/// `Downloading`, `Installing`, `Paused` and `Error` are live or suspended
/// states; `Cancelled` and `Completed` are terminal. `Error` carries a
/// human-readable reason.
#[derive(Debug)]
pub enum StatusTag {
    Downloading,
    Paused,
    Cancelled,
    Installing,
    Completed,
    Error(String),
}

impl Clone for StatusTag {
    fn clone(&self) -> (r: StatusTag)
        ensures
            r == *self,
    {
        match self {
            StatusTag::Downloading => StatusTag::Downloading,
            StatusTag::Paused => StatusTag::Paused,
            StatusTag::Cancelled => StatusTag::Cancelled,
            StatusTag::Installing => StatusTag::Installing,
            StatusTag::Completed => StatusTag::Completed,
            StatusTag::Error(msg) => StatusTag::Error(msg.clone()),
        }
    }
}

impl StatusTag {
    /// The wire label of this tag: the bare word for every state, and
    /// `error:` followed by the reason for `Error`.
    pub fn label(&self) -> (r: String)
        ensures
            r@ == self.label_spec(),
    {
        proof {
            reveal_strlit("downloading");
            reveal_strlit("paused");
            reveal_strlit("cancelled");
            reveal_strlit("installing");
            reveal_strlit("completed");
            reveal_strlit("error:");
        }
        match self {
            StatusTag::Downloading => "downloading".to_owned(),
            StatusTag::Paused => "paused".to_owned(),
            StatusTag::Cancelled => "cancelled".to_owned(),
            StatusTag::Installing => "installing".to_owned(),
            StatusTag::Completed => "completed".to_owned(),
            StatusTag::Error(msg) => "error:".to_owned().concat(msg.as_str()),
        }
    }

    pub open spec fn label_spec(self) -> Seq<char> {
        match self {
            StatusTag::Downloading => "downloading"@,
            StatusTag::Paused => "paused"@,
            StatusTag::Cancelled => "cancelled"@,
            StatusTag::Installing => "installing"@,
            StatusTag::Completed => "completed"@,
            StatusTag::Error(msg) => "error:"@ + msg@,
        }
    }
}

/// The latest observable progress of one transfer. Last-write-wins; no
/// history is retained beyond the current snapshot.
#[derive(Debug)]
pub struct StatusSnapshot {
    /// The transfer this snapshot belongs to.
    pub id: String,
    /// Bytes of the archive present on disk so far.
    pub downloaded: u64,
    /// Total bytes of the archive, unknown until the first response header
    /// arrives.
    pub total: Option<u64>,
    /// The state of the download state machine.
    pub status: StatusTag,
    /// Current speed in bytes per second over the last emission window.
    pub speed_bps: u64,
}

impl Clone for StatusSnapshot {
    fn clone(&self) -> (r: StatusSnapshot)
        ensures
            r == *self,
    {
        StatusSnapshot {
            id: self.id.clone(),
            downloaded: self.downloaded,
            total: self.total,
            status: self.status.clone(),
            speed_bps: self.speed_bps,
        }
    }
}

impl StatusSnapshot {
    /// The snapshot recorded when a transfer starts, before any byte or
    /// header has arrived.
    pub open spec fn initial_spec(id: String) -> StatusSnapshot {
        StatusSnapshot { id, downloaded: 0, total: None, status: StatusTag::Downloading, speed_bps: 0 }
    }

    /// See [`StatusSnapshot::initial_spec`].
    pub fn initial(id: String) -> (r: StatusSnapshot)
        ensures
            r == StatusSnapshot::initial_spec(id),
    {
        StatusSnapshot {
            id,
            downloaded: 0,
            total: None,
            status: StatusTag::Downloading,
            speed_bps: 0,
        }
    }

    /// The snapshot synthesized for a transfer that exists only on disk: a
    /// resume record with `total` beside a partial archive of `partial_len`
    /// bytes, reported as paused.
    pub open spec fn from_disk_spec(id: String, partial_len: u64, total: Option<u64>) -> StatusSnapshot {
        StatusSnapshot { id, downloaded: partial_len, total, status: StatusTag::Paused, speed_bps: 0 }
    }

    /// See [`StatusSnapshot::from_disk_spec`].
    pub fn from_disk(id: String, partial_len: u64, total: Option<u64>) -> (r: StatusSnapshot)
        ensures
            r == StatusSnapshot::from_disk_spec(id, partial_len, total),
    {
        StatusSnapshot { id, downloaded: partial_len, total, status: StatusTag::Paused, speed_bps: 0 }
    }
}

} // verus!
