//! The download engine: a byte-range-resumable fetch loop modelled as an
//! explicit state machine. Each decision point of the loop — what to
//! request, how to treat the response status, what to do with each body
//! chunk under the pause/cancel signals, and how the run ends — is a
//! verified transition; the surrounding process performs the network and
//! file work each transition calls for.

use vstd::prelude::*;

use crate::status::{StatusSnapshot, StatusTag};
use crate::text::{dec_rep, u64_to_dec};

verus! {

/// The value of the `Range` header a resuming request carries: the bytes
/// from `offset` to the end.
pub fn range_header_value(offset: u64) -> (r: String)
    ensures
        r@ == "bytes="@ + dec_rep(offset as nat) + "-"@,
{
    "bytes=".to_owned().concat(u64_to_dec(offset).as_str()).concat("-")
}

/// A reason a download run ends in the terminal `Error` status, with its
/// fixed human-readable message.
#[derive(Clone, Copy, Debug, PartialEq, Eq, Structural)]
pub enum EngineError {
    MissingToken,
    CreateDir,
    FetchConfig,
    ReadConfig,
    WriteConfig,
    ProbePartial,
    StartDownload,
    OpenFile,
    StreamChunk,
    WriteFile,
    Flush,
    CreateContentDir,
    OpenArchive,
    Extract,
}

impl EngineError {
    /// The message surfaced through the terminal `Error` status.
    pub fn message(&self) -> (r: String)
        ensures
            r@ == self.message_spec(),
    {
        proof {
            reveal_strlit("Missing auth token.");
            reveal_strlit("Failed to create app directory.");
            reveal_strlit("Failed to download config.");
            reveal_strlit("Failed to read config.");
            reveal_strlit("Failed to write config.");
            reveal_strlit("Failed to read download file.");
            reveal_strlit("Failed to start download.");
            reveal_strlit("Failed to open download file.");
            reveal_strlit("Failed while downloading.");
            reveal_strlit("Failed to write download.");
            reveal_strlit("Failed to finalize download.");
            reveal_strlit("Failed to create content directory.");
            reveal_strlit("Failed to open archive.");
            reveal_strlit("Failed to extract archive.");
        }
        match self {
            EngineError::MissingToken => "Missing auth token.".to_owned(),
            EngineError::CreateDir => "Failed to create app directory.".to_owned(),
            EngineError::FetchConfig => "Failed to download config.".to_owned(),
            EngineError::ReadConfig => "Failed to read config.".to_owned(),
            EngineError::WriteConfig => "Failed to write config.".to_owned(),
            EngineError::ProbePartial => "Failed to read download file.".to_owned(),
            EngineError::StartDownload => "Failed to start download.".to_owned(),
            EngineError::OpenFile => "Failed to open download file.".to_owned(),
            EngineError::StreamChunk => "Failed while downloading.".to_owned(),
            EngineError::WriteFile => "Failed to write download.".to_owned(),
            EngineError::Flush => "Failed to finalize download.".to_owned(),
            EngineError::CreateContentDir => "Failed to create content directory.".to_owned(),
            EngineError::OpenArchive => "Failed to open archive.".to_owned(),
            EngineError::Extract => "Failed to extract archive.".to_owned(),
        }
    }

    pub open spec fn message_spec(self) -> Seq<char> {
        match self {
            EngineError::MissingToken => "Missing auth token."@,
            EngineError::CreateDir => "Failed to create app directory."@,
            EngineError::FetchConfig => "Failed to download config."@,
            EngineError::ReadConfig => "Failed to read config."@,
            EngineError::WriteConfig => "Failed to write config."@,
            EngineError::ProbePartial => "Failed to read download file."@,
            EngineError::StartDownload => "Failed to start download."@,
            EngineError::OpenFile => "Failed to open download file."@,
            EngineError::StreamChunk => "Failed while downloading."@,
            EngineError::WriteFile => "Failed to write download."@,
            EngineError::Flush => "Failed to finalize download."@,
            EngineError::CreateContentDir => "Failed to create content directory."@,
            EngineError::OpenArchive => "Failed to open archive."@,
            EngineError::Extract => "Failed to extract archive."@,
        }
    }
}

/// Where a download run stands.
#[derive(Clone, Copy, Debug, PartialEq, Eq, Structural)]
pub enum Phase {
    /// The archive request is being issued; the offset is settled.
    Probing,
    /// Body chunks are being consumed and appended to the partial file.
    Streaming,
    /// The stream ended; the archive is being extracted.
    Installing,
    /// Terminal: extraction succeeded, partial file and record removed.
    Completed,
    /// Terminal: the cancel signal was observed; the registry removes files.
    Cancelled,
    /// Suspended: the pause signal was observed; partial file and record
    /// stay on disk for a later resume.
    Paused,
    /// Terminal for this run: an I/O or network failure; resumable state
    /// stays on disk.
    Failed(EngineError),
}

/// What the engine asks the host to do with the archive response.
#[derive(Clone, Copy, Debug, PartialEq, Eq, Structural)]
pub enum ResponseAction {
    /// The server answered 416 to the ranged request: every byte is already
    /// on disk. Skip the body and extract at once.
    AlreadyComplete,
    /// The server answered 200 to a ranged request, ignoring the range: the
    /// partial file cannot be trusted. Delete it and stream from scratch.
    DiscardAndRestart,
    /// Stream the body and append it to the partial file.
    Proceed,
}

/// What the engine decided at a chunk boundary.
#[derive(Clone, Copy, Debug, PartialEq, Eq, Structural)]
pub enum ChunkOutcome {
    /// The cancel signal was set: stop without writing the chunk.
    StopCancelled,
    /// The pause signal was set: stop without writing the chunk.
    StopPaused,
    /// Append the chunk to the partial file.
    Append,
}

/// One resumable download run over a single archive.
///
/// `downloaded` mirrors the length of the partial file on disk: the host
/// appends a chunk exactly when a transition says so, so the two advance in
/// lock step.
pub struct Engine {
    /// The transfer id.
    pub id: String,
    /// The length of the partial file when the archive request was planned:
    /// the start of the requested byte range.
    pub offset: u64,
    /// Bytes of the archive on disk now.
    pub downloaded: u64,
    /// Total bytes of the archive, once the response headers settled it.
    pub total: Option<u64>,
    /// Where the run stands.
    pub phase: Phase,
}

/// The `total` a response settles: the advertised content length plus the
/// bytes already on disk (the content length alone for a fresh download),
/// unknown when the server omits the header.
pub open spec fn settled_total(offset: u64, content_length: Option<u64>) -> Option<u64> {
    match content_length {
        Some(len) => Some(
            if offset + len <= u64::MAX {
                (offset + len) as u64
            } else {
                u64::MAX
            },
        ),
        None => None,
    }
}

/// The transition taken on the archive response status.
pub open spec fn on_response_spec(e: Engine, http_status: u16, content_length: Option<u64>) -> (
    Engine,
    ResponseAction,
) {
    if http_status == 416 {
        (
            Engine {
                downloaded: e.offset,
                total: Some(e.offset),
                phase: Phase::Installing,
                ..e
            },
            ResponseAction::AlreadyComplete,
        )
    } else if e.offset > 0 && http_status == 200 {
        (
            Engine {
                offset: 0,
                downloaded: 0,
                total: settled_total(0, content_length),
                phase: Phase::Streaming,
                ..e
            },
            ResponseAction::DiscardAndRestart,
        )
    } else {
        (
            Engine {
                downloaded: e.offset,
                total: settled_total(e.offset, content_length),
                phase: Phase::Streaming,
                ..e
            },
            ResponseAction::Proceed,
        )
    }
}

/// The transition taken at a chunk boundary: the cancel signal is checked
/// first, then the pause signal, and only then is the chunk appended.
pub open spec fn on_chunk_spec(e: Engine, len: usize, paused: bool, cancelled: bool) -> (
    Engine,
    ChunkOutcome,
) {
    if cancelled {
        (Engine { phase: Phase::Cancelled, ..e }, ChunkOutcome::StopCancelled)
    } else if paused {
        (Engine { phase: Phase::Paused, ..e }, ChunkOutcome::StopPaused)
    } else {
        (
            Engine {
                downloaded: if e.downloaded + len <= u64::MAX {
                    (e.downloaded + len) as u64
                } else {
                    u64::MAX
                },
                ..e
            },
            ChunkOutcome::Append,
        )
    }
}

/// The run [`Engine::start`] begins over a partial file of the given
/// length.
pub open spec fn start_spec(id: String, partial_len: Option<u64>) -> Engine {
    Engine {
        id,
        offset: partial_len.unwrap_or(0),
        downloaded: partial_len.unwrap_or(0),
        total: None,
        phase: Phase::Probing,
    }
}

/// The start of the byte range [`Engine::range_start`] plans.
pub open spec fn range_start_spec(e: Engine) -> Option<u64> {
    if e.offset > 0 {
        Some(e.offset)
    } else {
        None
    }
}

impl Engine {
    /// A run over the transfer `id` whose partial file holds `partial_len`
    /// bytes (`None` when no partial file exists): the byte range it will
    /// request starts exactly at the on-disk length.
    pub fn start(id: String, partial_len: Option<u64>) -> (r: Engine)
        ensures
            r == start_spec(id, partial_len),
    {
        let offset: u64 = match partial_len {
            Some(n) => n,
            None => 0,
        };
        Engine { id, offset, downloaded: offset, total: None, phase: Phase::Probing }
    }

    /// The start of the byte range to request: `Some(offset)` when a partial
    /// file exists, so the server is asked for `bytes=offset-`; `None` for a
    /// full fetch.
    pub fn range_start(&self) -> (r: Option<u64>)
        ensures
            r == range_start_spec(*self),
    {
        if self.offset > 0 {
            Some(self.offset)
        } else {
            None
        }
    }

    /// Resolve the archive response: 416 short-circuits to extraction with
    /// every byte already on disk; 200 despite a ranged request discards the
    /// partial file and restarts from zero, so mismatched bytes are never
    /// concatenated; anything else streams with `total` settled from the
    /// content length.
    pub fn on_response(&mut self, http_status: u16, content_length: Option<u64>) -> (r:
        ResponseAction)
        requires
            old(self).phase is Probing,
        ensures
            (*final(self), r) == on_response_spec(*old(self), http_status, content_length),
    {
        if http_status == 416 {
            self.downloaded = self.offset;
            self.total = Some(self.offset);
            self.phase = Phase::Installing;
            ResponseAction::AlreadyComplete
        } else if self.offset > 0 && http_status == 200 {
            self.offset = 0;
            self.downloaded = 0;
            self.total = content_length;
            self.phase = Phase::Streaming;
            ResponseAction::DiscardAndRestart
        } else {
            self.downloaded = self.offset;
            self.total = match content_length {
                Some(len) => Some(len.saturating_add(self.offset)),
                None => None,
            };
            self.phase = Phase::Streaming;
            ResponseAction::Proceed
        }
    }

    /// Decide what to do with the next body chunk of `len` bytes under the
    /// current signals. On `Append` the host writes the chunk to the
    /// partial file; on either stop outcome the chunk is dropped and the
    /// run leaves the streaming phase.
    pub fn on_chunk(&mut self, len: usize, paused: bool, cancelled: bool) -> (r: ChunkOutcome)
        requires
            old(self).phase is Streaming,
        ensures
            (*final(self), r) == on_chunk_spec(*old(self), len, paused, cancelled),
    {
        if cancelled {
            self.phase = Phase::Cancelled;
            ChunkOutcome::StopCancelled
        } else if paused {
            self.phase = Phase::Paused;
            ChunkOutcome::StopPaused
        } else {
            self.downloaded = self.downloaded.saturating_add(len as u64);
            ChunkOutcome::Append
        }
    }

    /// The body ended normally: move to extraction.
    pub fn on_stream_end(&mut self)
        requires
            old(self).phase is Streaming,
        ensures
            *final(self) == (Engine { phase: Phase::Installing, ..*old(self) }),
    {
        self.phase = Phase::Installing;
    }

    /// Extraction finished: on success the run is complete and the partial
    /// file and resume record are to be removed; on failure the run ends in
    /// the terminal error.
    pub fn on_extracted(&mut self, ok: bool)
        requires
            old(self).phase is Installing,
        ensures
            ok ==> *final(self) == (Engine { phase: Phase::Completed, ..*old(self) }),
            !ok ==> *final(self) == (Engine {
                phase: Phase::Failed(EngineError::Extract),
                ..*old(self)
            }),
    {
        if ok {
            self.phase = Phase::Completed;
        } else {
            self.phase = Phase::Failed(EngineError::Extract);
        }
    }

    /// An I/O or network failure ended the run; resumable state stays on
    /// disk.
    pub fn on_io_error(&mut self, err: EngineError)
        ensures
            *final(self) == (Engine { phase: Phase::Failed(err), ..*old(self) }),
    {
        self.phase = Phase::Failed(err);
    }

    /// Whether `t` is the status tag observers should see for this phase:
    /// both fetch phases read as downloading, and a failed run reads as the
    /// error with its fixed message.
    pub open spec fn phase_shows(self, t: StatusTag) -> bool {
        match self.phase {
            Phase::Probing => t is Downloading,
            Phase::Streaming => t is Downloading,
            Phase::Installing => t is Installing,
            Phase::Completed => t is Completed,
            Phase::Cancelled => t is Cancelled,
            Phase::Paused => t is Paused,
            Phase::Failed(err) => t matches StatusTag::Error(m) && m@ == err.message_spec(),
        }
    }

    /// The status tag observers see for the current phase.
    pub fn status_tag(&self) -> (r: StatusTag)
        ensures
            self.phase_shows(r),
    {
        match self.phase {
            Phase::Probing => StatusTag::Downloading,
            Phase::Streaming => StatusTag::Downloading,
            Phase::Installing => StatusTag::Installing,
            Phase::Completed => StatusTag::Completed,
            Phase::Cancelled => StatusTag::Cancelled,
            Phase::Paused => StatusTag::Paused,
            Phase::Failed(err) => StatusTag::Error(err.message()),
        }
    }

    /// The snapshot to publish for the current phase, carrying the given
    /// momentary speed.
    pub fn snapshot(&self, speed_bps: u64) -> (r: StatusSnapshot)
        ensures
            r.id == self.id,
            r.downloaded == self.downloaded,
            r.total == self.total,
            self.phase_shows(r.status),
            r.speed_bps == speed_bps,
    {
        StatusSnapshot {
            id: self.id.clone(),
            downloaded: self.downloaded,
            total: self.total,
            status: self.status_tag(),
            speed_bps,
        }
    }
}

} // verus!
