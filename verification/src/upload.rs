//! The archive packaging and upload engine's decisions: request
//! validation, the total-size computation for percentage math, the
//! byte-counting progress model of both the compressing and the uploading
//! stage, and the stage labels.

use vstd::prelude::*;

use crate::progress::elapsed_since;
use crate::text::{is_blank, str_is_blank};
use crate::UPLOAD_EMIT_INTERVAL_MS;

verus! {

/// A reason an upload fails, with its fixed message; `HttpStatus` carries
/// the status code of a non-success response.
#[derive(Clone, Copy, Debug, PartialEq, Eq, Structural)]
pub enum UploadError {
    MissingToken,
    MissingId,
    MissingConfig,
    MissingFolder,
    FolderNotFound,
    PrepareTempDir,
    CreateArchive,
    ReadFolder,
    ArchivePath,
    AddFolder,
    ReadFileMeta,
    ReadFile,
    AddFile,
    FinalizeArchive,
    ReadArchiveSize,
    OpenArchive,
    ArchiveType,
    Unreachable,
    HttpStatus(u16),
}

impl UploadError {
    /// The message surfaced to the caller.
    pub fn message(&self) -> (r: String)
        ensures
            r@ == self.message_spec(),
    {
        proof {
            reveal_strlit("Missing auth token.");
            reveal_strlit("Missing app id.");
            reveal_strlit("Missing config.");
            reveal_strlit("Missing folder.");
            reveal_strlit("Folder not found.");
            reveal_strlit("Failed to prepare temp folder.");
            reveal_strlit("Failed to create archive.");
            reveal_strlit("Failed to read folder.");
            reveal_strlit("Failed to build archive path.");
            reveal_strlit("Failed to add folder to archive.");
            reveal_strlit("Failed to read file for archive.");
            reveal_strlit("Failed to read file size.");
            reveal_strlit("Failed to add file to archive.");
            reveal_strlit("Failed to finalize archive.");
            reveal_strlit("Failed to read archive size.");
            reveal_strlit("Failed to open archive.");
            reveal_strlit("Failed to set archive type.");
            reveal_strlit("Upload failed.");
            reveal_strlit("Upload failed (HTTP ");
            reveal_strlit(").");
        }
        match self {
            UploadError::MissingToken => "Missing auth token.".to_owned(),
            UploadError::MissingId => "Missing app id.".to_owned(),
            UploadError::MissingConfig => "Missing config.".to_owned(),
            UploadError::MissingFolder => "Missing folder.".to_owned(),
            UploadError::FolderNotFound => "Folder not found.".to_owned(),
            UploadError::PrepareTempDir => "Failed to prepare temp folder.".to_owned(),
            UploadError::CreateArchive => "Failed to create archive.".to_owned(),
            UploadError::ReadFolder => "Failed to read folder.".to_owned(),
            UploadError::ArchivePath => "Failed to build archive path.".to_owned(),
            UploadError::AddFolder => "Failed to add folder to archive.".to_owned(),
            UploadError::ReadFileMeta => "Failed to read file for archive.".to_owned(),
            UploadError::ReadFile => "Failed to read file size.".to_owned(),
            UploadError::AddFile => "Failed to add file to archive.".to_owned(),
            UploadError::FinalizeArchive => "Failed to finalize archive.".to_owned(),
            UploadError::ReadArchiveSize => "Failed to read archive size.".to_owned(),
            UploadError::OpenArchive => "Failed to open archive.".to_owned(),
            UploadError::ArchiveType => "Failed to set archive type.".to_owned(),
            UploadError::Unreachable => "Upload failed.".to_owned(),
            UploadError::HttpStatus(code) => "Upload failed (HTTP ".to_owned().concat(
                crate::text::u64_to_dec(*code as u64).as_str(),
            ).concat(")."),
        }
    }

    pub open spec fn message_spec(self) -> Seq<char> {
        match self {
            UploadError::MissingToken => "Missing auth token."@,
            UploadError::MissingId => "Missing app id."@,
            UploadError::MissingConfig => "Missing config."@,
            UploadError::MissingFolder => "Missing folder."@,
            UploadError::FolderNotFound => "Folder not found."@,
            UploadError::PrepareTempDir => "Failed to prepare temp folder."@,
            UploadError::CreateArchive => "Failed to create archive."@,
            UploadError::ReadFolder => "Failed to read folder."@,
            UploadError::ArchivePath => "Failed to build archive path."@,
            UploadError::AddFolder => "Failed to add folder to archive."@,
            UploadError::ReadFileMeta => "Failed to read file for archive."@,
            UploadError::ReadFile => "Failed to read file size."@,
            UploadError::AddFile => "Failed to add file to archive."@,
            UploadError::FinalizeArchive => "Failed to finalize archive."@,
            UploadError::ReadArchiveSize => "Failed to read archive size."@,
            UploadError::OpenArchive => "Failed to open archive."@,
            UploadError::ArchiveType => "Failed to set archive type."@,
            UploadError::Unreachable => "Upload failed."@,
            UploadError::HttpStatus(code) => "Upload failed (HTTP "@ + crate::text::dec_rep(
                code as nat,
            ) + ")."@,
        }
    }
}

/// What a caller supplies to upload a folder as an archive.
pub struct UploadRequest {
    /// The server's address.
    pub server_ip: String,
    /// The server's port.
    pub server_port: String,
    /// The authorization credential.
    pub token: String,
    /// The transfer id.
    pub id: String,
    /// The archive's metadata text.
    pub config_text: String,
    /// The folder to package.
    pub folder_path: String,
}

/// The stage of an upload, as reported to observers.
#[derive(Clone, Copy, Debug, PartialEq, Eq, Structural)]
pub enum UploadStage {
    /// The source folder is being packaged into the archive.
    Compressing,
    /// The archive is being transmitted.
    Uploading,
    /// The upload finished successfully.
    Done,
    /// The upload failed.
    Error,
}

impl UploadStage {
    /// The wire label of this stage.
    pub fn label(&self) -> (r: String)
        ensures
            r@ == self.label_spec(),
    {
        proof {
            reveal_strlit("compressing");
            reveal_strlit("uploading");
            reveal_strlit("done");
            reveal_strlit("error");
        }
        match self {
            UploadStage::Compressing => "compressing".to_owned(),
            UploadStage::Uploading => "uploading".to_owned(),
            UploadStage::Done => "done".to_owned(),
            UploadStage::Error => "error".to_owned(),
        }
    }

    pub open spec fn label_spec(self) -> Seq<char> {
        match self {
            UploadStage::Compressing => "compressing"@,
            UploadStage::Uploading => "uploading"@,
            UploadStage::Done => "done"@,
            UploadStage::Error => "error"@,
        }
    }
}

/// One progress event of an upload: bytes handled so far out of the
/// stage's total, with the integer percentage.
pub struct UploadProgress {
    /// The transfer id.
    pub id: String,
    /// Bytes handled so far in the current stage.
    pub sent: u64,
    /// The stage's total, floored to one so a ratio is always defined.
    pub total: u64,
    /// `sent` out of `total`, in whole percent.
    pub percent: u64,
}

/// A zero total counts as one, so the ratio is defined even for an empty
/// folder.
pub open spec fn floor_one(total: u64) -> u64 {
    if total == 0 {
        1
    } else {
        total
    }
}

/// The whole-percent ratio of `sent` to the floored total.
pub open spec fn percent_spec(sent: u64, total: u64) -> u64 {
    if sent * 100 / (floor_one(total) as int) > u64::MAX {
        u64::MAX
    } else {
        (sent * 100 / (floor_one(total) as int)) as u64
    }
}

/// The whole-percent ratio of `sent` to the floored `total`.
pub fn percent_of(sent: u64, total: u64) -> (r: u64)
    ensures
        r == percent_spec(sent, total),
{
    let t: u64 = if total == 0 {
        1
    } else {
        total
    };
    let q: u128 = (sent as u128) * 100 / (t as u128);
    if q > u64::MAX as u128 {
        u64::MAX
    } else {
        q as u64
    }
}

/// Reject an upload whose credential, id, metadata or folder is blank, or
/// whose folder does not exist, in that order; accept it otherwise.
pub fn validate_upload(req: &UploadRequest, folder_exists: bool) -> (r: Result<(), UploadError>)
    ensures
        is_blank(req.token@) ==> r == Err::<(), UploadError>(UploadError::MissingToken),
        !is_blank(req.token@) && is_blank(req.id@) ==> r == Err::<(), UploadError>(
            UploadError::MissingId,
        ),
        !is_blank(req.token@) && !is_blank(req.id@) && is_blank(req.config_text@) ==> r == Err::<
            (),
            UploadError,
        >(UploadError::MissingConfig),
        !is_blank(req.token@) && !is_blank(req.id@) && !is_blank(req.config_text@) && is_blank(
            req.folder_path@,
        ) ==> r == Err::<(), UploadError>(UploadError::MissingFolder),
        !is_blank(req.token@) && !is_blank(req.id@) && !is_blank(req.config_text@) && !is_blank(
            req.folder_path@,
        ) && !folder_exists ==> r == Err::<(), UploadError>(UploadError::FolderNotFound),
        !is_blank(req.token@) && !is_blank(req.id@) && !is_blank(req.config_text@) && !is_blank(
            req.folder_path@,
        ) && folder_exists ==> r == Ok::<(), UploadError>(()),
{
    if str_is_blank(req.token.as_str()) {
        Err(UploadError::MissingToken)
    } else if str_is_blank(req.id.as_str()) {
        Err(UploadError::MissingId)
    } else if str_is_blank(req.config_text.as_str()) {
        Err(UploadError::MissingConfig)
    } else if str_is_blank(req.folder_path.as_str()) {
        Err(UploadError::MissingFolder)
    } else if !folder_exists {
        Err(UploadError::FolderNotFound)
    } else {
        Ok(())
    }
}

/// The exact sum of a sequence of sizes.
pub open spec fn size_sum(s: Seq<u64>) -> int
    decreases s.len(),
{
    if s.len() == 0 {
        0
    } else {
        size_sum(s.drop_last()) + s.last()
    }
}

/// The total byte size of the regular files to package: their sizes
/// summed, saturating at the largest representable size.
pub fn total_size(sizes: &Vec<u64>) -> (r: u64)
    ensures
        size_sum(sizes@) <= u64::MAX ==> r == size_sum(sizes@),
        size_sum(sizes@) > u64::MAX ==> r == u64::MAX,
{
    let mut total: u64 = 0;
    let mut i: usize = 0;
    proof {
        lemma_size_sum_nonneg(sizes@.take(0));
    }
    while i < sizes.len()
        invariant
            i <= sizes@.len(),
            size_sum(sizes@.take(i as int)) <= u64::MAX ==> total == size_sum(
                sizes@.take(i as int),
            ),
            size_sum(sizes@.take(i as int)) > u64::MAX ==> total == u64::MAX,
        decreases sizes@.len() - i,
    {
        proof {
            assert(sizes@.take(i + 1).drop_last() =~= sizes@.take(i as int));
            assert(sizes@.take(i + 1).last() == sizes@[i as int]);
            lemma_size_sum_nonneg(sizes@.take(i as int));
        }
        total = total.saturating_add(sizes[i]);
        i = i + 1;
    }
    proof {
        assert(sizes@.take(sizes@.len() as int) =~= sizes@);
    }
    total
}

pub proof fn lemma_size_sum_nonneg(s: Seq<u64>)
    ensures
        size_sum(s) >= 0,
    decreases s.len(),
{
    if s.len() > 0 {
        lemma_size_sum_nonneg(s.drop_last());
    }
}

/// One upload run: the stage it stands in, the bytes handled so far in
/// that stage, the stage's total, and the time of the last throttled
/// event. The stage-changing transitions are guarded, so the mandatory
/// events of a run can only come in order: the packaging progress while
/// compressing, one full-total packaging event moving to uploading with
/// the count reset, per-chunk transmission events, and one full-archive
/// event moving to done.
pub struct UploadRun {
    /// The transfer id the events carry.
    pub id: String,
    /// The stage the run stands in.
    pub stage: UploadStage,
    /// Bytes handled so far in the current stage.
    pub sent: u64,
    /// The stage's total: the folder's byte size while compressing, the
    /// archive's own size while uploading.
    pub total: u64,
    /// When the last throttled event was emitted, in milliseconds.
    pub last_emit_ms: u64,
}

/// The run [`UploadRun::begin`] starts.
pub open spec fn begin_spec(id: String, total: u64, now_ms: u64) -> UploadRun {
    UploadRun { id, stage: UploadStage::Compressing, sent: 0, total, last_emit_ms: now_ms }
}

/// The transition taken when `n` bytes are read from a source file while
/// compressing: the count grows (clamped), and an event is emitted exactly
/// when the read is nonempty and the throttling interval has passed.
pub open spec fn record_read_spec(r: UploadRun, n: usize, now_ms: u64) -> (
    UploadRun,
    Option<UploadProgress>,
) {
    if n == 0 {
        (r, None)
    } else {
        let sent = if r.sent + n <= u64::MAX {
            (r.sent + n) as u64
        } else {
            u64::MAX
        };
        if elapsed_since(now_ms, r.last_emit_ms) >= UPLOAD_EMIT_INTERVAL_MS {
            (
                UploadRun { sent, last_emit_ms: now_ms, ..r },
                Some(
                    UploadProgress {
                        id: r.id,
                        sent,
                        total: floor_one(r.total),
                        percent: percent_spec(sent, r.total),
                    },
                ),
            )
        } else {
            (UploadRun { sent, ..r }, None)
        }
    }
}

/// The transition from compressing to uploading: the unthrottled final
/// packaging event reports the whole total, and the count restarts at zero
/// against the archive's own size.
pub open spec fn finish_compressing_spec(r: UploadRun, archive_len: u64) -> (
    UploadRun,
    UploadProgress,
) {
    (
        UploadRun { stage: UploadStage::Uploading, sent: 0, total: archive_len, ..r },
        UploadProgress {
            id: r.id,
            sent: floor_one(r.total),
            total: floor_one(r.total),
            percent: 100,
        },
    )
}

/// The transition taken when a chunk of the archive leaves for the server:
/// every chunk emits an event, unthrottled, against the archive's size.
pub open spec fn record_sent_spec(r: UploadRun, n: usize) -> (UploadRun, UploadProgress) {
    let sent = if r.sent + n <= u64::MAX {
        (r.sent + n) as u64
    } else {
        u64::MAX
    };
    (
        UploadRun { sent, ..r },
        UploadProgress {
            id: r.id,
            sent,
            total: floor_one(r.total),
            percent: percent_spec(sent, r.total),
        },
    )
}

/// The transition taken when the server accepted the upload: the
/// unthrottled final event reports the archive's full size, and the run is
/// done.
pub open spec fn complete_spec(r: UploadRun) -> (UploadRun, UploadProgress) {
    (
        UploadRun { stage: UploadStage::Done, ..r },
        UploadProgress { id: r.id, sent: r.total, total: r.total, percent: 100 },
    )
}

impl UploadRun {
    /// A fresh packaging run over a folder of `total` bytes.
    pub fn begin(id: String, total: u64, now_ms: u64) -> (r: UploadRun)
        ensures
            r == begin_spec(id, total, now_ms),
    {
        UploadRun { id, stage: UploadStage::Compressing, sent: 0, total, last_emit_ms: now_ms }
    }

    /// Account for `n` bytes read from a source file while compressing.
    pub fn record_read(&mut self, n: usize, now_ms: u64) -> (r: Option<UploadProgress>)
        requires
            old(self).stage is Compressing,
        ensures
            (*final(self), r) == record_read_spec(*old(self), n, now_ms),
    {
        if n == 0 {
            return None;
        }
        self.sent = self.sent.saturating_add(n as u64);
        if now_ms.saturating_sub(self.last_emit_ms) >= UPLOAD_EMIT_INTERVAL_MS {
            self.last_emit_ms = now_ms;
            let total = if self.total == 0 {
                1
            } else {
                self.total
            };
            Some(
                UploadProgress {
                    id: self.id.clone(),
                    sent: self.sent,
                    total,
                    percent: percent_of(self.sent, self.total),
                },
            )
        } else {
            None
        }
    }

    /// The archive is fully built: emit the unthrottled final packaging
    /// event and move to the uploading stage, restarting the count against
    /// the archive's own `archive_len` bytes.
    pub fn finish_compressing(&mut self, archive_len: u64) -> (r: UploadProgress)
        requires
            old(self).stage is Compressing,
        ensures
            (*final(self), r) == finish_compressing_spec(*old(self), archive_len),
    {
        let total = if self.total == 0 {
            1
        } else {
            self.total
        };
        let event = UploadProgress { id: self.id.clone(), sent: total, total, percent: 100 };
        self.stage = UploadStage::Uploading;
        self.sent = 0;
        self.total = archive_len;
        event
    }

    /// Account for one chunk of the archive leaving for the server.
    pub fn record_sent(&mut self, n: usize) -> (r: UploadProgress)
        requires
            old(self).stage is Uploading,
        ensures
            (*final(self), r) == record_sent_spec(*old(self), n),
    {
        self.sent = self.sent.saturating_add(n as u64);
        let total = if self.total == 0 {
            1
        } else {
            self.total
        };
        UploadProgress {
            id: self.id.clone(),
            sent: self.sent,
            total,
            percent: percent_of(self.sent, self.total),
        }
    }

    /// The server accepted the upload: emit the unthrottled final event and
    /// finish the run.
    pub fn complete(&mut self) -> (r: UploadProgress)
        requires
            old(self).stage is Uploading,
        ensures
            (*final(self), r) == complete_spec(*old(self)),
    {
        let event = UploadProgress {
            id: self.id.clone(),
            sent: self.total,
            total: self.total,
            percent: 100,
        };
        self.stage = UploadStage::Done;
        event
    }

    /// The run failed; the stage becomes terminal.
    pub fn fail(&mut self)
        ensures
            *final(self) == (UploadRun { stage: UploadStage::Error, ..*old(self) }),
    {
        self.stage = UploadStage::Error;
    }
}

/// The run after a sequence of source-file reads, each a byte count with
/// its time.
pub open spec fn replay_reads(r: UploadRun, reads: Seq<(usize, u64)>) -> UploadRun
    decreases reads.len(),
{
    if reads.len() == 0 {
        r
    } else {
        record_read_spec(replay_reads(r, reads.drop_last()), reads.last().0, reads.last().1).0
    }
}

/// The run after a sequence of transmitted chunks.
pub open spec fn replay_sends(r: UploadRun, sends: Seq<usize>) -> UploadRun
    decreases sends.len(),
{
    if sends.len() == 0 {
        r
    } else {
        record_sent_spec(replay_sends(r, sends.drop_last()), sends.last()).0
    }
}

/// Reads never change the stage, the total or the id.
pub proof fn lemma_reads_stay_compressing(r: UploadRun, reads: Seq<(usize, u64)>)
    ensures
        replay_reads(r, reads).stage == r.stage,
        replay_reads(r, reads).total == r.total,
        replay_reads(r, reads).id == r.id,
    decreases reads.len(),
{
    if reads.len() > 0 {
        lemma_reads_stay_compressing(r, reads.drop_last());
    }
}

/// Sends never change the stage, the total or the id.
pub proof fn lemma_sends_stay_uploading(r: UploadRun, sends: Seq<usize>)
    ensures
        replay_sends(r, sends).stage == r.stage,
        replay_sends(r, sends).total == r.total,
        replay_sends(r, sends).id == r.id,
    decreases sends.len(),
{
    if sends.len() > 0 {
        lemma_sends_stay_uploading(r, sends.drop_last());
    }
}

/// The stages of an upload come in order. However many source-file reads
/// the packaging makes, the run stays compressing until the single final
/// packaging event, which reports the whole total at one hundred percent
/// and moves the run to uploading with its count reset to zero against the
/// archive's own size; however many chunks are then transmitted, the run
/// stays uploading until the single final event, which reports the
/// archive's full size at one hundred percent and ends the run.
pub proof fn lemma_upload_stages_in_order(
    id: String,
    total: u64,
    now_ms: u64,
    reads: Seq<(usize, u64)>,
    archive_len: u64,
    sends: Seq<usize>,
)
    ensures
        ({
            let packed = replay_reads(begin_spec(id, total, now_ms), reads);
            let (started, fin) = finish_compressing_spec(packed, archive_len);
            let streamed = replay_sends(started, sends);
            let (done, last) = complete_spec(streamed);
            &&& packed.stage is Compressing
            &&& fin.sent == floor_one(total) && fin.total == floor_one(total) && fin.percent
                == 100
            &&& started.stage is Uploading && started.sent == 0 && started.total == archive_len
            &&& streamed.stage is Uploading
            &&& last.sent == archive_len && last.total == archive_len && last.percent == 100
            &&& done.stage is Done
        }),
{
    let r0 = begin_spec(id, total, now_ms);
    lemma_reads_stay_compressing(r0, reads);
    let packed = replay_reads(r0, reads);
    let (started, fin) = finish_compressing_spec(packed, archive_len);
    lemma_sends_stay_uploading(started, sends);
}

} // verus!
