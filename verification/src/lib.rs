//! Resumable file-transfer engine: a task registry, a byte-range-resumable
//! download state machine, a status snapshot store, resume records persisted
//! beside the partial archive, and an archive packaging/upload path with
//! throttled progress reporting.
//!
//! All decision logic lives here and is verified; the surrounding process
//! performs the file and network work and feeds the results back in as plain
//! values.

pub mod engine;
pub mod laws;
pub mod net;
pub mod paths;
pub mod progress;
pub mod record;
pub mod registry;
pub mod status;
pub mod text;
pub mod upload;
pub mod webnet;

use vstd::prelude::*;

verus! {

/// Minimum wall-clock milliseconds between two throttled progress events of
/// the download byte stream.
pub const DOWNLOAD_EMIT_INTERVAL_MS: u64 = 250;

/// Minimum wall-clock milliseconds between two throttled progress events of
/// archive packaging and upload.
pub const UPLOAD_EMIT_INTERVAL_MS: u64 = 150;

} // verus!
