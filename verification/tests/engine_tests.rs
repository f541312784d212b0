use transfer_engine::engine::{ChunkOutcome, Engine, EngineError, Phase, ResponseAction};
use transfer_engine::engine::range_header_value;
use transfer_engine::progress::{should_emit, speed_bps};
use transfer_engine::status::StatusTag;
use transfer_engine::{DOWNLOAD_EMIT_INTERVAL_MS, UPLOAD_EMIT_INTERVAL_MS};

#[test]
fn fresh_download_requests_full_resource() {
    let e = Engine::start("a".to_string(), None);
    assert_eq!(e.offset, 0);
    assert_eq!(e.downloaded, 0);
    assert!(e.range_start().is_none());
    assert!(matches!(e.phase, Phase::Probing));
}

#[test]
fn resumed_download_requests_exact_offset() {
    let e = Engine::start("a".to_string(), Some(400_000));
    assert_eq!(e.offset, 400_000);
    assert_eq!(e.range_start(), Some(400_000));
    assert_eq!(range_header_value(400_000), "bytes=400000-");
}

#[test]
fn range_header_renders_decimal() {
    assert_eq!(range_header_value(0), "bytes=0-");
    assert_eq!(range_header_value(7), "bytes=7-");
    assert_eq!(range_header_value(18_446_744_073_709_551_615), "bytes=18446744073709551615-");
}

#[test]
fn completed_download_accounts_every_byte() {
    // A full run over a 1,000,000-byte archive: the bytes on disk at the
    // transition to installing equal the settled total.
    let mut e = Engine::start("a".to_string(), None);
    let action = e.on_response(200, Some(1_000_000));
    assert_eq!(action, ResponseAction::Proceed);
    assert_eq!(e.total, Some(1_000_000));
    let mut streamed: u64 = 0;
    while streamed < 1_000_000 {
        let out = e.on_chunk(250_000, false, false);
        assert_eq!(out, ChunkOutcome::Append);
        streamed += 250_000;
    }
    e.on_stream_end();
    assert!(matches!(e.phase, Phase::Installing));
    assert_eq!(Some(e.downloaded), e.total);
    e.on_extracted(true);
    assert!(matches!(e.phase, Phase::Completed));
    assert_eq!(e.downloaded, 1_000_000);
}

#[test]
fn fully_downloaded_resume_is_idempotent() {
    // The server answers 416 to the ranged request: no byte is consumed and
    // the run still reaches completed.
    let mut e = Engine::start("a".to_string(), Some(1_000_000));
    assert_eq!(e.range_start(), Some(1_000_000));
    let action = e.on_response(416, None);
    assert_eq!(action, ResponseAction::AlreadyComplete);
    assert!(matches!(e.phase, Phase::Installing));
    assert_eq!(e.downloaded, 1_000_000);
    assert_eq!(e.total, Some(1_000_000));
    e.on_extracted(true);
    assert!(matches!(e.phase, Phase::Completed));
    assert_eq!(e.downloaded, 1_000_000);
}

#[test]
fn ignored_range_never_concatenates() {
    // 200 despite a ranged request: the partial bytes are discarded, and the
    // final length is the fresh content length, never offset plus length.
    let mut e = Engine::start("a".to_string(), Some(400_000));
    let action = e.on_response(200, Some(1_000_000));
    assert_eq!(action, ResponseAction::DiscardAndRestart);
    assert_eq!(e.offset, 0);
    assert_eq!(e.downloaded, 0);
    assert_eq!(e.total, Some(1_000_000));
    let mut streamed: u64 = 0;
    while streamed < 1_000_000 {
        assert_eq!(e.on_chunk(500_000, false, false), ChunkOutcome::Append);
        streamed += 500_000;
    }
    e.on_stream_end();
    assert_eq!(e.downloaded, 1_000_000);
    assert_ne!(e.downloaded, 400_000 + 1_000_000);
}

#[test]
fn ranged_response_adds_offset_to_total() {
    let mut e = Engine::start("a".to_string(), Some(400_000));
    assert_eq!(e.on_response(206, Some(600_000)), ResponseAction::Proceed);
    assert_eq!(e.total, Some(1_000_000));
    assert_eq!(e.downloaded, 400_000);
}

#[test]
fn missing_content_length_leaves_total_unknown() {
    let mut e = Engine::start("a".to_string(), None);
    assert_eq!(e.on_response(200, None), ResponseAction::Proceed);
    assert_eq!(e.total, None);
}

#[test]
fn cancel_is_checked_before_pause() {
    let mut e = Engine::start("a".to_string(), None);
    e.on_response(200, Some(100));
    let out = e.on_chunk(50, true, true);
    assert_eq!(out, ChunkOutcome::StopCancelled);
    assert!(matches!(e.phase, Phase::Cancelled));
    assert_eq!(e.downloaded, 0);
}

#[test]
fn pause_stops_at_chunk_boundary_keeping_bytes() {
    let mut e = Engine::start("a".to_string(), None);
    e.on_response(200, Some(1_000_000));
    for _ in 0..4 {
        assert_eq!(e.on_chunk(100_000, false, false), ChunkOutcome::Append);
    }
    let out = e.on_chunk(100_000, true, false);
    assert_eq!(out, ChunkOutcome::StopPaused);
    assert!(matches!(e.phase, Phase::Paused));
    assert_eq!(e.downloaded, 400_000);
    assert!(e.downloaded > 0 && e.downloaded < 1_000_000);
}

#[test]
fn extraction_failure_is_terminal_error() {
    let mut e = Engine::start("a".to_string(), Some(10));
    e.on_response(416, None);
    e.on_extracted(false);
    assert!(matches!(e.phase, Phase::Failed(EngineError::Extract)));
    let snap = e.snapshot(0);
    match snap.status {
        StatusTag::Error(msg) => assert_eq!(msg, "Failed to extract archive."),
        _ => panic!("expected an error status"),
    }
}

#[test]
fn engine_error_messages_are_fixed() {
    assert_eq!(EngineError::MissingToken.message(), "Missing auth token.");
    assert_eq!(EngineError::CreateDir.message(), "Failed to create app directory.");
    assert_eq!(EngineError::FetchConfig.message(), "Failed to download config.");
    assert_eq!(EngineError::WriteConfig.message(), "Failed to write config.");
    assert_eq!(EngineError::StartDownload.message(), "Failed to start download.");
    assert_eq!(EngineError::OpenFile.message(), "Failed to open download file.");
    assert_eq!(EngineError::StreamChunk.message(), "Failed while downloading.");
    assert_eq!(EngineError::WriteFile.message(), "Failed to write download.");
    assert_eq!(EngineError::Flush.message(), "Failed to finalize download.");
    assert_eq!(EngineError::Extract.message(), "Failed to extract archive.");
}

#[test]
fn snapshot_mirrors_engine_state() {
    let mut e = Engine::start("game".to_string(), None);
    e.on_response(200, Some(10));
    let snap = e.snapshot(512);
    assert_eq!(snap.id, "game");
    assert_eq!(snap.downloaded, 0);
    assert_eq!(snap.total, Some(10));
    assert!(matches!(snap.status, StatusTag::Downloading));
    assert_eq!(snap.speed_bps, 512);
}

#[test]
fn status_labels_match_wire_format() {
    assert_eq!(StatusTag::Downloading.label(), "downloading");
    assert_eq!(StatusTag::Paused.label(), "paused");
    assert_eq!(StatusTag::Cancelled.label(), "cancelled");
    assert_eq!(StatusTag::Installing.label(), "installing");
    assert_eq!(StatusTag::Completed.label(), "completed");
    assert_eq!(StatusTag::Error("boom".to_string()).label(), "error:boom");
}

#[test]
fn first_and_final_events_bypass_throttle() {
    assert!(should_emit(true, false, 0, 0, DOWNLOAD_EMIT_INTERVAL_MS));
    assert!(should_emit(false, true, 10, 0, DOWNLOAD_EMIT_INTERVAL_MS));
    assert!(!should_emit(false, false, 100, 0, DOWNLOAD_EMIT_INTERVAL_MS));
    assert!(should_emit(false, false, 250, 0, DOWNLOAD_EMIT_INTERVAL_MS));
    assert!(should_emit(false, false, 300, 100, UPLOAD_EMIT_INTERVAL_MS));
}

#[test]
fn speed_is_bytes_per_second_over_the_window() {
    // 250,000 bytes in 250 ms is exactly one megabyte per second.
    assert_eq!(speed_bps(650_000, 400_000, 250), 1_000_000);
    assert_eq!(speed_bps(400_000, 400_000, 250), 0);
    // Clamped to zero when no time has passed.
    assert_eq!(speed_bps(650_000, 400_000, 0), 0);
}
