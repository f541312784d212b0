use transfer_engine::upload::{
    percent_of, total_size, validate_upload, UploadError, UploadRequest, UploadRun, UploadStage,
};

fn request() -> UploadRequest {
    UploadRequest {
        server_ip: "localhost".to_string(),
        server_port: "2121".to_string(),
        token: "tok".to_string(),
        id: "a".to_string(),
        config_text: "name = \"a\"".to_string(),
        folder_path: "/src/a".to_string(),
    }
}

#[test]
fn validation_checks_fields_in_order() {
    let mut req = request();
    req.token = " ".to_string();
    assert_eq!(validate_upload(&req, true), Err(UploadError::MissingToken));
    let mut req = request();
    req.id = "".to_string();
    assert_eq!(validate_upload(&req, true), Err(UploadError::MissingId));
    let mut req = request();
    req.config_text = "\t".to_string();
    assert_eq!(validate_upload(&req, true), Err(UploadError::MissingConfig));
    let mut req = request();
    req.folder_path = "".to_string();
    assert_eq!(validate_upload(&req, true), Err(UploadError::MissingFolder));
    assert_eq!(validate_upload(&request(), false), Err(UploadError::FolderNotFound));
    assert_eq!(validate_upload(&request(), true), Ok(()));
}

#[test]
fn upload_error_messages_are_fixed() {
    assert_eq!(UploadError::MissingToken.message(), "Missing auth token.");
    assert_eq!(UploadError::MissingId.message(), "Missing app id.");
    assert_eq!(UploadError::MissingConfig.message(), "Missing config.");
    assert_eq!(UploadError::MissingFolder.message(), "Missing folder.");
    assert_eq!(UploadError::FolderNotFound.message(), "Folder not found.");
    assert_eq!(UploadError::Unreachable.message(), "Upload failed.");
    assert_eq!(UploadError::HttpStatus(500).message(), "Upload failed (HTTP 500).");
    assert_eq!(UploadError::FinalizeArchive.message(), "Failed to finalize archive.");
}

#[test]
fn folder_size_is_the_sum_of_file_sizes() {
    assert_eq!(total_size(&vec![]), 0);
    assert_eq!(total_size(&vec![10, 20, 30]), 60);
    assert_eq!(total_size(&vec![u64::MAX, 1]), u64::MAX);
}

#[test]
fn percent_is_the_whole_ratio() {
    assert_eq!(percent_of(0, 200), 0);
    assert_eq!(percent_of(50, 200), 25);
    assert_eq!(percent_of(200, 200), 100);
    assert_eq!(percent_of(300, 200), 150);
    // A zero total counts as one.
    assert_eq!(percent_of(0, 0), 0);
}

#[test]
fn fifty_megabyte_folder_reports_compressing_then_uploading_then_done() {
    // Packaging a 50 MB folder: at least one compressing event with
    // sent < total, exactly one final event with sent == total, then the
    // uploading stage resets the percentage, then done.
    let total: u64 = 50 * 1024 * 1024;
    let mut run = UploadRun::begin("a".to_string(), total, 0);
    assert!(matches!(run.stage, UploadStage::Compressing));
    let mut compressing_events = Vec::new();
    let mut now: u64 = 0;
    let mut read: u64 = 0;
    while read < total {
        now += 50;
        let ev = run.record_read(1024 * 1024, now);
        read += 1024 * 1024;
        if let Some(ev) = ev {
            compressing_events.push(ev);
        }
    }
    assert!(matches!(run.stage, UploadStage::Compressing));
    assert!(compressing_events.len() >= 1);
    assert!(compressing_events.iter().any(|e| e.sent < e.total));
    // Events are throttled to the packaging interval.
    assert!(compressing_events.len() < 50);
    let archive_len: u64 = 10 * 1024 * 1024;
    let fin = run.finish_compressing(archive_len);
    assert_eq!(fin.sent, total);
    assert_eq!(fin.total, total);
    assert_eq!(fin.percent, 100);
    // The uploading stage restarts the count against the archive size.
    assert!(matches!(run.stage, UploadStage::Uploading));
    assert_eq!(run.sent, 0);
    let first = run.record_sent(1024);
    assert_eq!(first.sent, 1024);
    assert_eq!(first.total, archive_len);
    assert_eq!(first.percent, 0);
    let done = run.complete();
    assert_eq!(done.sent, archive_len);
    assert_eq!(done.total, archive_len);
    assert_eq!(done.percent, 100);
    assert!(matches!(run.stage, UploadStage::Done));
    assert_eq!(UploadStage::Compressing.label(), "compressing");
    assert_eq!(UploadStage::Uploading.label(), "uploading");
    assert_eq!(UploadStage::Done.label(), "done");
    assert_eq!(UploadStage::Error.label(), "error");
}

#[test]
fn empty_reads_emit_nothing() {
    let mut run = UploadRun::begin("a".to_string(), 100, 0);
    assert!(run.record_read(0, 10_000).is_none());
    assert_eq!(run.sent, 0);
}

#[test]
fn packaging_events_are_throttled() {
    let mut run = UploadRun::begin("a".to_string(), 1000, 0);
    // Too soon after the last event: counted but not emitted.
    assert!(run.record_read(100, 100).is_none());
    assert_eq!(run.sent, 100);
    // After the interval an event carries the running totals.
    let ev = run.record_read(100, 200).unwrap();
    assert_eq!(ev.sent, 200);
    assert_eq!(ev.total, 1000);
    assert_eq!(ev.percent, 20);
    assert_eq!(ev.id, "a");
}

#[test]
fn empty_folder_total_is_floored_for_the_ratio() {
    let mut run = UploadRun::begin("a".to_string(), 0, 0);
    let ev = run.record_read(1, 1000).unwrap();
    assert_eq!(ev.total, 1);
    assert_eq!(ev.percent, 100);
    let fin = run.finish_compressing(10);
    assert_eq!(fin.sent, 1);
    assert_eq!(fin.total, 1);
}

#[test]
fn failed_run_ends_in_the_error_stage() {
    let mut run = UploadRun::begin("a".to_string(), 10, 0);
    run.fail();
    assert!(matches!(run.stage, UploadStage::Error));
}
