use transfer_engine::engine::{range_header_value, ChunkOutcome, Engine, Phase, ResponseAction};
use transfer_engine::record::ResumeRecord;
use transfer_engine::registry::{DiskEntry, Registry, RegistryError, StartRequest};
use transfer_engine::status::{StatusSnapshot, StatusTag};

fn request(id: &str, token: &str) -> StartRequest {
    StartRequest {
        id: id.to_string(),
        archive_url: format!("http://host/apps/{}.tar.gz", id),
        config_url: format!("http://host/apps/{}.cfg", id),
        dest_dir: "/apps".to_string(),
        token: token.to_string(),
    }
}

fn record(id: &str, token: Option<&str>, total: Option<u64>) -> ResumeRecord {
    ResumeRecord {
        id: id.to_string(),
        archive_url: format!("http://host/apps/{}.tar.gz", id),
        config_url: format!("http://host/apps/{}.cfg", id),
        dest_dir: "/apps".to_string(),
        token: token.map(|t| t.to_string()),
        total,
    }
}

#[test]
fn start_rejects_blank_token() {
    let mut reg = Registry::new();
    assert_eq!(reg.start(request("a", "  ")), Err(RegistryError::MissingToken));
    assert!(reg.get_handle(&"a".to_string()).is_none());
}

#[test]
fn second_start_for_same_id_is_rejected() {
    // Exactly one running task and one AlreadyRunning error.
    let mut reg = Registry::new();
    assert_eq!(reg.start(request("a", "tok")), Ok("a".to_string()));
    assert_eq!(reg.start(request("a", "tok")), Err(RegistryError::AlreadyRunning));
    let h = reg.get_handle(&"a".to_string()).unwrap();
    assert!(h.running);
    assert_eq!(reg.handles.len(), 1);
}

#[test]
fn distinct_ids_run_concurrently() {
    let mut reg = Registry::new();
    assert!(reg.start(request("a", "tok")).is_ok());
    assert!(reg.start(request("b", "tok")).is_ok());
    assert!(reg.get_handle(&"a".to_string()).unwrap().running);
    assert!(reg.get_handle(&"b".to_string()).unwrap().running);
}

#[test]
fn start_publishes_initial_snapshot() {
    let mut reg = Registry::new();
    reg.start(request("a", "tok")).unwrap();
    let snap = reg.get_snapshot(&"a".to_string()).unwrap();
    assert_eq!(snap.downloaded, 0);
    assert_eq!(snap.total, None);
    assert!(matches!(snap.status, StatusTag::Downloading));
    assert_eq!(snap.speed_bps, 0);
}

#[test]
fn pause_flags_the_running_handle() {
    let mut reg = Registry::new();
    reg.start(request("a", "tok")).unwrap();
    assert_eq!(reg.pause(&"a".to_string()), Ok(()));
    let (paused, cancelled) = reg.signals(&"a".to_string());
    assert!(paused);
    assert!(!cancelled);
}

#[test]
fn pause_unknown_id_is_not_found() {
    let mut reg = Registry::new();
    assert_eq!(reg.pause(&"nope".to_string()), Err(RegistryError::NotFound));
}

#[test]
fn resume_clears_signals_and_reruns() {
    let mut reg = Registry::new();
    reg.start(request("a", "tok")).unwrap();
    reg.pause(&"a".to_string()).unwrap();
    reg.set_not_running(&"a".to_string());
    assert_eq!(reg.resume(&"a".to_string(), &"fallback".to_string(), None), Ok(()));
    let h = reg.get_handle(&"a".to_string()).unwrap();
    assert!(h.running);
    assert!(!h.paused);
    assert!(!h.cancelled);
    // The in-memory handle keeps its own credential.
    assert_eq!(h.token, "tok");
}

#[test]
fn resume_running_transfer_is_rejected() {
    let mut reg = Registry::new();
    reg.start(request("a", "tok")).unwrap();
    assert_eq!(
        reg.resume(&"a".to_string(), &"tok".to_string(), None),
        Err(RegistryError::AlreadyRunning)
    );
}

#[test]
fn resume_without_handle_or_record_is_not_found() {
    let mut reg = Registry::new();
    assert_eq!(reg.resume(&"a".to_string(), &"tok".to_string(), None), Err(RegistryError::NotFound));
}

#[test]
fn resume_hydrates_handle_from_disk_record() {
    let mut reg = Registry::new();
    let rec = record("a", Some("stored"), Some(1_000_000));
    assert_eq!(reg.resume(&"a".to_string(), &"fallback".to_string(), Some(rec)), Ok(()));
    let h = reg.get_handle(&"a".to_string()).unwrap();
    assert!(h.running);
    assert_eq!(h.token, "stored");
    assert_eq!(h.archive_url, "http://host/apps/a.tar.gz");
}

#[test]
fn resume_falls_back_to_caller_token() {
    let mut reg = Registry::new();
    let rec = record("a", None, None);
    assert_eq!(reg.resume(&"a".to_string(), &"fallback".to_string(), Some(rec)), Ok(()));
    assert_eq!(reg.get_handle(&"a".to_string()).unwrap().token, "fallback");
}

#[test]
fn resume_falls_back_when_stored_token_is_blank() {
    // Credential precedence: the stored credential only counts when it is
    // usable; a blank stored credential with a usable fallback resumes.
    let mut reg = Registry::new();
    let rec = record("a", Some("   "), None);
    assert_eq!(reg.resume(&"a".to_string(), &"fallback".to_string(), Some(rec)), Ok(()));
    assert_eq!(reg.get_handle(&"a".to_string()).unwrap().token, "fallback");
}

#[test]
fn resume_with_no_usable_token_is_rejected() {
    // Only when both credentials are blank does resume fail.
    let mut reg = Registry::new();
    let rec = record("a", None, None);
    assert_eq!(
        reg.resume(&"a".to_string(), &"   ".to_string(), Some(rec)),
        Err(RegistryError::MissingToken)
    );
    assert!(reg.get_handle(&"a".to_string()).is_none());
    let rec = record("a", Some(""), None);
    assert_eq!(
        reg.resume(&"a".to_string(), &" ".to_string(), Some(rec)),
        Err(RegistryError::MissingToken)
    );
    assert!(reg.get_handle(&"a".to_string()).is_none());
}

#[test]
fn cancel_removes_handle_and_snapshot() {
    // Cancel while downloading: the handle and snapshot disappear and the
    // listing no longer reports the transfer.
    let mut reg = Registry::new();
    reg.start(request("a", "tok")).unwrap();
    let removed = reg.cancel(&"a".to_string()).unwrap();
    assert_eq!(removed.id, "a");
    assert!(reg.get_handle(&"a".to_string()).is_none());
    assert!(reg.get_snapshot(&"a".to_string()).is_none());
    let listed = reg.list(&Vec::new());
    assert!(listed.iter().all(|s| s.id != "a"));
    // A running engine polling its signals now reads the removal as cancel.
    assert_eq!(reg.signals(&"a".to_string()), (false, true));
}

#[test]
fn cancel_unknown_id_is_not_found() {
    let mut reg = Registry::new();
    assert!(matches!(reg.cancel(&"a".to_string()), Err(RegistryError::NotFound)));
}

#[test]
fn registry_error_messages_are_fixed() {
    assert_eq!(RegistryError::MissingToken.message(), "Missing auth token.");
    assert_eq!(RegistryError::AlreadyRunning.message(), "Download already in progress.");
    assert_eq!(RegistryError::NotFound.message(), "Download not found.");
}

#[test]
fn list_unions_live_and_disk_transfers() {
    // Restart safety: a transfer known only from its resume record is
    // reported paused with the partial file's on-disk length.
    let mut reg = Registry::new();
    reg.start(request("live", "tok")).unwrap();
    let disk = vec![
        DiskEntry { record: record("live", Some("tok"), Some(10)), partial_len: 3 },
        DiskEntry { record: record("ondisk", Some("tok"), Some(1_000_000)), partial_len: 400_000 },
    ];
    let listed = reg.list(&disk);
    assert_eq!(listed.len(), 2);
    let live = listed.iter().find(|s| s.id == "live").unwrap();
    // The live snapshot wins over the on-disk record.
    assert!(matches!(live.status, StatusTag::Downloading));
    assert_eq!(live.downloaded, 0);
    let ondisk = listed.iter().find(|s| s.id == "ondisk").unwrap();
    assert!(matches!(ondisk.status, StatusTag::Paused));
    assert_eq!(ondisk.downloaded, 400_000);
    assert_eq!(ondisk.total, Some(1_000_000));
    assert_eq!(ondisk.speed_bps, 0);
}

#[test]
fn list_keeps_first_disk_entry_per_id() {
    let reg = Registry::new();
    let disk = vec![
        DiskEntry { record: record("a", None, Some(5)), partial_len: 1 },
        DiskEntry { record: record("a", None, Some(9)), partial_len: 2 },
    ];
    let listed = reg.list(&disk);
    assert_eq!(listed.len(), 1);
    assert_eq!(listed[0].downloaded, 1);
    assert_eq!(listed[0].total, Some(5));
}

#[test]
fn update_snapshot_is_last_write_wins() {
    let mut reg = Registry::new();
    reg.start(request("a", "tok")).unwrap();
    reg.update_snapshot(StatusSnapshot {
        id: "a".to_string(),
        downloaded: 42,
        total: Some(100),
        status: StatusTag::Downloading,
        speed_bps: 7,
    });
    let snap = reg.get_snapshot(&"a".to_string()).unwrap();
    assert_eq!(snap.downloaded, 42);
    assert_eq!(snap.speed_bps, 7);
}

#[test]
fn pause_then_resume_completes_at_exact_total() {
    // A 1,000,000-byte archive is paused after 400,000 bytes and resumed:
    // the second run asks for the range from exactly 400,000 and ends with
    // exactly 1,000,000 bytes on disk.
    let mut reg = Registry::new();
    reg.start(request("a", "tok")).unwrap();
    let mut engine = Engine::start("a".to_string(), None);
    assert!(engine.range_start().is_none());
    assert_eq!(engine.on_response(200, Some(1_000_000)), ResponseAction::Proceed);
    let mut partial_len: u64 = 0;
    for _ in 0..4 {
        let (paused, cancelled) = reg.signals(&"a".to_string());
        assert_eq!(engine.on_chunk(100_000, paused, cancelled), ChunkOutcome::Append);
        partial_len += 100_000;
    }
    reg.pause(&"a".to_string()).unwrap();
    let (paused, cancelled) = reg.signals(&"a".to_string());
    assert_eq!(engine.on_chunk(100_000, paused, cancelled), ChunkOutcome::StopPaused);
    reg.update_snapshot(engine.snapshot(0));
    reg.set_not_running(&"a".to_string());
    let snap = reg.get_snapshot(&"a".to_string()).unwrap();
    assert!(matches!(snap.status, StatusTag::Paused));
    assert!(snap.downloaded > 0 && snap.downloaded < 1_000_000);
    assert_eq!(snap.downloaded, partial_len);

    reg.resume(&"a".to_string(), &"tok".to_string(), None).unwrap();
    let mut engine = Engine::start("a".to_string(), Some(partial_len));
    assert_eq!(engine.range_start(), Some(400_000));
    assert_eq!(range_header_value(400_000), "bytes=400000-");
    assert_eq!(engine.on_response(206, Some(600_000)), ResponseAction::Proceed);
    assert_eq!(engine.total, Some(1_000_000));
    let mut left: u64 = 600_000;
    while left > 0 {
        let (paused, cancelled) = reg.signals(&"a".to_string());
        assert_eq!(engine.on_chunk(100_000, paused, cancelled), ChunkOutcome::Append);
        left -= 100_000;
    }
    engine.on_stream_end();
    assert_eq!(Some(engine.downloaded), engine.total);
    engine.on_extracted(true);
    assert!(matches!(engine.phase, Phase::Completed));
    assert_eq!(engine.downloaded, 1_000_000);
}

#[test]
fn handle_record_stores_credential_and_total() {
    let mut reg = Registry::new();
    reg.start(request("a", "tok")).unwrap();
    let h = reg.get_handle(&"a".to_string()).unwrap();
    let rec = h.to_record(Some(123));
    assert_eq!(rec.id, "a");
    assert_eq!(rec.token, Some("tok".to_string()));
    assert_eq!(rec.total, Some(123));
    assert_eq!(rec.dest_dir, "/apps");
}
