use transfer_engine::record::{parse_record, ResumeRecord};

fn sample() -> ResumeRecord {
    ResumeRecord {
        id: "a".to_string(),
        archive_url: "http://host/apps/a.tar.gz".to_string(),
        config_url: "http://host/apps/a.cfg".to_string(),
        dest_dir: "/apps".to_string(),
        token: Some("tok".to_string()),
        total: Some(1_000_000),
    }
}

#[test]
fn encode_writes_the_fixed_object_shape() {
    let text = sample().encode();
    let expected = "{\"id\":\"a\",\"archiveUrl\":\"http://host/apps/a.tar.gz\",\"configUrl\":\"http://host/apps/a.cfg\",\"destDir\":\"/apps\",\"token\":\"tok\",\"total\":1000000}";
    assert_eq!(text, expected);
}

#[test]
fn encode_writes_null_for_absent_fields() {
    let mut rec = sample();
    rec.token = None;
    rec.total = None;
    let text = rec.encode();
    assert!(text.ends_with("\"token\":null,\"total\":null}"));
}

#[test]
fn records_round_trip_through_their_file() {
    let rec = sample();
    let back = parse_record(&rec.encode()).unwrap();
    assert_eq!(back.id, rec.id);
    assert_eq!(back.archive_url, rec.archive_url);
    assert_eq!(back.config_url, rec.config_url);
    assert_eq!(back.dest_dir, rec.dest_dir);
    assert_eq!(back.token, rec.token);
    assert_eq!(back.total, rec.total);
}

#[test]
fn absent_fields_round_trip() {
    let mut rec = sample();
    rec.token = None;
    rec.total = None;
    let back = parse_record(&rec.encode()).unwrap();
    assert_eq!(back.token, None);
    assert_eq!(back.total, None);
}

#[test]
fn quotes_and_backslashes_round_trip() {
    let mut rec = sample();
    rec.id = "we\"ird\\id".to_string();
    rec.dest_dir = "C:\\apps".to_string();
    let text = rec.encode();
    assert!(text.starts_with("{\"id\":\"we\\\"ird\\\\id\","));
    let back = parse_record(&text).unwrap();
    assert_eq!(back.id, "we\"ird\\id");
    assert_eq!(back.dest_dir, "C:\\apps");
}

#[test]
fn zero_total_round_trips() {
    let mut rec = sample();
    rec.total = Some(0);
    let back = parse_record(&rec.encode()).unwrap();
    assert_eq!(back.total, Some(0));
}

#[test]
fn corrupted_records_are_rejected() {
    let text = sample().encode();
    // Truncated file.
    assert!(parse_record(&text[..text.len() - 1]).is_none());
    // Trailing garbage.
    assert!(parse_record(&format!("{} ", text)).is_none());
    // Wrong key order.
    assert!(parse_record("{\"archiveUrl\":\"u\",\"id\":\"a\"}").is_none());
    // Unterminated string.
    assert!(parse_record("{\"id\":\"a").is_none());
    // A total with a leading zero is not canonical.
    assert!(parse_record(
        "{\"id\":\"a\",\"archiveUrl\":\"u\",\"configUrl\":\"c\",\"destDir\":\"d\",\"token\":null,\"total\":007}"
    )
    .is_none());
    // A total beyond the representable range.
    assert!(parse_record(
        "{\"id\":\"a\",\"archiveUrl\":\"u\",\"configUrl\":\"c\",\"destDir\":\"d\",\"token\":null,\"total\":99999999999999999999}"
    )
    .is_none());
    // A non-canonical escape.
    assert!(parse_record(
        "{\"id\":\"\\a\",\"archiveUrl\":\"u\",\"configUrl\":\"c\",\"destDir\":\"d\",\"token\":null,\"total\":null}"
    )
    .is_none());
    assert!(parse_record("").is_none());
}

#[test]
fn minimal_record_parses() {
    let text = "{\"id\":\"x\",\"archiveUrl\":\"u\",\"configUrl\":\"c\",\"destDir\":\"d\",\"token\":null,\"total\":null}";
    let rec = parse_record(text).unwrap();
    assert_eq!(rec.id, "x");
    assert_eq!(rec.archive_url, "u");
    assert_eq!(rec.config_url, "c");
    assert_eq!(rec.dest_dir, "d");
    assert_eq!(rec.token, None);
    assert_eq!(rec.total, None);
}
