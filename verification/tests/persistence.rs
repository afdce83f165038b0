use idlemail::retryfile::{
    encode_retry_record, has_json_suffix, parse_retry_record, retry_file_candidates,
    retry_file_name, RetryRecord,
};

fn sample_record() -> RetryRecord {
    RetryRecord {
        due_time: 1_700_000_123,
        dstname: "smtp-out".to_string(),
        mail_from_src: "påminnelse-källa".to_string(),
        mail_data: vec![0, 1, 2, 254, 255, b'\n'],
    }
}

#[test]
fn record_survives_encode_and_parse() {
    let record = sample_record();
    let bytes = encode_retry_record(&record);
    let back = parse_retry_record(&bytes).expect("a well-formed record must parse");
    assert_eq!(back.due_time, record.due_time);
    assert_eq!(back.dstname, record.dstname);
    assert_eq!(back.mail_from_src, record.mail_from_src);
    assert_eq!(back.mail_data, record.mail_data);
}

#[test]
fn empty_fields_survive_too() {
    let record = RetryRecord {
        due_time: 0,
        dstname: String::new(),
        mail_from_src: String::new(),
        mail_data: Vec::new(),
    };
    let bytes = encode_retry_record(&record);
    assert_eq!(bytes.len(), 32);
    let back = parse_retry_record(&bytes).expect("a well-formed record must parse");
    assert_eq!(back.due_time, 0);
    assert!(back.dstname.is_empty());
    assert!(back.mail_from_src.is_empty());
    assert!(back.mail_data.is_empty());
}

#[test]
fn truncated_records_are_rejected() {
    let record = sample_record();
    let bytes = encode_retry_record(&record);
    for cut in [0, 7, 23, bytes.len() - 1] {
        let partial: Vec<u8> = bytes[..cut].to_vec();
        assert!(parse_retry_record(&partial).is_none(), "cut at {cut} must not parse");
    }
}

#[test]
fn trailing_garbage_is_rejected() {
    let record = sample_record();
    let mut bytes = encode_retry_record(&record);
    bytes.push(0);
    assert!(parse_retry_record(&bytes).is_none());
}

#[test]
fn invalid_utf8_in_a_name_is_rejected() {
    // due = 5, then a one-byte destination name 0xFF (not UTF-8),
    // an empty source name and an empty body.
    let mut bytes = Vec::new();
    bytes.extend_from_slice(&5u64.to_le_bytes());
    bytes.extend_from_slice(&1u64.to_le_bytes());
    bytes.push(0xFF);
    bytes.extend_from_slice(&0u64.to_le_bytes());
    bytes.extend_from_slice(&0u64.to_le_bytes());
    assert!(parse_retry_record(&bytes).is_none());
    // The same layout with a valid one-byte name parses.
    bytes[16] = b'd';
    let back = parse_retry_record(&bytes).expect("valid layout must parse");
    assert_eq!(back.due_time, 5);
    assert_eq!(back.dstname, "d");
}

#[test]
fn retry_file_names_follow_the_layout() {
    let name = retry_file_name(
        &"/var/spool/idlemail".to_string(),
        &"12345".to_string(),
        &"smtp-out".to_string(),
        3,
    );
    assert_eq!(name, "/var/spool/idlemail/12345_to_smtp-out-3.json");
}

#[test]
fn ten_candidate_names_are_tried_in_order() {
    let names = retry_file_candidates(
        &"/spool".to_string(),
        &"777".to_string(),
        &"d".to_string(),
    );
    assert_eq!(names.len(), 10);
    assert_eq!(names[0], "/spool/777_to_d-0.json");
    assert_eq!(names[9], "/spool/777_to_d-9.json");
}

#[test]
fn only_json_files_are_restored() {
    assert!(has_json_suffix(&"a.json".to_string()));
    assert!(has_json_suffix(&"/dir/x_to_y-0.json".to_string()));
    assert!(!has_json_suffix(&"a.jsonx".to_string()));
    assert!(!has_json_suffix(&"json".to_string()));
    assert!(!has_json_suffix(&"a.txt".to_string()));
    assert!(!has_json_suffix(&String::new()));
}
