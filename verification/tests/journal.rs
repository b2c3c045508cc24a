use chatvault::event::{FieldValue, JournalEvent, JournalEventType, Payload};
use chatvault::format::{get_device_path, get_journal_segment_path};
use chatvault::hasher::{compute_blake3_bytes, verify_segment_bytes, ContentHasher};
use chatvault::journal::{
    check_commit_marker, check_device_registration, check_segment_events, commit_plan, epoch_plan, seq_from_commit_path,
    CommitMarker,
};
use chatvault::jsonl::{jsonl_lines, jsonl_text};
use chatvault::publish::{
    build_commit, effective_epoch, epoch_from_setting, epoch_setting_key, pending_segment_key,
    select_publishable,
};

#[test]
fn test_seq_from_commit_path() {
    assert_eq!(seq_from_commit_path("chatvault-v/commits/dev1/1/5.json"), Some(5));
    assert_eq!(seq_from_commit_path("chatvault-v/commits/dev1/1/1.json"), Some(1));
    assert_eq!(seq_from_commit_path("chatvault-v/commits/dev1/1/"), None);
    assert_eq!(seq_from_commit_path("foo/bar.txt"), None);
}

#[test]
fn commit_path_edge_cases() {
    assert_eq!(seq_from_commit_path("chatvault-v/commits/dev1/1/abc.json"), None);
    assert_eq!(seq_from_commit_path("5.json"), Some(5));
}

#[test]
fn commit_plan_orders_by_sequence() {
    let paths = vec![
        "a/7.json".to_string(),
        "a/notes.txt".to_string(),
        "a/2.json".to_string(),
        "a/x.json".to_string(),
        "a/5.json".to_string(),
    ];
    let plan = commit_plan(&paths);
    let seqs: Vec<u64> = plan.iter().map(|(s, _)| *s).collect();
    assert_eq!(seqs, vec![2, 5, 7]);
    assert_eq!(plan[0].1, "a/2.json");
}

#[test]
fn commit_plan_keeps_listing_order_for_equal_numbers() {
    let paths = vec!["b/3.json".to_string(), "a/1.json".to_string(), "c/3.json".to_string(), "a/3.json".to_string()];
    let plan = commit_plan(&paths);
    let names: Vec<&str> = plan.iter().map(|(_, p)| p.as_str()).collect();
    assert_eq!(names, vec!["a/1.json", "b/3.json", "c/3.json", "a/3.json"]);
}

#[test]
fn test_verify_segment_bytes() {
    let payload = b"line1\nline2\n";
    let hex = blake3::hash(payload).to_hex().to_string();
    assert!(verify_segment_bytes(payload, &hex).is_ok());
    assert!(verify_segment_bytes(payload, &hex.to_uppercase()).is_ok());
    assert!(verify_segment_bytes(b"other", &hex).is_err());
}

#[test]
fn test_verify_segment_bytes_accepts_correct_hash() {
    let payload = b"line1\nline2\n";
    let hex = blake3::hash(payload).to_hex().to_string();
    assert!(verify_segment_bytes(payload, &hex).is_ok());
    assert!(verify_segment_bytes(payload, &format!("blake3:{}", hex)).is_ok());
}

#[test]
fn test_compute_bytes() {
    let data = b"ChatVault test data";
    let res = compute_blake3_bytes(data);
    assert!(!res.hex_hash.is_empty());
    assert!(res.object_id.starts_with("blake3:"));
    assert_eq!(res.bytes_read, data.len() as u64);
    assert_eq!(res.hex_hash, blake3::hash(data).to_hex().to_string());
    assert_eq!(res.object_id, format!("blake3:{}", res.hex_hash));
}

fn sample_line(seq: u64) -> String {
    let mut map = serde_json::Map::new();
    map.insert("event_id".to_string(), serde_json::Value::String(format!("evt-{}", seq)));
    map.insert("seq".to_string(), serde_json::Value::from(seq));
    serde_json::to_string(&serde_json::Value::Object(map)).unwrap()
}

#[test]
fn test_parse_journal_jsonl_skips_blank_lines() {
    let mut text = String::new();
    text.push_str(&sample_line(1));
    text.push_str("\n\n");
    text.push_str(&sample_line(2));
    text.push('\n');
    let lines = jsonl_lines(&text);
    assert_eq!(lines.len(), 2);
    let first: serde_json::Value = serde_json::from_str(&lines[0]).unwrap();
    let second: serde_json::Value = serde_json::from_str(&lines[1]).unwrap();
    assert_eq!(first["seq"], 1);
    assert_eq!(second["seq"], 2);
}

#[test]
fn test_parse_journal_jsonl_roundtrip() {
    let lines = vec![sample_line(1), sample_line(2), sample_line(3)];
    let text = jsonl_text(&lines);
    assert!(text.ends_with('\n'));
    assert_eq!(jsonl_lines(&text), lines);
}

#[test]
fn jsonl_lines_trim_and_carriage_returns() {
    assert_eq!(jsonl_lines("  a \r\n\r\n b\n"), vec!["a".to_string(), "b".to_string()]);
    assert!(jsonl_lines("").is_empty());
    assert_eq!(jsonl_lines("tail"), vec!["tail".to_string()]);
}

#[test]
fn test_epoch_save_load() {
    assert_eq!(epoch_from_setting(None), 1);
    assert_eq!(epoch_from_setting(Some("7")), 7);
    assert_eq!(epoch_from_setting(Some("x")), 1);
    assert_eq!(epoch_setting_key("pc-a"), "epoch_pc-a");
    assert_eq!(pending_segment_key("pc-a", 3), "pending_segment_pc-a_3");
    assert_eq!(effective_epoch(0), 1);
    assert_eq!(effective_epoch(9), 9);
}

fn hex_of(n: u8) -> String {
    blake3::hash(&[n]).to_hex().to_string()
}

fn event(seq: u64, kind: JournalEventType, backed_hash: &str) -> JournalEvent {
    let fields = match kind {
        JournalEventType::FileRecordAdded => vec![
            ("record_id".to_string(), FieldValue::Str(format!("r{}", seq))),
            ("source_type".to_string(), FieldValue::Str("test".into())),
            ("hash".to_string(), FieldValue::Str(backed_hash.to_string())),
            ("object_id".to_string(), FieldValue::Str(format!("blake3:{}", backed_hash))),
            ("size".to_string(), FieldValue::UInt(3)),
        ],
        _ => vec![("object_id".to_string(), FieldValue::Str(format!("blake3:{}", backed_hash)))],
    };
    JournalEvent {
        event_id: format!("e{}", seq),
        device_id: "pc-a".into(),
        epoch: 1,
        seq,
        logical_clock: seq,
        schema_version: 1,
        event_type: kind,
        payload: Payload { fields },
        created_at: "2024-01-01T00:00:00+00:00".into(),
    }
}

#[test]
fn publish_selection_stops_before_unarchived_file() {
    let h = hex_of(1);
    let events = vec![
        event(4, JournalEventType::ObjectHidden, &h),
        event(5, JournalEventType::FileRecordAdded, &h),
        event(6, JournalEventType::FileRecordAdded, &h),
    ];
    assert_eq!(select_publishable(&events, &vec![false, true, false], 3).unwrap(), 2);
    assert_eq!(select_publishable(&events, &vec![false, false, false], 3).unwrap(), 1);
    assert_eq!(select_publishable(&events, &vec![true, true, true], 3).unwrap(), 3);
}

#[test]
fn publish_selection_rejects_gap_and_invalid_event() {
    let h = hex_of(2);
    let events = vec![event(5, JournalEventType::ObjectHidden, &h)];
    assert!(select_publishable(&events, &vec![true], 3).is_err());
    let mut bad = event(4, JournalEventType::ObjectHidden, &h);
    bad.schema_version = 2;
    assert!(select_publishable(&vec![bad], &vec![true], 3).is_err());
}

#[test]
fn published_commit_is_accepted_by_puller() {
    let h = hex_of(3);
    let events = vec![
        event(4, JournalEventType::ObjectHidden, &h),
        event(5, JournalEventType::ObjectRestored, &h),
    ];
    let segment_hash = hex_of(9);
    let commit = build_commit("chatvault-v", "pc-a", 1, &events, 120, &segment_hash);
    assert_eq!(commit.first_seq, 4);
    assert_eq!(commit.last_seq, 5);
    assert_eq!(commit.event_count, 2);
    assert_eq!(commit.journal_hash, format!("blake3:{}", segment_hash));
    let path = check_commit_marker(&commit, "chatvault-v", "pc-a", 1, 5, 3).unwrap();
    assert_eq!(path, get_journal_segment_path("chatvault-v", "pc-a", 1, 5, &segment_hash));
    assert!(check_segment_events(&commit, 120, &events, "pc-a", 1).is_ok());
    assert!(check_segment_events(&commit, 121, &events, "pc-a", 1).is_err());
    assert!(check_commit_marker(&commit, "chatvault-v", "pc-a", 1, 5, 2).is_err());
}

#[test]
fn marker_with_wrong_identity_is_rejected() {
    let h = hex_of(4);
    let marker = CommitMarker {
        device_id: "pc-b".into(),
        epoch: 1,
        seq: 2,
        journal_path: get_journal_segment_path("chatvault-v", "pc-b", 1, 2, &h),
        journal_length: 1,
        journal_hash: format!("sha256:{}", h),
        event_count: 1,
        first_seq: 2,
        last_seq: 2,
    };
    assert!(check_commit_marker(&marker, "chatvault-v", "pc-a", 1, 2, 1).is_err());
    assert!(check_commit_marker(&marker, "chatvault-v", "pc-b", 1, 2, 1).is_err());
}

#[test]
fn epochs_are_replayed_once_in_order() {
    let listing = vec![
        "v/commits/dev/3".to_string(),
        "v/commits/dev/1".to_string(),
        "v/commits/dev/3".to_string(),
        "v/commits/dev/notes".to_string(),
        "v/commits/dev/12".to_string(),
    ];
    assert_eq!(epoch_plan(&listing).unwrap(), vec![1, 3, 12]);
    assert_eq!(epoch_plan(&Vec::new()).unwrap(), Vec::<u64>::new());
    let bad = vec!["v/commits/dev/2".to_string(), "v/commits/dev/0".to_string()];
    assert!(epoch_plan(&bad).is_err());
}

#[test]
fn device_registration_must_match_its_path() {
    let path = get_device_path("chatvault-a", "dev-1");
    assert!(check_device_registration(&path, "chatvault-a", "dev-1", 2).is_ok());
    assert!(check_device_registration(&path, "chatvault-a", "dev-1", 0).is_err());
    assert!(check_device_registration(&path, "chatvault-a", "dev-2", 2).is_err());
    assert!(check_device_registration(&path, "chatvault-a", "../x", 2).is_err());
}

#[test]
fn chunked_hash_equals_whole_hash() {
    let mut h = ContentHasher::new();
    h.update(b"hello ");
    h.update(b"");
    h.update(b"world");
    assert_eq!(h.fed_len(), 11);
    let r = h.finish();
    let whole = compute_blake3_bytes(b"hello world");
    assert_eq!(r, whole);
    assert_eq!(r.hex_hash, blake3::hash(b"hello world").to_hex().to_string());
    assert_eq!(r.object_id, format!("blake3:{}", r.hex_hash));
    assert_eq!(ContentHasher::new().finish().hex_hash, blake3::hash(b"").to_hex().to_string());
}
