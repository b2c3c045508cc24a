use chatvault::apply::{added_record, deleted_record_id, event_identity, purge_outcome, require_object_id};
use chatvault::binding::{check_cursor_marker, check_remote_binding, is_binding_setting, normalize_url, binding_text};
use chatvault::event::{FieldValue, JournalEvent, JournalEventType, Payload};
use chatvault::journal::CommitMarker;
use chatvault::mapping::{
    apply_mapping_update, clean_display_name, effective_name, mapping_update_wins, merge_source_name, prepare_mapping_update,
    read_mapping_event, source_account_row, source_conversation_row, MappingRecord,
};
use chatvault::ordering::{version_less, Version};
use chatvault::visibility::{
    apply_hidden_event, apply_purged_event, apply_restored_event, decide_local_action, ObjectVisibility,
    VisibilityAction,
};
use chatvault::event::validate_event;

fn v(clock: u64, device: &str, event: &str) -> Version {
    Version { logical_clock: clock, device_id: device.into(), event_id: event.into() }
}

#[test]
fn version_order() {
    assert!(version_less(&v(1, "b", "z"), &v(2, "a", "a")));
    assert!(version_less(&v(2, "a", "z"), &v(2, "b", "a")));
    assert!(version_less(&v(2, "a", "a"), &v(2, "a", "b")));
    assert!(!version_less(&v(2, "a", "a"), &v(2, "a", "a")));
    assert!(mapping_update_wins(&v(3, "a", "e1"), &v(5, "b", "e2")));
    assert!(!mapping_update_wins(&v(5, "b", "e2"), &v(3, "a", "e1")));
    assert!(!mapping_update_wins(&v(5, "b", "e2"), &v(5, "b", "e2")));
}

#[test]
fn out_of_order_mapping_events_use_deterministic_last_write_wins() {
    let base = MappingRecord { display_name: None, is_favorite: false, version: v(0, "", "") };
    let newer = || MappingRecord { display_name: Some("新".into()), is_favorite: true, version: v(5, "dev-b", "e2") };
    let older = || MappingRecord { display_name: Some("旧".into()), is_favorite: false, version: v(3, "dev-a", "e1") };
    let mut a = MappingRecord { display_name: None, is_favorite: false, version: v(0, "", "") };
    apply_mapping_update(&mut a, older());
    apply_mapping_update(&mut a, newer());
    let mut b = base;
    apply_mapping_update(&mut b, newer());
    apply_mapping_update(&mut b, older());
    apply_mapping_update(&mut b, newer());
    assert_eq!(a.display_name, b.display_name);
    assert_eq!(a.display_name.as_deref(), Some("新"));
    assert!(a.is_favorite && b.is_favorite);
}

#[test]
fn names_and_rows() {
    assert_eq!(effective_name(Some("  "), Some("src"), "id"), "src");
    assert_eq!(effective_name(Some("mine"), Some("src"), "id"), "mine");
    assert_eq!(effective_name(None, Some(""), "id"), "id");
    assert_eq!(clean_display_name(Some("  名字 ")), Some("名字".to_string()));
    assert_eq!(clean_display_name(Some("   ")), None);
    assert_eq!(merge_source_name(Some("a".into()), Some("b".into())), Some("a".to_string()));
    assert_eq!(merge_source_name(None, Some("b".into())), Some("b".to_string()));
    let row = source_account_row("t".into(), "wxid".into(), Some("昵称".into()), None, true, 3);
    assert_eq!(row.effective_name, "昵称");
    assert_eq!(row.record_count, 3);
}

fn event(kind: JournalEventType, payload: Payload) -> JournalEvent {
    JournalEvent {
        event_id: "e1".into(),
        device_id: "dev-a".into(),
        epoch: 1,
        seq: 1,
        logical_clock: 1,
        schema_version: 1,
        event_type: kind,
        payload,
        created_at: "2024-01-01T00:00:00+00:00".into(),
    }
}

#[test]
fn account_update_is_atomic_and_clear_name_uses_null() {
    let (name, payload) = prepare_mapping_update("wechat-windows-4", "wxid_test", None, Some("  "), true).unwrap();
    assert_eq!(name, None);
    assert!(matches!(payload.get("display_name"), Some(FieldValue::Null)));
    assert!(matches!(payload.get("is_favorite"), Some(FieldValue::Bool(true))));
    assert!(validate_event(&event(JournalEventType::SourceAccountUpdated, payload)).is_ok());
    let (name, payload) = prepare_mapping_update("t", "a", Some("c"), Some(" 群 "), false).unwrap();
    assert_eq!(name.as_deref(), Some("群"));
    assert!(validate_event(&event(JournalEventType::SourceConversationUpdated, payload)).is_ok());
    assert!(prepare_mapping_update(" ", "a", None, None, false).is_err());
    assert!(prepare_mapping_update("t", &"x".repeat(513), None, None, false).is_err());
}

fn state(hidden: Option<Version>) -> ObjectVisibility {
    ObjectVisibility { exists: true, purged: false, hidden }
}

#[test]
fn purge_requires_hidden_and_removes_records() {
    let shown = state(None);
    assert!(decide_local_action(VisibilityAction::Purge, &shown).is_err());
    assert_eq!(decide_local_action(VisibilityAction::Hide, &shown).unwrap(), true);
    assert_eq!(decide_local_action(VisibilityAction::Restore, &shown).unwrap(), false);
    let mut hidden = state(Some(v(1, "dev-a", "e")));
    assert_eq!(decide_local_action(VisibilityAction::Purge, &hidden).unwrap(), true);
    apply_purged_event(&mut hidden);
    assert!(hidden.purged && hidden.hidden.is_none());
    assert!(decide_local_action(VisibilityAction::Purge, &hidden).is_err());
    assert!(decide_local_action(VisibilityAction::Restore, &hidden).is_err());
}

#[test]
fn remote_visibility_events() {
    let mut s = state(None);
    apply_hidden_event(&mut s, v(5, "b", "e5"));
    apply_restored_event(&mut s, &v(4, "a", "e4"));
    assert!(s.hidden.is_some());
    apply_restored_event(&mut s, &v(6, "a", "e6"));
    assert!(s.hidden.is_none());
    let mut gone = ObjectVisibility { exists: false, purged: false, hidden: None };
    apply_purged_event(&mut gone);
    apply_hidden_event(&mut gone, v(9, "a", "e9"));
    assert!(gone.purged && gone.hidden.is_none());
}

fn payload(fields: Vec<(&str, FieldValue)>) -> Payload {
    Payload { fields: fields.into_iter().map(|(k, v)| (k.to_string(), v)).collect() }
}

#[test]
fn received_addition_defaults() {
    let ev = event(
        JournalEventType::FileRecordAdded,
        payload(vec![
            ("object_id", FieldValue::Str("blake3:abc".into())),
            ("record_id", FieldValue::Str("r1".into())),
            ("size", FieldValue::UInt(12)),
            ("source_account_id", FieldValue::Str("acc".into())),
            ("account_id", FieldValue::Str("ignored".into())),
        ]),
    );
    let rec = added_record(&ev).unwrap();
    assert_eq!(rec.size, 12);
    assert_eq!(rec.mime, "application/octet-stream");
    assert_eq!(rec.source_type, "sync");
    assert_eq!(rec.original_name, "unknown");
    assert_eq!(rec.time_source, "mtime");
    assert_eq!(rec.device_id, "dev-a");
    assert_eq!(rec.source_account_id.as_deref(), Some("acc"));
    assert_eq!(rec.source_conversation_id, None);
    let missing = event(JournalEventType::FileRecordAdded, payload(vec![("record_id", FieldValue::Str("r".into()))]));
    assert!(added_record(&missing).is_err());
    let del = event(JournalEventType::FileRecordDeleted, payload(vec![("record_id", FieldValue::Str("r9".into()))]));
    assert_eq!(deleted_record_id(&del).unwrap(), "r9");
    assert!(deleted_record_id(&event(JournalEventType::FileRecordDeleted, payload(vec![]))).is_err());
    let hide = event(JournalEventType::ObjectHidden, payload(vec![("object_id", FieldValue::Str("  ".into()))]));
    assert!(require_object_id(&hide).is_err());
    assert_eq!(event_identity(0, -2, 7), (1, 1, 7));
    let out = purge_outcome("o", "h".into(), -5, true);
    assert_eq!(out.size, 0);
}

#[test]
fn binding_rejects_switches() {
    assert_eq!(normalize_url("  https://dav.example.com/root//  "), "https://dav.example.com/root");
    let bound = binding_text("https://dav.example.com/root/", "chatvault-home").unwrap();
    assert_eq!(bound, "[\"https://dav.example.com/root\",\"chatvault-home\"]");
    assert!(check_remote_binding(None, "https://x", "chatvault-home").is_ok());
    assert!(check_remote_binding(None, "https://x", "home").is_err());
    assert!(check_remote_binding(Some(&bound), " https://dav.example.com/root ", "chatvault-home").is_ok());
    assert!(check_remote_binding(Some(&bound), "https://dav.example.com/root", "chatvault-other").is_err());
    assert!(check_remote_binding(Some(&bound), "https://other.example.com", "chatvault-home").is_err());
}

#[test]
fn binding_text_escapes_like_json() {
    let text = binding_text("a\"b\\c\n\u{1}\u{1f}é\u{7f}/", "v").unwrap();
    assert_eq!(text, "[\"a\\\"b\\\\c\\n\\u0001\\u001fé\u{7f}\",\"v\"]");
    let expected = serde_json::to_string(&("a\"b\\c\n\u{1}\u{1f}é\u{7f}", "v")).unwrap();
    assert_eq!(text, expected);
}

#[test]
fn reset_vault_binding_allows_rebind() {
    assert!(is_binding_setting("remote_binding"));
    assert!(is_binding_setting("epoch_pc-a"));
    assert!(is_binding_setting("pending_segment_pc-a_1"));
    assert!(!is_binding_setting("device_id"));
    assert!(!is_binding_setting("copy_threshold_mib"));
}

#[test]
fn cursor_marker_must_belong_to_cursor() {
    let m = CommitMarker {
        device_id: "d".into(),
        epoch: 2,
        seq: 9,
        journal_path: String::new(),
        journal_length: 0,
        journal_hash: String::new(),
        event_count: 1,
        first_seq: 9,
        last_seq: 9,
    };
    assert!(check_cursor_marker(&m, "d", 2, 9).is_ok());
    assert!(check_cursor_marker(&m, "d", 2, 8).is_err());
    assert!(check_cursor_marker(&m, "e", 2, 9).is_err());
}

#[test]
fn hide_restore_updates_default_and_hidden_lists() {
    let mut s = state(None);
    assert_eq!(decide_local_action(VisibilityAction::Hide, &s).unwrap(), true);
    s.hidden = Some(v(1, "dev-a", "hide-1"));
    // hiding again changes nothing
    assert_eq!(decide_local_action(VisibilityAction::Hide, &s).unwrap(), false);
    assert_eq!(decide_local_action(VisibilityAction::Restore, &s).unwrap(), true);
    s.hidden = None;
    assert_eq!(decide_local_action(VisibilityAction::Restore, &s).unwrap(), false);
    assert!(s.hidden.is_none() && !s.purged);
}

#[test]
fn remote_purge_event_clears_local_records() {
    let mut s = state(Some(v(1, "dev-a", "hide-1")));
    apply_purged_event(&mut s);
    assert!(s.purged);
    assert!(s.hidden.is_none());
    assert!(decide_local_action(VisibilityAction::Restore, &s).is_err());
}

#[test]
fn remote_hide_before_add_still_hides_after_add() {
    let mut s = ObjectVisibility { exists: false, purged: false, hidden: None };
    apply_hidden_event(&mut s, v(2, "dev-b", "hide-1"));
    // the object's record arrives afterwards
    s.exists = true;
    assert!(s.hidden.is_some());
    assert_eq!(decide_local_action(VisibilityAction::Hide, &s).unwrap(), false);
    assert_eq!(decide_local_action(VisibilityAction::Restore, &s).unwrap(), true);
}

fn mapping_event(id: &str, device: &str, seq: u64, clock: u64, kind: JournalEventType, payload: Payload) -> JournalEvent {
    JournalEvent {
        event_id: id.into(),
        device_id: device.into(),
        epoch: 1,
        seq,
        logical_clock: clock,
        schema_version: 1,
        event_type: kind,
        payload,
        created_at: "2024-01-01T00:00:00+00:00".into(),
    }
}

#[test]
fn test_source_mapping_events_are_idempotent_and_lww() {
    let fields = || {
        payload(vec![
            ("source_type", FieldValue::Str("wechat-windows-4".into())),
            ("source_account_id", FieldValue::Str("wxid_test".into())),
            ("display_name", FieldValue::Str("新名称".into())),
            ("is_favorite", FieldValue::Bool(true)),
        ])
    };
    let newer = mapping_event("mapping-new", "device-b", 1, 2, JournalEventType::SourceAccountUpdated, fields());
    let older = mapping_event("mapping-old", "device-a", 1, 1, JournalEventType::SourceAccountUpdated, fields());
    let mut stored = MappingRecord { display_name: None, is_favorite: false, version: v(0, "", "") };
    let update = read_mapping_event(&newer, false).unwrap();
    assert_eq!(update.source_account_id, "wxid_test");
    apply_mapping_update(&mut stored, update.record);
    apply_mapping_update(&mut stored, read_mapping_event(&newer, false).unwrap().record);
    apply_mapping_update(&mut stored, read_mapping_event(&older, false).unwrap().record);
    assert_eq!(stored.display_name.as_deref(), Some("新名称"));
    assert!(stored.is_favorite);
    assert_eq!(stored.version.event_id, "mapping-new");

    let conversation = mapping_event(
        "conversation-1",
        "device-a",
        2,
        3,
        JournalEventType::SourceConversationUpdated,
        payload(vec![
            ("source_type", FieldValue::Str("wechat-windows-4".into())),
            ("source_account_id", FieldValue::Str("wxid_test".into())),
            ("source_conversation_id", FieldValue::Str("chat-123".into())),
            ("display_name", FieldValue::Null),
            ("is_favorite", FieldValue::Bool(false)),
        ]),
    );
    let update = read_mapping_event(&conversation, true).unwrap();
    assert_eq!(update.source_conversation_id.as_deref(), Some("chat-123"));
    assert_eq!(update.record.display_name, None);
    let row = source_conversation_row(
        update.source_type,
        update.source_account_id,
        update.source_conversation_id.unwrap(),
        None,
        update.record.display_name,
        update.record.is_favorite,
        0,
    );
    assert_eq!(row.effective_name, "chat-123");
}

#[test]
fn published_addition_applies_with_its_sources() {
    use_published_addition();
}

fn use_published_addition() {
    let facts = chatvault::ingest::AddedFileFacts {
        record_id: "rec-1".into(),
        hash: "a".repeat(64),
        size: 10,
        mime: "application/pdf".into(),
        extension: "pdf".into(),
        object_created_at: "2024-01-01T00:00:00+00:00".into(),
        source_type: "wechat-windows".into(),
        source_account_id: Some("wxid_x".into()),
        source_conversation_id: None,
        original_name: "测试文档.pdf".into(),
        file_time: "2024-01-01T00:00:00+00:00".into(),
        time_source: "mtime".into(),
        discovered_at: "2024-01-01T00:00:00+00:00".into(),
        device_id: "remote-pc".into(),
    };
    let payload = chatvault::ingest::added_event_payload(&facts, &None);
    let rec = added_record(&event(JournalEventType::FileRecordAdded, payload)).unwrap();
    assert_eq!(rec.object_id, format!("blake3:{}", "a".repeat(64)));
    assert_eq!(rec.record_id, "rec-1");
    assert_eq!(rec.source_type, "wechat-windows");
    assert_eq!(rec.source_account_id.as_deref(), Some("wxid_x"));
    assert_eq!(rec.source_conversation_id, None);
    assert_eq!(rec.original_name, "测试文档.pdf");
    assert_eq!(rec.device_id, "remote-pc");
    assert_eq!(rec.size, 10);
}

#[test]
fn image_details_are_announced_under_their_keys() {
    let facts = chatvault::ingest::AddedFileFacts {
        record_id: "rec-2".into(),
        hash: "b".repeat(64),
        size: 99,
        mime: "image/png".into(),
        extension: "png".into(),
        object_created_at: "t".into(),
        source_type: "wechat-windows".into(),
        source_account_id: None,
        source_conversation_id: None,
        original_name: "a.png".into(),
        file_time: "t".into(),
        time_source: "mtime".into(),
        discovered_at: "t".into(),
        device_id: "d".into(),
    };
    let img = chatvault::ingest::ImageDetails {
        source_original_name: Some("a.dat".into()),
        media_variant: None,
        image_group_key: Some("g".into()),
        width: Some(640),
        height: Some(480),
        frame_count: None,
    };
    let p = chatvault::ingest::added_event_payload(&facts, &Some(img));
    assert!(matches!(p.get("width"), Some(FieldValue::UInt(640))));
    assert!(matches!(p.get("height"), Some(FieldValue::UInt(480))));
    assert!(matches!(p.get("frame_count"), Some(FieldValue::Null)));
    assert!(matches!(p.get("media_variant"), Some(FieldValue::Null)));
    assert!(matches!(p.get("source_original_name"), Some(FieldValue::Str(s)) if s == "a.dat"));
    let bare = chatvault::ingest::added_event_payload(&facts, &None);
    assert_eq!(bare.fields.len(), 15);
    assert!(bare.get("width").is_none());
}
