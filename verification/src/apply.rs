//! Reading received events before they are applied to the local index:
//! the fields of a file record addition with their defaults, the record of a
//! deletion, the object of a visibility event, and the identity of a new
//! local event.
use vstd::prelude::*;
use crate::error::{ChatVaultError, msg};
use crate::event::{FieldValue, JournalEvent, Payload, str_field};
use crate::text::{blank, is_blank};

verus! {

/// The text under `key` when it is a string, else `default`.
pub open spec fn text_or(p: Payload, key: Seq<char>, default: Seq<char>) -> Seq<char> {
    match str_field(p, key) {
        Some(s) => s,
        None => default,
    }
}

/// The number under `key` when it is an unsigned 64-bit integer, else 0.
pub open spec fn uint_or_zero(p: Payload, key: Seq<char>) -> u64 {
    match p.get_spec(key) {
        Some(FieldValue::UInt(v)) => v,
        _ => 0,
    }
}

fn text_or_default(p: &Payload, key: &str, default: &str) -> (r: String)
    requires
        p.wf(),
    ensures
        r@ == text_or(*p, key@, default@),
{
    match p.get(key) {
        Some(FieldValue::Str(s)) => s.clone(),
        _ => String::from_str(default),
    }
}

fn optional_text(p: &Payload, key: &str) -> (r: Option<String>)
    requires
        p.wf(),
    ensures
        match r {
            Some(s) => str_field(*p, key@) == Some(s@),
            None => str_field(*p, key@) is None,
        },
{
    match p.get(key) {
        Some(FieldValue::Str(s)) => Some(s.clone()),
        _ => None,
    }
}

/// The row a received file record addition writes, each field with its default.
#[derive(Debug)]
pub struct AddedRecord {
    pub object_id: String,
    pub record_id: String,
    pub hash: String,
    /// The payload size as the index stores it (a signed 64-bit integer).
    pub size: i64,
    pub mime: String,
    pub extension: String,
    pub object_created_at: String,
    pub source_type: String,
    pub source_account_id: Option<String>,
    pub source_conversation_id: Option<String>,
    pub original_name: String,
    pub file_time: String,
    pub time_source: String,
    pub discovered_at: String,
    pub device_id: String,
}

/// The addition carries the two identities it needs.
pub open spec fn added_identities_present(ev: JournalEvent) -> bool {
    text_or(ev.payload, "object_id"@, Seq::empty()).len() > 0
        && text_or(ev.payload, "record_id"@, Seq::empty()).len() > 0
}

/// Every field of the row equals the payload field, or its default.
pub open spec fn added_record_matches(r: AddedRecord, ev: JournalEvent) -> bool {
    let p = ev.payload;
    &&& r.object_id@ == text_or(p, "object_id"@, Seq::empty())
    &&& r.record_id@ == text_or(p, "record_id"@, Seq::empty())
    &&& r.hash@ == text_or(p, "hash"@, Seq::empty())
    &&& r.size == uint_or_zero(p, "size"@) as i64
    &&& r.mime@ == text_or(p, "mime"@, "application/octet-stream"@)
    &&& r.extension@ == text_or(p, "extension"@, Seq::empty())
    &&& r.object_created_at@ == text_or(p, "object_created_at"@, Seq::empty())
    &&& r.source_type@ == text_or(p, "source_type"@, "sync"@)
    &&& match r.source_account_id {
        Some(a) => str_field(p, "source_account_id"@) == Some(a@),
        None => str_field(p, "source_account_id"@) is None,
    }
    &&& match r.source_conversation_id {
        Some(c) => str_field(p, "source_conversation_id"@) == Some(c@),
        None => str_field(p, "source_conversation_id"@) is None,
    }
    &&& r.original_name@ == text_or(p, "original_name"@, "unknown"@)
    &&& r.file_time@ == text_or(p, "file_time"@, Seq::empty())
    &&& r.time_source@ == text_or(p, "time_source"@, "mtime"@)
    &&& r.discovered_at@ == text_or(p, "discovered_at"@, Seq::empty())
    &&& r.device_id@ == text_or(p, "device_id"@, ev.device_id@)
}

/// Reads the row of a received file record addition; it needs a non-empty
/// object and record identity, and every other field falls back to its default.
pub fn added_record(ev: &JournalEvent) -> (r: Result<AddedRecord, ChatVaultError>)
    requires
        ev.payload.wf(),
    ensures
        r is Ok <==> added_identities_present(*ev),
        r matches Ok(rec) ==> added_record_matches(rec, *ev),
        r matches Err(e) ==> e is Internal,
{
    proof { reveal_strlit(""); }
    let p = &ev.payload;
    let object_id = text_or_default(p, "object_id", "");
    let record_id = text_or_default(p, "record_id", "");
    if object_id.as_str().unicode_len() == 0 || record_id.as_str().unicode_len() == 0 {
        return Err(ChatVaultError::Internal(msg("FileRecordAdded payload 缺少 object_id/record_id")));
    }
    let size: i64 = match p.get("size") {
        Some(FieldValue::UInt(v)) => *v as i64,
        _ => 0,
    };
    let rec = AddedRecord {
        object_id,
        record_id,
        hash: text_or_default(p, "hash", ""),
        size,
        mime: text_or_default(p, "mime", "application/octet-stream"),
        extension: text_or_default(p, "extension", ""),
        object_created_at: text_or_default(p, "object_created_at", ""),
        source_type: text_or_default(p, "source_type", "sync"),
        source_account_id: optional_text(p, "source_account_id"),
        source_conversation_id: optional_text(p, "source_conversation_id"),
        original_name: text_or_default(p, "original_name", "unknown"),
        file_time: text_or_default(p, "file_time", ""),
        time_source: text_or_default(p, "time_source", "mtime"),
        discovered_at: text_or_default(p, "discovered_at", ""),
        device_id: text_or_default(p, "device_id", ev.device_id.as_str()),
    };
    assert(rec.size == uint_or_zero(ev.payload, "size"@) as i64);
    assert(rec.hash@ == text_or(ev.payload, "hash"@, Seq::empty()));
    assert(rec.device_id@ == text_or(ev.payload, "device_id"@, ev.device_id@));
    assert(rec.object_id@ == text_or(ev.payload, "object_id"@, Seq::empty()));
    assert(rec.record_id@ == text_or(ev.payload, "record_id"@, Seq::empty()));
    assert(rec.mime@ == text_or(ev.payload, "mime"@, "application/octet-stream"@));
    assert(rec.extension@ == text_or(ev.payload, "extension"@, Seq::empty()));
    assert(rec.object_created_at@ == text_or(ev.payload, "object_created_at"@, Seq::empty()));
    assert(rec.source_type@ == text_or(ev.payload, "source_type"@, "sync"@));
    assert(rec.original_name@ == text_or(ev.payload, "original_name"@, "unknown"@));
    assert(rec.file_time@ == text_or(ev.payload, "file_time"@, Seq::empty()));
    assert(rec.time_source@ == text_or(ev.payload, "time_source"@, "mtime"@));
    assert(rec.discovered_at@ == text_or(ev.payload, "discovered_at"@, Seq::empty()));
    Ok(rec)
}

/// The record a received deletion tombstones: its `record_id`, which must be
/// a non-empty string.
pub fn deleted_record_id(ev: &JournalEvent) -> (r: Result<String, ChatVaultError>)
    requires
        ev.payload.wf(),
    ensures
        match r {
            Ok(id) => id@ == text_or(ev.payload, "record_id"@, Seq::empty()) && id@.len() > 0,
            Err(e) => text_or(ev.payload, "record_id"@, Seq::empty()).len() == 0 && e is Internal,
        },
{
    proof { reveal_strlit(""); }
    let id = text_or_default(&ev.payload, "record_id", "");
    if id.as_str().unicode_len() == 0 {
        return Err(ChatVaultError::Internal(msg("删除事件缺少 record_id")));
    }
    Ok(id)
}

/// The object a received visibility event names: its `object_id`, which must
/// be a string that is not blank.
pub fn require_object_id(ev: &JournalEvent) -> (r: Result<String, ChatVaultError>)
    requires
        ev.payload.wf(),
    ensures
        match r {
            Ok(id) => str_field(ev.payload, "object_id"@) == Some(id@) && !blank(id@),
            Err(e) => (str_field(ev.payload, "object_id"@) is None
                || blank(str_field(ev.payload, "object_id"@)->0)) && e is Internal,
        },
{
    match ev.payload.get("object_id") {
        Some(FieldValue::Str(s)) => {
            if is_blank(s.as_str()) {
                Err(ChatVaultError::Internal(msg("对象可见性事件缺少 object_id")))
            } else {
                Ok(s.clone())
            }
        }
        _ => Err(ChatVaultError::Internal(msg("对象可见性事件缺少 object_id"))),
    }
}

/// The identity of the next local event from the stored epoch, the next
/// sequence number and the next logical clock, each at least 1.
pub fn event_identity(epoch: i64, seq: i64, logical_clock: i64) -> (r: (u64, u64, u64))
    ensures
        r.0 == if epoch < 1 { 1 } else { epoch as int },
        r.1 == if seq < 1 { 1 } else { seq as int },
        r.2 == if logical_clock < 1 { 1 } else { logical_clock as int },
{
    (
        if epoch < 1 { 1 } else { epoch as u64 },
        if seq < 1 { 1 } else { seq as u64 },
        if logical_clock < 1 { 1 } else { logical_clock as u64 },
    )
}

/// What a purge leaves for cleaning up the remote object.
#[derive(Debug, Clone)]
pub struct PurgeOutcome {
    pub object_id: String,
    pub hash: String,
    pub size: u64,
    /// Whether a not cancelled archive task existed (the remote may hold the object).
    pub had_upload_tasks: bool,
}

/// The purge outcome of an object from its stored hash and size; a negative
/// stored size counts as 0.
pub fn purge_outcome(object_id: &str, hash: String, size: i64, had_upload_tasks: bool) -> (r: PurgeOutcome)
    ensures
        r.object_id@ == object_id@,
        r.hash@ == hash@,
        r.size == if size < 0 { 0 } else { size as int },
        r.had_upload_tasks == had_upload_tasks,
{
    PurgeOutcome {
        object_id: String::from_str(object_id),
        hash,
        size: if size < 0 { 0 } else { size as u64 },
        had_upload_tasks,
    }
}

} // verus!
