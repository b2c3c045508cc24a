//! Journal events as the library reads them: an event header and a flat
//! payload of named scalar fields.
use vstd::prelude::*;
use crate::error::{ChatVaultError, msg};
use crate::format::algo_prefix;
use crate::text::{blank, has_prefix, is_blank, str_eq, strip_prefix_str};
use crate::validation::{valid_hash, valid_id, validate_hash, validate_id};

verus! {

/// Kind of a journal event.
#[derive(Debug, Clone, Copy, PartialEq, Eq, Structural)]
pub enum JournalEventType {
    FileRecordAdded,
    FileRecordDeleted,
    SourceAccountUpdated,
    SourceConversationUpdated,
    ObjectHidden,
    ObjectRestored,
    ObjectPurged,
}

/// A payload field as the validators see it. Numbers that are non-negative
/// integers fitting in 64 bits are `UInt`; every other number is `OtherNumber`;
/// arrays and objects are `Composite`.
pub enum FieldValue {
    Null,
    Bool(bool),
    UInt(u64),
    OtherNumber,
    Str(String),
    Composite,
}

/// A payload object: its top-level fields, each key at most once. A payload
/// that is not an object has no fields.
pub struct Payload {
    pub fields: Vec<(String, FieldValue)>,
}

impl Payload {
    /// Keys are pairwise distinct.
    pub open spec fn wf(&self) -> bool {
        forall|i: int, j: int|
            0 <= i < j < self.fields@.len() ==> self.fields@[i].0@ != self.fields@[j].0@
    }

    /// The value stored under `key`, if any.
    pub open spec fn get_spec(&self, key: Seq<char>) -> Option<FieldValue> {
        if exists|i: int| 0 <= i < self.fields@.len() && self.fields@[i].0@ == key {
            let i = choose|i: int| 0 <= i < self.fields@.len() && self.fields@[i].0@ == key;
            Some(self.fields@[i].1)
        } else {
            None
        }
    }
}

/// One journal event.
pub struct JournalEvent {
    pub event_id: String,
    pub device_id: String,
    pub epoch: u64,
    pub seq: u64,
    pub logical_clock: u64,
    pub schema_version: u32,
    pub event_type: JournalEventType,
    pub payload: Payload,
    /// Creation time as RFC 3339 text.
    pub created_at: String,
}

} // verus!

verus! {

/// The text stored under `key`, when it is a string.
pub open spec fn str_field(p: Payload, key: Seq<char>) -> Option<Seq<char>> {
    match p.get_spec(key) {
        Some(FieldValue::Str(s)) => Some(s@),
        _ => None,
    }
}

/// A required field: present as a string that is not blank.
pub open spec fn required_ok(p: Payload, key: Seq<char>) -> bool {
    str_field(p, key) is Some && !blank(str_field(p, key)->0)
}

/// An optional field is absent or null.
pub open spec fn optional_absent(p: Payload, key: Seq<char>) -> bool {
    p.get_spec(key) is None || p.get_spec(key) == Some(FieldValue::Null)
}

/// An optional field is well typed: absent, null, or a non-blank string.
pub open spec fn optional_ok(p: Payload, key: Seq<char>) -> bool {
    optional_absent(p, key) || required_ok(p, key)
}

/// A source key: not blank and at most 512 characters.
pub open spec fn source_key_ok(s: Seq<char>) -> bool {
    !blank(s) && s.len() <= 512
}

/// A required field holding a valid source key.
pub open spec fn required_key_ok(p: Payload, key: Seq<char>) -> bool {
    required_ok(p, key) && source_key_ok(str_field(p, key)->0)
}

/// An optional field that, when present, holds a valid source key.
pub open spec fn optional_key_ok(p: Payload, key: Seq<char>) -> bool {
    optional_ok(p, key) && (!optional_absent(p, key) ==> source_key_ok(str_field(p, key)->0))
}

/// Payload of a source mapping update.
pub open spec fn mapping_payload_ok(p: Payload, conversation: bool) -> bool {
    &&& required_key_ok(p, "source_type"@)
    &&& required_key_ok(p, "source_account_id"@)
    &&& conversation ==> required_key_ok(p, "source_conversation_id"@)
    &&& (p.get_spec("display_name"@) == Some(FieldValue::Null) || str_field(p, "display_name"@) is Some)
    &&& p.get_spec("is_favorite"@) matches Some(FieldValue::Bool(_))
}

/// Payload of a file record addition.
pub open spec fn added_payload_ok(p: Payload) -> bool {
    &&& required_ok(p, "record_id"@)
    &&& required_key_ok(p, "source_type"@)
    &&& optional_key_ok(p, "source_account_id"@)
    &&& optional_key_ok(p, "source_conversation_id"@)
    &&& (!optional_absent(p, "source_conversation_id"@) ==> !optional_absent(p, "source_account_id"@))
    &&& required_ok(p, "hash"@)
    &&& valid_hash(str_field(p, "hash"@)->0)
    &&& str_field(p, "object_id"@) == Some(algo_prefix() + str_field(p, "hash"@)->0)
    &&& p.get_spec("size"@) matches Some(FieldValue::UInt(_))
}

/// Payload of an object visibility event.
pub open spec fn object_payload_ok(p: Payload) -> bool {
    &&& required_ok(p, "object_id"@)
    &&& has_prefix(str_field(p, "object_id"@)->0, algo_prefix())
    &&& valid_hash(str_field(p, "object_id"@)->0.subrange(algo_prefix().len() as int, str_field(p, "object_id"@)->0.len() as int))
}

/// An event that may be published or applied: path-safe device, schema version 1,
/// non-zero sequence and epoch, an identifier, and a payload of its kind.
pub open spec fn event_valid(ev: JournalEvent) -> bool {
    &&& valid_id(ev.device_id@)
    &&& ev.schema_version == 1
    &&& ev.seq != 0
    &&& ev.epoch != 0
    &&& ev.event_id@.len() != 0
    &&& match ev.event_type {
        JournalEventType::FileRecordAdded => added_payload_ok(ev.payload),
        JournalEventType::FileRecordDeleted => required_ok(ev.payload, "record_id"@),
        JournalEventType::SourceAccountUpdated => mapping_payload_ok(ev.payload, false),
        JournalEventType::SourceConversationUpdated => mapping_payload_ok(ev.payload, true),
        _ => object_payload_ok(ev.payload),
    }
}

impl Payload {
    /// The value stored under `key`.
    pub fn get<'a>(&'a self, key: &str) -> (r: Option<&'a FieldValue>)
        requires
            self.wf(),
        ensures
            match r {
                Some(v) => self.get_spec(key@) == Some(*v),
                None => self.get_spec(key@) is None,
            },
    {
        let n = self.fields.len();
        let mut i: usize = 0;
        while i < n
            invariant
                n == self.fields@.len(),
                self.wf(),
                i <= n,
                forall|j: int| 0 <= j < i ==> self.fields@[j].0@ != key@,
            decreases n - i,
        {
            if str_eq(self.fields[i].0.as_str(), key) {
                proof {
                    let w = choose|w: int| 0 <= w < self.fields@.len() && self.fields@[w].0@ == key@;
                    if w > i {
                        assert(self.fields@[i as int].0@ != self.fields@[w].0@);
                    }
                    assert(w == i);
                }
                return Some(&self.fields[i].1);
            }
            i = i + 1;
        }
        None
    }
}

fn str_of(v: Option<&FieldValue>) -> (r: Option<&String>)
    ensures
        match v {
            Some(FieldValue::Str(s)) => r == Some(s),
            _ => r is None,
        },
{
    match v {
        Some(FieldValue::Str(s)) => Some(s),
        _ => None,
    }
}

fn require_string<'a>(p: &'a Payload, key: &str) -> (r: Result<&'a String, ChatVaultError>)
    requires
        p.wf(),
    ensures
        r is Ok <==> required_ok(*p, key@),
        r matches Ok(s) ==> str_field(*p, key@) == Some(s@),
        r matches Err(e) ==> e is Internal,
{
    match str_of(p.get(key)) {
        Some(s) => {
            if is_blank(s.as_str()) {
                Err(ChatVaultError::Internal(msg("事件缺少有效字段")))
            } else {
                Ok(s)
            }
        }
        None => Err(ChatVaultError::Internal(msg("事件缺少有效字段"))),
    }
}

fn optional_string<'a>(p: &'a Payload, key: &str) -> (r: Result<Option<&'a String>, ChatVaultError>)
    requires
        p.wf(),
    ensures
        r is Ok <==> optional_ok(*p, key@),
        r matches Ok(None) ==> optional_absent(*p, key@),
        r matches Ok(Some(s)) ==> !optional_absent(*p, key@) && str_field(*p, key@) == Some(s@),
        r matches Err(e) ==> e is Internal,
{
    match p.get(key) {
        None => Ok(None),
        Some(FieldValue::Null) => Ok(None),
        Some(FieldValue::Str(s)) => {
            if is_blank(s.as_str()) {
                Err(ChatVaultError::Internal(msg("事件字段类型无效")))
            } else {
                Ok(Some(s))
            }
        }
        _ => Err(ChatVaultError::Internal(msg("事件字段类型无效"))),
    }
}

fn validate_source_key(value: &str) -> (r: Result<(), ChatVaultError>)
    ensures
        r is Ok <==> source_key_ok(value@),
        r matches Err(e) ==> e is Internal,
{
    if is_blank(value) || value.unicode_len() > 512 {
        return Err(ChatVaultError::Internal(msg("来源键无效")));
    }
    Ok(())
}

fn require_key(p: &Payload, key: &str) -> (r: Result<(), ChatVaultError>)
    requires
        p.wf(),
    ensures
        r is Ok <==> required_key_ok(*p, key@),
        r matches Err(e) ==> e is Internal,
{
    let s = require_string(p, key)?;
    validate_source_key(s.as_str())
}

fn validate_mapping_payload(p: &Payload, conversation: bool) -> (r: Result<(), ChatVaultError>)
    requires
        p.wf(),
    ensures
        r is Ok <==> mapping_payload_ok(*p, conversation),
        r matches Err(e) ==> e is Internal,
{
    require_key(p, "source_type")?;
    require_key(p, "source_account_id")?;
    if conversation {
        require_key(p, "source_conversation_id")?;
    }
    match p.get("display_name") {
        Some(FieldValue::Null) | Some(FieldValue::Str(_)) => {}
        _ => { return Err(ChatVaultError::Internal(msg("display_name 类型无效"))); }
    }
    match p.get("is_favorite") {
        Some(FieldValue::Bool(_)) => Ok(()),
        _ => Err(ChatVaultError::Internal(msg("is_favorite 类型无效"))),
    }
}

/// Checks one event; unknown payload fields are allowed, unknown schema
/// versions and incomplete object identities are not.
pub fn validate_event(ev: &JournalEvent) -> (r: Result<(), ChatVaultError>)
    requires
        ev.payload.wf(),
    ensures
        r is Ok <==> event_valid(*ev),
        r matches Err(e) ==> e is Internal,
{
    validate_id(ev.device_id.as_str())?;
    if ev.schema_version != 1 || ev.seq == 0 || ev.epoch == 0 || ev.event_id.as_str().unicode_len() == 0 {
        return Err(ChatVaultError::Internal(msg("事件版本或标识无效")));
    }
    let p = &ev.payload;
    match ev.event_type {
        JournalEventType::FileRecordAdded => {
            require_string(p, "record_id")?;
            require_key(p, "source_type")?;
            let account = optional_string(p, "source_account_id")?;
            match account {
                Some(a) => validate_source_key(a.as_str())?,
                None => {}
            }
            let conversation = optional_string(p, "source_conversation_id")?;
            match conversation {
                Some(c) => {
                    validate_source_key(c.as_str())?;
                    if account.is_none() {
                        return Err(ChatVaultError::Internal(msg("source_conversation_id 不能脱离 source_account_id")));
                    }
                }
                None => {}
            }
            let hash = require_string(p, "hash")?;
            validate_hash(hash.as_str())?;
            let mut expected = String::from_str(algo_str());
            expected.append(hash.as_str());
            let object_ok = match str_of(p.get("object_id")) {
                Some(o) => str_eq(o.as_str(), expected.as_str()),
                None => false,
            };
            let size_ok = match p.get("size") {
                Some(FieldValue::UInt(_)) => true,
                _ => false,
            };
            if !object_ok || !size_ok {
                return Err(ChatVaultError::Internal(msg("事件对象身份或大小无效")));
            }
            Ok(())
        }
        JournalEventType::FileRecordDeleted => {
            require_string(p, "record_id")?;
            Ok(())
        }
        JournalEventType::SourceAccountUpdated => validate_mapping_payload(p, false),
        JournalEventType::SourceConversationUpdated => validate_mapping_payload(p, true),
        _ => {
            let object_id = require_string(p, "object_id")?;
            match strip_prefix_str(object_id.as_str(), algo_str()) {
                Some(h) => validate_hash(h),
                None => Err(ChatVaultError::Internal(msg("object_id 必须为 blake3: 前缀"))),
            }
        }
    }
}

fn algo_str() -> (s: &'static str)
    ensures
        s@ == algo_prefix(),
{
    proof { reveal_strlit("blake3:"); }
    "blake3:"
}

} // verus!

verus! {

/// The stored text of an event type.
pub open spec fn event_type_text(t: JournalEventType) -> Seq<char> {
    match t {
        JournalEventType::FileRecordAdded => "file_record_added"@,
        JournalEventType::FileRecordDeleted => "file_record_deleted"@,
        JournalEventType::SourceAccountUpdated => "source_account_updated"@,
        JournalEventType::SourceConversationUpdated => "source_conversation_updated"@,
        JournalEventType::ObjectHidden => "object_hidden"@,
        JournalEventType::ObjectRestored => "object_restored"@,
        JournalEventType::ObjectPurged => "object_purged"@,
    }
}

/// The stored text of an event type.
pub fn event_type_str(t: JournalEventType) -> (r: &'static str)
    ensures
        r@ == event_type_text(t),
{
    match t {
        JournalEventType::FileRecordAdded => "file_record_added",
        JournalEventType::FileRecordDeleted => "file_record_deleted",
        JournalEventType::SourceAccountUpdated => "source_account_updated",
        JournalEventType::SourceConversationUpdated => "source_conversation_updated",
        JournalEventType::ObjectHidden => "object_hidden",
        JournalEventType::ObjectRestored => "object_restored",
        JournalEventType::ObjectPurged => "object_purged",
    }
}

/// The event type a stored text names; an unknown text reads as a file
/// record addition.
pub open spec fn event_type_of(s: Seq<char>) -> JournalEventType {
    if s == "file_record_deleted"@ {
        JournalEventType::FileRecordDeleted
    } else if s == "source_account_updated"@ {
        JournalEventType::SourceAccountUpdated
    } else if s == "source_conversation_updated"@ {
        JournalEventType::SourceConversationUpdated
    } else if s == "object_hidden"@ {
        JournalEventType::ObjectHidden
    } else if s == "object_restored"@ {
        JournalEventType::ObjectRestored
    } else if s == "object_purged"@ {
        JournalEventType::ObjectPurged
    } else {
        JournalEventType::FileRecordAdded
    }
}

/// Reads a stored event type.
pub fn event_type_from_str(s: &str) -> (r: JournalEventType)
    ensures
        r == event_type_of(s@),
{
    if str_eq(s, "file_record_deleted") {
        JournalEventType::FileRecordDeleted
    } else if str_eq(s, "source_account_updated") {
        JournalEventType::SourceAccountUpdated
    } else if str_eq(s, "source_conversation_updated") {
        JournalEventType::SourceConversationUpdated
    } else if str_eq(s, "object_hidden") {
        JournalEventType::ObjectHidden
    } else if str_eq(s, "object_restored") {
        JournalEventType::ObjectRestored
    } else if str_eq(s, "object_purged") {
        JournalEventType::ObjectPurged
    } else {
        JournalEventType::FileRecordAdded
    }
}

/// Every event type survives being stored and read back.
pub proof fn lemma_event_type_roundtrip(t: JournalEventType)
    ensures
        event_type_of(event_type_text(t)) == t,
{
    reveal_strlit("file_record_added");
    reveal_strlit("file_record_deleted");
    reveal_strlit("source_account_updated");
    reveal_strlit("source_conversation_updated");
    reveal_strlit("object_hidden");
    reveal_strlit("object_restored");
    reveal_strlit("object_purged");
    assert("file_record_added"@.len() != "file_record_deleted"@.len());
    assert("file_record_added"@.len() != "source_account_updated"@.len());
    assert("file_record_added"@.len() != "source_conversation_updated"@.len());
    assert("file_record_added"@[0] != "object_hidden"@[0]);
    assert("file_record_added"@.len() != "object_restored"@.len());
    assert("file_record_added"@[0] != "object_purged"@[0]);
    assert("file_record_deleted"@.len() != "source_account_updated"@.len());
    assert("file_record_deleted"@.len() != "source_conversation_updated"@.len());
    assert("file_record_deleted"@.len() != "object_hidden"@.len());
    assert("file_record_deleted"@.len() != "object_restored"@.len());
    assert("file_record_deleted"@.len() != "object_purged"@.len());
    assert("source_account_updated"@.len() != "source_conversation_updated"@.len());
    assert("source_account_updated"@.len() != "object_hidden"@.len());
    assert("source_account_updated"@.len() != "object_restored"@.len());
    assert("source_account_updated"@.len() != "object_purged"@.len());
    assert("source_conversation_updated"@.len() != "object_hidden"@.len());
    assert("source_conversation_updated"@.len() != "object_restored"@.len());
    assert("source_conversation_updated"@.len() != "object_purged"@.len());
    assert("object_hidden"@.len() != "object_restored"@.len());
    assert("object_hidden"@[7] != "object_purged"@[7]);
    assert("object_restored"@.len() != "object_purged"@.len());
}

} // verus!
