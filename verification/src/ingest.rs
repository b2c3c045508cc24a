//! The journal event that records a newly ingested file, and why every
//! such event can be published.
use vstd::prelude::*;
use crate::apply::{AddedRecord, added_identities_present, added_record_matches};
use crate::event::{FieldValue, JournalEvent, Payload, added_payload_ok, source_key_ok, str_field};
use crate::mapping::opt_text;
use crate::format::algo_prefix;
use crate::text::blank;
use crate::validation::valid_hash;

verus! {

/// Image details of content that was decrypted and verified before ingestion.
pub struct ImageDetails {
    pub source_original_name: Option<String>,
    pub media_variant: Option<String>,
    pub image_group_key: Option<String>,
    pub width: Option<u32>,
    pub height: Option<u32>,
    pub frame_count: Option<u32>,
}

/// What a file record addition announces.
pub struct AddedFileFacts {
    pub record_id: String,
    pub hash: String,
    pub size: u64,
    pub mime: String,
    pub extension: String,
    pub object_created_at: String,
    pub source_type: String,
    pub source_account_id: Option<String>,
    pub source_conversation_id: Option<String>,
    pub original_name: String,
    pub file_time: String,
    pub time_source: String,
    pub discovered_at: String,
    pub device_id: String,
}

fn text_field(k: &str, v: &str) -> (r: (String, FieldValue))
    ensures
        r.0@ == k@,
        r.1 == FieldValue::Str(r.1->Str_0) && r.1->Str_0@ == v@,
{
    (String::from_str(k), FieldValue::Str(String::from_str(v)))
}

fn optional_field(k: &str, v: &Option<String>) -> (r: (String, FieldValue))
    ensures
        r.0@ == k@,
        match v {
            Some(s) => r.1 is Str && r.1->Str_0@ == s@,
            None => r.1 == FieldValue::Null,
        },
{
    match v {
        Some(s) => (String::from_str(k), FieldValue::Str(s.clone())),
        None => (String::from_str(k), FieldValue::Null),
    }
}

fn number_field(k: &str, v: Option<u32>) -> (r: (String, FieldValue))
    ensures
        r.0@ == k@,
        r.1 == match v { Some(n) => FieldValue::UInt(n as u64), None => FieldValue::Null },
{
    match v {
        Some(n) => (String::from_str(k), FieldValue::UInt(n as u64)),
        None => (String::from_str(k), FieldValue::Null),
    }
}

/// The keys of the fields every addition carries, in the order they are written.
pub open spec fn added_keys() -> Seq<Seq<char>> {
    seq![
        "object_id"@, "record_id"@, "hash"@, "size"@, "mime"@, "extension"@, "object_created_at"@,
        "source_type"@, "source_account_id"@, "source_conversation_id"@, "original_name"@,
        "file_time"@, "time_source"@, "discovered_at"@, "device_id"@,
    ]
}

/// The keys an addition of decrypted image content carries in addition.
pub open spec fn image_keys() -> Seq<Seq<char>> {
    seq!["source_original_name"@, "media_variant"@, "image_group_key"@, "width"@, "height"@, "frame_count"@]
}

proof fn lemma_keys_distinct()
    ensures
        forall|i: int, j: int| 0 <= i < j < (added_keys() + image_keys()).len()
            ==> (added_keys() + image_keys())[i] != (added_keys() + image_keys())[j],
{
    reveal_strlit("object_id");
    reveal_strlit("record_id");
    reveal_strlit("hash");
    reveal_strlit("size");
    reveal_strlit("mime");
    reveal_strlit("extension");
    reveal_strlit("object_created_at");
    reveal_strlit("source_type");
    reveal_strlit("source_account_id");
    reveal_strlit("source_conversation_id");
    reveal_strlit("original_name");
    reveal_strlit("file_time");
    reveal_strlit("time_source");
    reveal_strlit("discovered_at");
    reveal_strlit("device_id");
    reveal_strlit("source_original_name");
    reveal_strlit("media_variant");
    reveal_strlit("image_group_key");
    reveal_strlit("width");
    reveal_strlit("height");
    reveal_strlit("frame_count");
    let ks = added_keys() + image_keys();
    assert forall|i: int, j: int| 0 <= i < j < ks.len() implies ks[i] != ks[j] by {
        let a = ks[i];
        let b = ks[j];
        if a.len() == b.len() {
            assert(a[0] != b[0]);
        }
    }
}

/// The fields of the payload have the given keys, in order.
pub open spec fn keys_of(p: Payload) -> Seq<Seq<char>> {
    p.fields@.map_values(|f: (String, FieldValue)| f.0@)
}

proof fn lemma_wf_from_keys(p: Payload, ks: Seq<Seq<char>>)
    requires
        keys_of(p) == ks,
        forall|i: int, j: int| 0 <= i < j < ks.len() ==> ks[i] != ks[j],
    ensures
        p.wf(),
{
    assert forall|i: int, j: int| 0 <= i < j < p.fields@.len() implies p.fields@[i].0@ != p.fields@[j].0@ by {
        assert(keys_of(p)[i] == p.fields@[i].0@);
        assert(keys_of(p)[j] == p.fields@[j].0@);
    }
}

proof fn lemma_get_index(p: Payload, i: int)
    requires
        p.wf(),
        0 <= i < p.fields@.len(),
    ensures
        p.get_spec(p.fields@[i].0@) == Some(p.fields@[i].1),
{
    let key = p.fields@[i].0@;
    let w = choose|w: int| 0 <= w < p.fields@.len() && p.fields@[w].0@ == key;
    if w != i {
        if w < i { assert(p.fields@[w].0@ != p.fields@[i].0@); }
        else { assert(p.fields@[i].0@ != p.fields@[w].0@); }
    }
}

/// The payload announces exactly these facts: the object identity
/// `blake3:<hash>` and every field of the addition under its own key, with
/// null for an absent source account or conversation.
pub open spec fn added_payload_describes(p: Payload, facts: AddedFileFacts) -> bool {
    &&& str_field(p, "object_id"@) == Some(algo_prefix() + facts.hash@)
    &&& str_field(p, "record_id"@) == Some(facts.record_id@)
    &&& str_field(p, "hash"@) == Some(facts.hash@)
    &&& p.get_spec("size"@) == Some(FieldValue::UInt(facts.size))
    &&& str_field(p, "mime"@) == Some(facts.mime@)
    &&& str_field(p, "extension"@) == Some(facts.extension@)
    &&& str_field(p, "object_created_at"@) == Some(facts.object_created_at@)
    &&& str_field(p, "source_type"@) == Some(facts.source_type@)
    &&& match facts.source_account_id {
        Some(a) => str_field(p, "source_account_id"@) == Some(a@),
        None => p.get_spec("source_account_id"@) == Some(FieldValue::Null),
    }
    &&& match facts.source_conversation_id {
        Some(c) => str_field(p, "source_conversation_id"@) == Some(c@),
        None => p.get_spec("source_conversation_id"@) == Some(FieldValue::Null),
    }
    &&& str_field(p, "original_name"@) == Some(facts.original_name@)
    &&& str_field(p, "file_time"@) == Some(facts.file_time@)
    &&& str_field(p, "time_source"@) == Some(facts.time_source@)
    &&& str_field(p, "discovered_at"@) == Some(facts.discovered_at@)
    &&& str_field(p, "device_id"@) == Some(facts.device_id@)
}

/// The payload holds the optional text under `key`, or null when it is absent.
pub open spec fn optional_text_field(p: Payload, key: Seq<char>, v: Option<String>) -> bool {
    match v {
        Some(t) => str_field(p, key) == Some(t@),
        None => p.get_spec(key) == Some(FieldValue::Null),
    }
}

/// The payload holds the optional number under `key`, or null when it is absent.
pub open spec fn optional_number_field(p: Payload, key: Seq<char>, v: Option<u32>) -> bool {
    p.get_spec(key) == Some(match v { Some(n) => FieldValue::UInt(n as u64), None => FieldValue::Null })
}

/// The payload announces the image details under their own keys.
pub open spec fn image_payload_describes(p: Payload, img: ImageDetails) -> bool {
    &&& optional_text_field(p, "source_original_name"@, img.source_original_name)
    &&& optional_text_field(p, "media_variant"@, img.media_variant)
    &&& optional_text_field(p, "image_group_key"@, img.image_group_key)
    &&& optional_number_field(p, "width"@, img.width)
    &&& optional_number_field(p, "height"@, img.height)
    &&& optional_number_field(p, "frame_count"@, img.frame_count)
}

/// The payload of the event that records a newly ingested file: the object
/// identity `blake3:<hash>`, the record, the content and its sources (null
/// where absent), followed by the image details when there are any.
pub fn added_event_payload(facts: &AddedFileFacts, image: &Option<ImageDetails>) -> (r: Payload)
    ensures
        r.wf(),
        added_payload_describes(r, *facts),
        match image {
            Some(img) => keys_of(r) == added_keys() + image_keys() && image_payload_describes(r, *img),
            None => keys_of(r) == added_keys(),
        },
{
    let mut object_id = String::from_str(algo_str());
    object_id.append(facts.hash.as_str());
    let mut fields: Vec<(String, FieldValue)> = Vec::new();
    fields.push((String::from_str("object_id"), FieldValue::Str(object_id)));
    fields.push(text_field("record_id", facts.record_id.as_str()));
    fields.push(text_field("hash", facts.hash.as_str()));
    fields.push((String::from_str("size"), FieldValue::UInt(facts.size)));
    fields.push(text_field("mime", facts.mime.as_str()));
    fields.push(text_field("extension", facts.extension.as_str()));
    fields.push(text_field("object_created_at", facts.object_created_at.as_str()));
    fields.push(text_field("source_type", facts.source_type.as_str()));
    fields.push(optional_field("source_account_id", &facts.source_account_id));
    fields.push(optional_field("source_conversation_id", &facts.source_conversation_id));
    fields.push(text_field("original_name", facts.original_name.as_str()));
    fields.push(text_field("file_time", facts.file_time.as_str()));
    fields.push(text_field("time_source", facts.time_source.as_str()));
    fields.push(text_field("discovered_at", facts.discovered_at.as_str()));
    fields.push(text_field("device_id", facts.device_id.as_str()));
    let ghost base = fields@;
    let with_image = image.is_some();
    match image {
        Some(img) => {
            fields.push(optional_field("source_original_name", &img.source_original_name));
            fields.push(optional_field("media_variant", &img.media_variant));
            fields.push(optional_field("image_group_key", &img.image_group_key));
            fields.push(number_field("width", img.width));
            fields.push(number_field("height", img.height));
            fields.push(number_field("frame_count", img.frame_count));
        }
        None => {}
    }
    let p = Payload { fields };
    proof {
        lemma_keys_distinct();
        let all = added_keys() + image_keys();
        if with_image {
            assert(keys_of(p) =~= all);
            lemma_wf_from_keys(p, all);
        } else {
            assert(keys_of(p) =~= added_keys());
            assert forall|i: int, j: int| 0 <= i < j < added_keys().len()
                implies added_keys()[i] != added_keys()[j] by {
                assert(added_keys()[i] == all[i]);
                assert(added_keys()[j] == all[j]);
            }
            lemma_wf_from_keys(p, added_keys());
        }
        assert(p.fields@[0].0@ == "object_id"@);
        lemma_get_index(p, 0);
        lemma_get_index(p, 1);
        lemma_get_index(p, 2);
        lemma_get_index(p, 3);
        lemma_get_index(p, 4);
        lemma_get_index(p, 5);
        lemma_get_index(p, 6);
        lemma_get_index(p, 7);
        lemma_get_index(p, 8);
        lemma_get_index(p, 9);
        lemma_get_index(p, 10);
        lemma_get_index(p, 11);
        lemma_get_index(p, 12);
        lemma_get_index(p, 13);
        lemma_get_index(p, 14);
        if with_image {
            lemma_get_index(p, 15);
            lemma_get_index(p, 16);
            lemma_get_index(p, 17);
            lemma_get_index(p, 18);
            lemma_get_index(p, 19);
            lemma_get_index(p, 20);
        }
    }
    p
}

fn algo_str() -> (s: &'static str)
    ensures
        s@ == algo_prefix(),
{
    proof { reveal_strlit("blake3:"); }
    "blake3:"
}

/// Every addition the index records can be published: with a record
/// identity that is not blank, a valid content hash, a valid source type,
/// and source account and conversation that are valid keys (a conversation
/// only together with an account, as ingestion keeps them), its payload
/// passes the addition check every device applies.
pub proof fn lemma_ingested_event_publishable(p: Payload, facts: AddedFileFacts)
    requires
        added_payload_describes(p, facts),
        !blank(facts.record_id@),
        valid_hash(facts.hash@),
        source_key_ok(facts.source_type@),
        facts.source_account_id matches Some(a) ==> source_key_ok(a@),
        facts.source_conversation_id matches Some(c) ==> source_key_ok(c@),
        facts.source_conversation_id is Some ==> facts.source_account_id is Some,
    ensures
        added_payload_ok(p),
{
    assert(!blank(facts.hash@)) by {
        assert(!crate::text::is_ws(facts.hash@[0]));
    }
}

/// What one device records, every other device applies unchanged: the row a
/// receiving device reads from an ingested file's addition carries the same
/// object and record identity, content facts, source type, source account and
/// conversation, name, times and device as the facts that were recorded (the
/// size as the index stores it, a signed 64-bit integer).
pub proof fn lemma_published_addition_applies(p: Payload, facts: AddedFileFacts, ev: JournalEvent, rec: AddedRecord)
    requires
        added_payload_describes(p, facts),
        ev.payload == p,
        added_record_matches(rec, ev),
    ensures
        facts.record_id@.len() > 0 ==> added_identities_present(ev),
        rec.object_id@ == algo_prefix() + facts.hash@,
        rec.record_id@ == facts.record_id@,
        rec.hash@ == facts.hash@,
        rec.size == facts.size as i64,
        rec.mime@ == facts.mime@,
        rec.extension@ == facts.extension@,
        rec.object_created_at@ == facts.object_created_at@,
        rec.source_type@ == facts.source_type@,
        opt_text(rec.source_account_id) == opt_text(facts.source_account_id),
        opt_text(rec.source_conversation_id) == opt_text(facts.source_conversation_id),
        rec.original_name@ == facts.original_name@,
        rec.file_time@ == facts.file_time@,
        rec.time_source@ == facts.time_source@,
        rec.discovered_at@ == facts.discovered_at@,
        rec.device_id@ == facts.device_id@,
{
    reveal_strlit("blake3:");
}

} // verus!
