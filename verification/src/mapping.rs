//! User-maintained source mappings (account and conversation names and
//! favourites) and their last-writer-wins merge across devices.
use vstd::prelude::*;
use crate::ordering::{Version, lemma_vlt_order, version_less, vlt};
use crate::error::msg;
use crate::event::JournalEvent;
use crate::error::ChatVaultError;
use crate::event::{FieldValue, Payload, mapping_payload_ok, source_key_ok, str_field};
use crate::text::{blank, is_blank};

verus! {

/// The synchronized part of an account or conversation mapping.
pub struct MappingRecord {
    pub display_name: Option<String>,
    pub is_favorite: bool,
    pub version: Version,
}

/// Mapping as values: name text, favourite flag, version.
pub type MappingView = (Option<Seq<char>>, bool, (u64, Seq<char>, Seq<char>));

/// Text of an optional name.
pub open spec fn opt_text(o: Option<String>) -> Option<Seq<char>> {
    match o {
        Some(s) => Some(s@),
        None => None,
    }
}

impl View for MappingRecord {
    type V = MappingView;

    open spec fn view(&self) -> MappingView {
        (opt_text(self.display_name), self.is_favorite, self.version@)
    }
}

/// An update replaces the stored mapping only when its version is strictly newer.
pub open spec fn mapping_after(stored: MappingView, update: MappingView) -> MappingView {
    if vlt(stored.2, update.2) { update } else { stored }
}

/// Applies a mapping update received from any device.
pub fn apply_mapping_update(stored: &mut MappingRecord, update: MappingRecord)
    ensures
        final(stored)@ == mapping_after(old(stored)@, update@),
{
    if version_less(&stored.version, &update.version) {
        *stored = update;
    }
}

/// Whether an incoming update must overwrite the stored mapping.
pub fn mapping_update_wins(stored: &Version, incoming: &Version) -> (r: bool)
    ensures
        r == vlt(stored@, incoming@),
{
    version_less(stored, incoming)
}

/// Merging two updates with different versions gives the same mapping in
/// either arrival order: the newer one wins.
pub proof fn lemma_mapping_merge_commutes(s: MappingView, u1: MappingView, u2: MappingView)
    requires
        u1.2 != u2.2,
    ensures
        mapping_after(mapping_after(s, u1), u2) == mapping_after(mapping_after(s, u2), u1),
{
    lemma_vlt_order(s.2, u1.2, u2.2);
    lemma_vlt_order(s.2, u2.2, u1.2);
    lemma_vlt_order(u1.2, u2.2, s.2);
    lemma_vlt_order(u2.2, u1.2, s.2);
    lemma_vlt_order(u1.2, s.2, u2.2);
    lemma_vlt_order(u2.2, s.2, u1.2);
}

/// Receiving the same update twice changes nothing the second time.
pub proof fn lemma_mapping_merge_idempotent(s: MappingView, u: MappingView)
    ensures
        mapping_after(mapping_after(s, u), u) == mapping_after(s, u),
{
    lemma_vlt_order(u.2, u.2, u.2);
}

/// An older update arriving after a newer one leaves the newer state in place.
pub proof fn lemma_mapping_stale_update_ignored(s: MappingView, newer: MappingView, older: MappingView)
    requires
        vlt(older.2, newer.2),
    ensures
        mapping_after(mapping_after(s, newer), older) == mapping_after(s, newer),
{
    lemma_vlt_order(older.2, newer.2, s.2);
    lemma_vlt_order(s.2, older.2, newer.2);
    lemma_vlt_order(newer.2, older.2, s.2);
}

/// A user-entered name: trimmed, and blank names mean no name.
pub open spec fn cleaned_name(name: Option<Seq<char>>) -> Option<Seq<char>> {
    match name {
        Some(n) => if blank(n) { None } else { Some(trim_ws(n)) },
        None => None,
    }
}

/// `s` without leading and trailing white space.
pub open spec fn trim_ws(s: Seq<char>) -> Seq<char> {
    crate::text::trim_both(s)
}

/// The name shown for a source: the custom name, else the source's own name,
/// else its stable identifier (blank names do not count).
pub open spec fn effective_name_spec(
    display_name: Option<Seq<char>>,
    source_name: Option<Seq<char>>,
    source_id: Seq<char>,
) -> Seq<char> {
    if display_name is Some && !blank(display_name->0) {
        display_name->0
    } else if source_name is Some && !blank(source_name->0) {
        source_name->0
    } else {
        source_id
    }
}

/// The name shown for a source.
pub fn effective_name(display_name: Option<&str>, source_name: Option<&str>, source_id: &str) -> (r: String)
    ensures
        r@ == effective_name_spec(
            match display_name { Some(s) => Some(s@), None => None },
            match source_name { Some(s) => Some(s@), None => None },
            source_id@,
        ),
{
    match display_name {
        Some(d) => {
            if !is_blank(d) {
                return String::from_str(d);
            }
        }
        None => {}
    }
    match source_name {
        Some(n) => {
            if !is_blank(n) {
                return String::from_str(n);
            }
        }
        None => {}
    }
    String::from_str(source_id)
}

} // verus!

verus! {

/// A user-entered custom name, trimmed; blank input clears the name.
pub fn clean_display_name(name: Option<&str>) -> (r: Option<String>)
    ensures
        opt_text(r) == cleaned_name(match name { Some(s) => Some(s@), None => None }),
{
    match name {
        Some(n) => {
            let t = crate::text::trim_str(n);
            if t.unicode_len() == 0 {
                proof { lemma_trim_empty_iff_blank(n@); }
                None
            } else {
                proof { lemma_trim_empty_iff_blank(n@); }
                Some(String::from_str(t))
            }
        }
        None => None,
    }
}

/// Trimming leaves nothing exactly when the text is blank.
pub proof fn lemma_trim_empty_iff_blank(s: Seq<char>)
    ensures
        (crate::text::trim_both(s).len() == 0) == blank(s),
{
    lemma_trim_start_blank(s);
    let t = crate::text::trim_start_ws(s);
    lemma_trim_end_len(t);
}

proof fn lemma_trim_start_blank(s: Seq<char>)
    ensures
        (crate::text::trim_start_ws(s).len() == 0) == blank(s),
        crate::text::trim_start_ws(s).len() > 0 ==> !crate::text::is_ws(crate::text::trim_start_ws(s)[0]),
    decreases s.len(),
{
    if s.len() > 0 && crate::text::is_ws(s[0]) {
        lemma_trim_start_blank(s.drop_first());
        if blank(s.drop_first()) {
            assert forall|i: int| 0 <= i < s.len() implies crate::text::is_ws(#[trigger] s[i]) by {
                if i > 0 {
                    assert(s[i] == s.drop_first()[i - 1]);
                }
            }
        } else {
            let j = choose|j: int| 0 <= j < s.drop_first().len() && !crate::text::is_ws(#[trigger] s.drop_first()[j]);
            assert(s[j + 1] == s.drop_first()[j]);
        }
    } else if s.len() > 0 {
        assert(!crate::text::is_ws(s[0]));
    }
}

proof fn lemma_trim_end_len(t: Seq<char>)
    requires
        t.len() > 0 ==> !crate::text::is_ws(t[0]),
    ensures
        (crate::text::trim_end_ws(t).len() == 0) == (t.len() == 0),
    decreases t.len(),
{
    if t.len() > 0 && crate::text::is_ws(t.last()) {
        if t.len() > 1 {
            assert(t.drop_last()[0] == t[0]);
        }
        lemma_trim_end_len(t.drop_last());
    }
}

} // verus!

verus! {

/// A source account mapping as listed.
#[derive(Debug, Clone)]
pub struct SourceAccountRow {
    pub source_type: String,
    pub source_account_id: String,
    pub source_name: Option<String>,
    pub display_name: Option<String>,
    pub effective_name: String,
    pub is_favorite: bool,
    pub record_count: usize,
}

/// A source conversation mapping as listed.
#[derive(Debug, Clone)]
pub struct SourceConversationRow {
    pub source_type: String,
    pub source_account_id: String,
    pub source_conversation_id: String,
    pub source_name: Option<String>,
    pub display_name: Option<String>,
    pub effective_name: String,
    pub is_favorite: bool,
    pub record_count: usize,
}

/// Builds a listed account mapping; its shown name falls back from the custom
/// name to the source name to the identifier.
pub fn source_account_row(
    source_type: String,
    source_account_id: String,
    source_name: Option<String>,
    display_name: Option<String>,
    is_favorite: bool,
    record_count: usize,
) -> (r: SourceAccountRow)
    ensures
        r.source_type@ == source_type@,
        r.source_account_id@ == source_account_id@,
        opt_text(r.source_name) == opt_text(source_name),
        opt_text(r.display_name) == opt_text(display_name),
        r.effective_name@ == effective_name_spec(opt_text(display_name), opt_text(source_name), source_account_id@),
        r.is_favorite == is_favorite,
        r.record_count == record_count,
{
    let shown = effective_name(opt_as_str(&display_name), opt_as_str(&source_name), source_account_id.as_str());
    SourceAccountRow {
        source_type,
        source_account_id,
        source_name,
        display_name,
        effective_name: shown,
        is_favorite,
        record_count,
    }
}

/// Builds a listed conversation mapping, with the same name fallback.
pub fn source_conversation_row(
    source_type: String,
    source_account_id: String,
    source_conversation_id: String,
    source_name: Option<String>,
    display_name: Option<String>,
    is_favorite: bool,
    record_count: usize,
) -> (r: SourceConversationRow)
    ensures
        r.source_type@ == source_type@,
        r.source_account_id@ == source_account_id@,
        r.source_conversation_id@ == source_conversation_id@,
        opt_text(r.source_name) == opt_text(source_name),
        opt_text(r.display_name) == opt_text(display_name),
        r.effective_name@ == effective_name_spec(opt_text(display_name), opt_text(source_name), source_conversation_id@),
        r.is_favorite == is_favorite,
        r.record_count == record_count,
{
    let shown = effective_name(opt_as_str(&display_name), opt_as_str(&source_name), source_conversation_id.as_str());
    SourceConversationRow {
        source_type,
        source_account_id,
        source_conversation_id,
        source_name,
        display_name,
        effective_name: shown,
        is_favorite,
        record_count,
    }
}

fn opt_as_str(o: &Option<String>) -> (r: Option<&str>)
    ensures
        match r {
            Some(s) => opt_text(*o) == Some(s@),
            None => o is None,
        },
{
    match o {
        Some(s) => Some(s.as_str()),
        None => None,
    }
}

/// Rediscovering a source keeps the source name it already has and only
/// fills in a missing one.
pub fn merge_source_name(existing: Option<String>, discovered: Option<String>) -> (r: Option<String>)
    ensures
        opt_text(r) == if existing is Some { opt_text(existing) } else { opt_text(discovered) },
{
    match existing {
        Some(e) => Some(e),
        None => discovered,
    }
}

} // verus!

verus! {

/// The keys of a mapping update payload are pairwise distinct.
proof fn lemma_mapping_keys_distinct()
    ensures
        "source_type"@ != "source_account_id"@,
        "source_type"@ != "source_conversation_id"@,
        "source_type"@ != "display_name"@,
        "source_type"@ != "is_favorite"@,
        "source_account_id"@ != "source_conversation_id"@,
        "source_account_id"@ != "display_name"@,
        "source_account_id"@ != "is_favorite"@,
        "source_conversation_id"@ != "display_name"@,
        "source_conversation_id"@ != "is_favorite"@,
        "display_name"@ != "is_favorite"@,
{
    reveal_strlit("source_type");
    reveal_strlit("source_account_id");
    reveal_strlit("source_conversation_id");
    reveal_strlit("display_name");
    reveal_strlit("is_favorite");
    assert("source_type"@.len() != "source_account_id"@.len());
    assert("source_type"@.len() != "source_conversation_id"@.len());
    assert("source_type"@.len() != "display_name"@.len());
    assert("source_type"@[0] != "is_favorite"@[0]);
    assert("source_account_id"@.len() != "source_conversation_id"@.len());
    assert("source_account_id"@.len() != "display_name"@.len());
    assert("source_account_id"@.len() != "is_favorite"@.len());
    assert("source_conversation_id"@.len() != "display_name"@.len());
    assert("source_conversation_id"@.len() != "is_favorite"@.len());
    assert("display_name"@.len() != "is_favorite"@.len());
}

proof fn lemma_get_at(p: Payload, i: int)
    requires
        p.wf(),
        0 <= i < p.fields@.len(),
    ensures
        p.get_spec(p.fields@[i].0@) == Some(p.fields@[i].1),
{
    let key = p.fields@[i].0@;
    let w = choose|w: int| 0 <= w < p.fields@.len() && p.fields@[w].0@ == key;
    if w != i {
        if w < i { assert(p.fields@[w].0@ != p.fields@[i].0@); }
        else { assert(p.fields@[i].0@ != p.fields@[w].0@); }
    }
}

/// The payload of a local mapping update: the source keys, the cleaned
/// custom name (null when cleared) and the favourite flag.
pub fn mapping_update_payload(
    source_type: &str,
    source_account_id: &str,
    source_conversation_id: Option<&str>,
    display_name: Option<String>,
    is_favorite: bool,
) -> (r: Payload)
    ensures
        r.wf(),
        str_field(r, "source_type"@) == Some(source_type@),
        str_field(r, "source_account_id"@) == Some(source_account_id@),
        match source_conversation_id {
            Some(c) => str_field(r, "source_conversation_id"@) == Some(c@),
            None => r.get_spec("source_conversation_id"@) is None,
        },
        match display_name {
            Some(d) => str_field(r, "display_name"@) == Some(d@),
            None => r.get_spec("display_name"@) == Some(FieldValue::Null),
        },
        r.get_spec("is_favorite"@) == Some(FieldValue::Bool(is_favorite)),
{
    proof { lemma_mapping_keys_distinct(); }
    let mut fields: Vec<(String, FieldValue)> = Vec::new();
    fields.push((String::from_str("source_type"), FieldValue::Str(String::from_str(source_type))));
    fields.push((String::from_str("source_account_id"), FieldValue::Str(String::from_str(source_account_id))));
    let has_conv = source_conversation_id.is_some();
    match source_conversation_id {
        Some(c) => {
            fields.push((String::from_str("source_conversation_id"), FieldValue::Str(String::from_str(c))));
        }
        None => {}
    }
    let name_value = match display_name {
        Some(d) => FieldValue::Str(d),
        None => FieldValue::Null,
    };
    fields.push((String::from_str("display_name"), name_value));
    fields.push((String::from_str("is_favorite"), FieldValue::Bool(is_favorite)));
    let p = Payload { fields };
    proof {
        let n = p.fields@.len();
        assert(p.wf());
        lemma_get_at(p, 0);
        lemma_get_at(p, 1);
        if has_conv {
            lemma_get_at(p, 2);
            lemma_get_at(p, 3);
            lemma_get_at(p, 4);
        } else {
            lemma_get_at(p, 2);
            lemma_get_at(p, 3);
            assert(!exists|i: int| 0 <= i < n && p.fields@[i].0@ == "source_conversation_id"@);
        }
    }
    p
}

/// A local mapping update is accepted by every device that receives it: with
/// valid source keys and a favourite flag, the payload it emits passes the
/// mapping payload check of its kind.
pub proof fn lemma_update_payload_valid(
    p: Payload,
    source_type: Seq<char>,
    source_account_id: Seq<char>,
    source_conversation_id: Option<Seq<char>>,
    display_name: Option<Seq<char>>,
    is_favorite: bool,
)
    requires
        str_field(p, "source_type"@) == Some(source_type),
        str_field(p, "source_account_id"@) == Some(source_account_id),
        match source_conversation_id {
            Some(c) => str_field(p, "source_conversation_id"@) == Some(c),
            None => p.get_spec("source_conversation_id"@) is None,
        },
        match display_name {
            Some(d) => str_field(p, "display_name"@) == Some(d),
            None => p.get_spec("display_name"@) == Some(FieldValue::Null),
        },
        p.get_spec("is_favorite"@) == Some(FieldValue::Bool(is_favorite)),
        source_key_ok(source_type),
        source_key_ok(source_account_id),
        source_conversation_id matches Some(c) ==> source_key_ok(c),
    ensures
        mapping_payload_ok(p, source_conversation_id is Some),
{
}

} // verus!

verus! {

/// Checks a source type or identifier: not blank and at most 512 characters;
/// the error names the field.
pub fn check_source_key(value: &str, field: &str) -> (r: Result<(), ChatVaultError>)
    ensures
        r is Ok <==> source_key_ok(value@),
        r matches Err(e) ==> e is Internal,
{
    if is_blank(value) || value.unicode_len() > 512 {
        let mut m = String::from_str(field);
        m.append(" 无效");
        return Err(ChatVaultError::Internal(m));
    }
    Ok(())
}

/// Prepares a local mapping update: checks the source keys, cleans the custom
/// name, and gives the payload of the event that announces it.
pub fn prepare_mapping_update(
    source_type: &str,
    source_account_id: &str,
    source_conversation_id: Option<&str>,
    display_name: Option<&str>,
    is_favorite: bool,
) -> (r: Result<(Option<String>, Payload), ChatVaultError>)
    ensures
        r is Ok <==> (source_key_ok(source_type@) && source_key_ok(source_account_id@)
            && (source_conversation_id matches Some(c) ==> source_key_ok(c@))),
        r matches Ok((name, p)) ==> {
            &&& opt_text(name) == cleaned_name(crate::text::opt_str(display_name))
            &&& p.wf()
            &&& mapping_payload_ok(p, source_conversation_id is Some)
        },
        r matches Err(e) ==> e is Internal,
{
    check_source_key(source_type, "source_type")?;
    check_source_key(source_account_id, "source_account_id")?;
    match source_conversation_id {
        Some(c) => { check_source_key(c, "source_conversation_id")?; }
        None => {}
    }
    let name = clean_display_name(display_name);
    let copy = match &name {
        Some(n) => Some(n.clone()),
        None => None,
    };
    let p = mapping_update_payload(source_type, source_account_id, source_conversation_id, copy, is_favorite);
    proof {
        lemma_update_payload_valid(
            p,
            source_type@,
            source_account_id@,
            crate::text::opt_str(source_conversation_id),
            opt_text(name),
            is_favorite,
        );
    }
    Ok((name, p))
}

} // verus!

verus! {

/// A field that is present and holds a valid source key.
pub open spec fn valid_key_field(o: Option<Seq<char>>) -> bool {
    match o {
        Some(s) => source_key_ok(s),
        None => false,
    }
}

/// What a received mapping update sets: its source keys (each a valid key),
/// its custom name (null, or a string read as a cleaned name) and its
/// favourite flag; `None` when any of them is missing or malformed.
pub open spec fn mapping_event_read(p: Payload, conversation: bool)
    -> Option<(Seq<char>, Seq<char>, Option<Seq<char>>, Option<Seq<char>>, bool)>
{
    let st = str_field(p, "source_type"@);
    let acc = str_field(p, "source_account_id"@);
    let conv = str_field(p, "source_conversation_id"@);
    let name: Option<Option<Seq<char>>> = match p.get_spec("display_name"@) {
        Some(FieldValue::Null) => Some(None),
        Some(FieldValue::Str(s)) => Some(cleaned_name(Some(s@))),
        _ => None,
    };
    let fav: Option<bool> = match p.get_spec("is_favorite"@) {
        Some(FieldValue::Bool(b)) => Some(b),
        _ => None,
    };
    if valid_key_field(st) && valid_key_field(acc) && (conversation ==> valid_key_field(conv))
        && name is Some && fav is Some {
        Some((st->0, acc->0, if conversation { conv } else { None }, name->0, fav->0))
    } else {
        None
    }
}

/// A received mapping update, ready to be merged.
pub struct MappingUpdate {
    pub source_type: String,
    pub source_account_id: String,
    pub source_conversation_id: Option<String>,
    pub record: MappingRecord,
}

fn required_key(p: &Payload, key: &str) -> (r: Result<String, ChatVaultError>)
    requires
        p.wf(),
    ensures
        match r {
            Ok(s) => str_field(*p, key@) == Some(s@) && source_key_ok(s@),
            Err(e) => !valid_key_field(str_field(*p, key@)) && e is Internal,
        },
{
    match p.get(key) {
        Some(FieldValue::Str(s)) => {
            check_source_key(s.as_str(), key)?;
            Ok(s.clone())
        }
        _ => {
            let mut m = String::from_str(key);
            m.append(" 无效");
            Err(ChatVaultError::Internal(m))
        }
    }
}

/// Reads a mapping update received from another device; its version is the
/// event's clock, device and identifier.
pub fn read_mapping_event(ev: &JournalEvent, conversation: bool) -> (r: Result<MappingUpdate, ChatVaultError>)
    requires
        ev.payload.wf(),
    ensures
        match mapping_event_read(ev.payload, conversation) {
            Some((st, acc, conv, name, fav)) => r matches Ok(u) && {
                &&& u.source_type@ == st
                &&& u.source_account_id@ == acc
                &&& opt_text(u.source_conversation_id) == conv
                &&& opt_text(u.record.display_name) == name
                &&& u.record.is_favorite == fav
                &&& u.record.version@ == (ev.logical_clock, ev.device_id@, ev.event_id@)
            },
            None => r matches Err(e) && e is Internal,
        },
{
    let p = &ev.payload;
    let st = required_key(p, "source_type")?;
    let acc = required_key(p, "source_account_id")?;
    let conv = if conversation {
        Some(required_key(p, "source_conversation_id")?)
    } else {
        None
    };
    let name = match p.get("display_name") {
        Some(FieldValue::Null) => None,
        Some(FieldValue::Str(s)) => clean_display_name(Some(s.as_str())),
        None => { return Err(ChatVaultError::Internal(msg("映射事件缺少 display_name"))); }
        _ => { return Err(ChatVaultError::Internal(msg("display_name 类型无效"))); }
    };
    let fav = match p.get("is_favorite") {
        Some(FieldValue::Bool(b)) => *b,
        _ => { return Err(ChatVaultError::Internal(msg("映射事件缺少 is_favorite"))); }
    };
    let version = Version {
        logical_clock: ev.logical_clock,
        device_id: ev.device_id.clone(),
        event_id: ev.event_id.clone(),
    };
    Ok(MappingUpdate {
        source_type: st,
        source_account_id: acc,
        source_conversation_id: conv,
        record: MappingRecord { display_name: name, is_favorite: fav, version },
    })
}

proof fn lemma_trim_idempotent(s: Seq<char>)
    ensures
        crate::text::trim_both(crate::text::trim_both(s)) == crate::text::trim_both(s),
{
    let a = crate::text::trim_start_ws(s);
    lemma_trim_start_blank(s);
    let t = crate::text::trim_end_ws(a);
    lemma_trim_end_prefix(a);
    if t.len() > 0 {
        assert(t[0] == a[0]);
        assert(crate::text::trim_start_ws(t) == t);
        lemma_trim_end_last(a);
    } else {
        assert(crate::text::trim_start_ws(t) == t);
    }
}

proof fn lemma_trim_end_prefix(a: Seq<char>)
    ensures
        crate::text::trim_end_ws(a).len() <= a.len(),
        forall|i: int| 0 <= i < crate::text::trim_end_ws(a).len() ==> crate::text::trim_end_ws(a)[i] == a[i],
    decreases a.len(),
{
    if a.len() > 0 && crate::text::is_ws(a.last()) {
        lemma_trim_end_prefix(a.drop_last());
        assert forall|i: int| 0 <= i < crate::text::trim_end_ws(a).len() implies crate::text::trim_end_ws(a)[i] == a[i] by {
            assert(crate::text::trim_end_ws(a) == crate::text::trim_end_ws(a.drop_last()));
            assert(a.drop_last()[i] == a[i]);
        }
    }
}

proof fn lemma_trim_end_last(a: Seq<char>)
    ensures
        crate::text::trim_end_ws(crate::text::trim_end_ws(a)) == crate::text::trim_end_ws(a),
    decreases a.len(),
{
    if a.len() > 0 && crate::text::is_ws(a.last()) {
        lemma_trim_end_last(a.drop_last());
    }
}

/// A mapping update made here is read the same everywhere: for a payload
/// as a local update writes it (valid keys, a cleaned custom name or null,
/// a favourite flag), every receiving device reads back exactly those keys,
/// that name and that flag.
pub proof fn lemma_mapping_update_roundtrip(
    p: Payload,
    source_type: Seq<char>,
    source_account_id: Seq<char>,
    source_conversation_id: Option<Seq<char>>,
    entered_name: Option<Seq<char>>,
    is_favorite: bool,
)
    requires
        str_field(p, "source_type"@) == Some(source_type),
        str_field(p, "source_account_id"@) == Some(source_account_id),
        match source_conversation_id {
            Some(c) => str_field(p, "source_conversation_id"@) == Some(c),
            None => p.get_spec("source_conversation_id"@) is None,
        },
        match cleaned_name(entered_name) {
            Some(d) => str_field(p, "display_name"@) == Some(d),
            None => p.get_spec("display_name"@) == Some(FieldValue::Null),
        },
        p.get_spec("is_favorite"@) == Some(FieldValue::Bool(is_favorite)),
        source_key_ok(source_type),
        source_key_ok(source_account_id),
        source_conversation_id matches Some(c) ==> source_key_ok(c),
    ensures
        mapping_event_read(p, source_conversation_id is Some)
            == Some((source_type, source_account_id, source_conversation_id, cleaned_name(entered_name), is_favorite)),
{
    match cleaned_name(entered_name) {
        Some(d) => {
            let n = entered_name->0;
            lemma_trim_idempotent(n);
            lemma_trim_empty_iff_blank(n);
            lemma_trim_empty_iff_blank(d);
            assert(p.get_spec("display_name"@) matches Some(FieldValue::Str(s)) && s@ == d);
        }
        None => {}
    }
}

} // verus!
