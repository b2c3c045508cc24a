//! Publishing local journal events: which pending events form the next
//! segment, and the commit marker that announces it.
use vstd::prelude::*;
use crate::error::{ChatVaultError, msg};
use crate::event::{JournalEvent, JournalEventType, event_valid, validate_event};
use crate::format::{algo_prefix, journal_segment_path_spec, get_journal_segment_path};
use crate::journal::{CommitMarker, marker_acceptable, marker_hash, segment_consistent};
use crate::text::{has_prefix, opt_str, parse_u64, push_decimal, unsigned_literal};
use crate::validation::valid_hash;

verus! {

/// The epoch a publisher works in: never below 1.
pub fn effective_epoch(epoch: u64) -> (r: u64)
    ensures
        r == if epoch < 1 { 1 } else { epoch },
{
    if epoch < 1 { 1 } else { epoch }
}

/// The stored epoch of a device: the setting's value when it is a valid
/// unsigned number, else 1.
pub open spec fn epoch_setting_spec(value: Option<Seq<char>>) -> u64 {
    match value {
        Some(v) => match unsigned_literal(v) {
            Some(n) => if n <= u64::MAX { n as u64 } else { 1 },
            None => 1,
        },
        None => 1,
    }
}

/// Reads a device's epoch from its stored setting; absent or invalid gives 1.
pub fn epoch_from_setting(value: Option<&str>) -> (r: u64)
    ensures
        r == epoch_setting_spec(opt_str(value)),
{
    match value {
        Some(v) => match parse_u64(v) {
            Some(n) => n,
            None => 1,
        },
        None => 1,
    }
}

/// `epoch_` followed by the device identifier: the key of a device's epoch setting.
pub fn epoch_setting_key(device_id: &str) -> (r: String)
    ensures
        r@ == "epoch_"@ + device_id@,
{
    let mut k = String::from_str("epoch_");
    k.append(device_id);
    k
}

/// `pending_segment_<device>_<epoch>`: the key under which a prepared but
/// not yet committed segment is kept.
pub fn pending_segment_key(device_id: &str, epoch: u64) -> (r: String)
    ensures
        r@ == "pending_segment_"@ + device_id@ + "_"@ + crate::text::decimal(epoch as nat),
{
    let mut k = String::from_str("pending_segment_");
    k.append(device_id);
    k.append("_");
    push_decimal(&mut k, epoch);
    k
}

/// How many of the pending events, in order, go into the next segment, from
/// position `i` on: every event must be valid and carry the next sequence
/// number after `current` (else the whole selection fails, `None`); the
/// selection stops before a file-record event whose content is not archived
/// yet (`backed[i]` false).
pub open spec fn publish_scan(
    events: Seq<JournalEvent>,
    backed: Seq<bool>,
    current: u64,
    i: int,
) -> Option<nat>
    decreases events.len() - i,
{
    if i < 0 || i >= events.len() {
        Some(if i < 0 { 0 } else { i as nat })
    } else {
        let e = events[i];
        if !event_valid(e) || e.seq != current + i + 1 {
            None
        } else if e.event_type == JournalEventType::FileRecordAdded && !backed[i] {
            Some(i as nat)
        } else {
            publish_scan(events, backed, current, i + 1)
        }
    }
}

/// Every payload of the events is well formed.
pub open spec fn payloads_wf(events: Seq<JournalEvent>) -> bool {
    forall|k: int| 0 <= k < events.len() ==> (#[trigger] events[k]).payload.wf()
}

/// Chooses the pending events that form the next segment, given the applied
/// cursor `current` and, for each event, whether its content is archived;
/// returns their number. A sequence gap is an error, and so is an invalid
/// event, with the error its validation gives.
pub fn select_publishable(
    events: &Vec<JournalEvent>,
    backed: &Vec<bool>,
    current: u64,
) -> (r: Result<usize, ChatVaultError>)
    requires
        events@.len() == backed@.len(),
        payloads_wf(events@),
        current + events@.len() < u64::MAX,
    ensures
        match publish_scan(events@, backed@, current, 0) {
            Some(n) => r == Ok::<usize, ChatVaultError>(n as usize),
            None => r matches Err(ChatVaultError::Internal(_)),
        },
{
    let n = events.len();
    let mut i: usize = 0;
    while i < n
        invariant
            n == events@.len(),
            n == backed@.len(),
            i <= n,
            payloads_wf(events@),
            current + n < u64::MAX,
            publish_scan(events@, backed@, current, 0) == publish_scan(events@, backed@, current, i as int),
        decreases n - i,
    {
        let e = &events[i];
        match validate_event(e) {
            Ok(()) => {}
            Err(err) => { return Err(err); }
        }
        if e.seq != current + i as u64 + 1 {
            return Err(ChatVaultError::Internal(msg("本机事件序列存在缺口")));
        }
        if e.event_type == JournalEventType::FileRecordAdded && !backed[i] {
            return Ok(i);
        }
        i = i + 1;
    }
    Ok(i)
}

proof fn lemma_publish_scan_prefix(events: Seq<JournalEvent>, backed: Seq<bool>, current: u64, i: int)
    requires
        0 <= i <= events.len(),
        publish_scan(events, backed, current, i) is Some,
    ensures
        i <= publish_scan(events, backed, current, i)->0 <= events.len(),
        forall|k: int| i <= k < publish_scan(events, backed, current, i)->0 ==> {
            &&& event_valid(#[trigger] events[k])
            &&& events[k].seq == current + k + 1
            &&& (events[k].event_type == JournalEventType::FileRecordAdded ==> backed[k])
        },
    decreases events.len() - i,
{
    if i < events.len() {
        let e = events[i];
        if !(e.event_type == JournalEventType::FileRecordAdded && !backed[i]) {
            lemma_publish_scan_prefix(events, backed, current, i + 1);
        }
    }
}

/// What is published is safe to publish: the selected events are valid,
/// carry the sequence numbers right after the cursor with no gap, and none
/// announces a file whose content is not archived yet.
pub proof fn lemma_selection_contiguous(events: Seq<JournalEvent>, backed: Seq<bool>, current: u64)
    requires
        publish_scan(events, backed, current, 0) is Some,
    ensures
        publish_scan(events, backed, current, 0)->0 <= events.len(),
        forall|k: int| 0 <= k < publish_scan(events, backed, current, 0)->0 ==> {
            &&& event_valid(#[trigger] events[k])
            &&& events[k].seq == current + k + 1
            &&& (events[k].event_type == JournalEventType::FileRecordAdded ==> backed[k])
        },
{
    lemma_publish_scan_prefix(events, backed, current, 0);
}

/// The commit marker that announces `events` (non-empty, in order) as the
/// segment of `segment_len` bytes hashing to `segment_hash`.
pub open spec fn commit_spec(
    vault_id: Seq<char>,
    device_id: Seq<char>,
    epoch: u64,
    events: Seq<JournalEvent>,
    segment_len: u64,
    segment_hash: Seq<char>,
) -> (Seq<char>, u64, u64, Seq<char>, u64, Seq<char>, u64, u64, u64) {
    let first = events[0].seq;
    let last = events.last().seq;
    (
        device_id,
        epoch,
        last,
        journal_segment_path_spec(vault_id, device_id, epoch as nat, last as nat, segment_hash),
        segment_len,
        algo_prefix() + segment_hash,
        events.len() as u64,
        first,
        last,
    )
}

/// The fields of a commit marker, in declaration order.
pub open spec fn marker_fields(c: CommitMarker) -> (Seq<char>, u64, u64, Seq<char>, u64, Seq<char>, u64, u64, u64) {
    (
        c.device_id@,
        c.epoch,
        c.seq,
        c.journal_path@,
        c.journal_length,
        c.journal_hash@,
        c.event_count,
        c.first_seq,
        c.last_seq,
    )
}

/// Builds the commit marker of a segment holding `events`.
pub fn build_commit(
    vault_id: &str,
    device_id: &str,
    epoch: u64,
    events: &Vec<JournalEvent>,
    segment_len: u64,
    segment_hash: &str,
) -> (r: CommitMarker)
    requires
        events@.len() > 0,
    ensures
        marker_fields(r) == commit_spec(vault_id@, device_id@, epoch, events@, segment_len, segment_hash@),
{
    let first = events[0].seq;
    let last = events[events.len() - 1].seq;
    let path = get_journal_segment_path(vault_id, device_id, epoch, last, segment_hash);
    let mut hash = String::from_str(algo_str());
    hash.append(segment_hash);
    CommitMarker {
        device_id: String::from_str(device_id),
        epoch,
        seq: last,
        journal_path: path,
        journal_length: segment_len,
        journal_hash: hash,
        event_count: events.len() as u64,
        first_seq: first,
        last_seq: last,
    }
}

fn algo_str() -> (s: &'static str)
    ensures
        s@ == algo_prefix(),
{
    proof { reveal_strlit("blake3:"); }
    "blake3:"
}

/// What the publisher writes, the puller accepts: the marker built for a
/// selection of events of this device epoch that follow the cursor without a
/// gap, with a valid segment hash, passes the marker checks at that cursor,
/// and the segment of those events passes the segment checks.
pub proof fn lemma_published_commit_accepted(
    c: CommitMarker,
    vault_id: Seq<char>,
    device_id: Seq<char>,
    epoch: u64,
    events: Seq<JournalEvent>,
    current: u64,
    segment_len: u64,
    segment_hash: Seq<char>,
)
    requires
        events.len() > 0,
        current + events.len() < u64::MAX,
        forall|k: int| 0 <= k < events.len() ==> {
            &&& (#[trigger] events[k]).seq == current + k + 1
            &&& events[k].device_id@ == device_id
            &&& events[k].epoch == epoch
        },
        valid_hash(segment_hash),
        marker_fields(c) == commit_spec(vault_id, device_id, epoch, events, segment_len, segment_hash),
    ensures
        marker_acceptable(c, vault_id, device_id, epoch, c.last_seq, current),
        segment_consistent(c, segment_len as nat, events, device_id, epoch),
{
    let full = algo_prefix() + segment_hash;
    assert(c.journal_hash@ == full);
    assert(has_prefix(full, algo_prefix())) by {
        assert(full.subrange(0, algo_prefix().len() as int) =~= algo_prefix());
    }
    assert(full.subrange(algo_prefix().len() as int, full.len() as int) =~= segment_hash);
    assert(marker_hash(c) == Some(segment_hash));
    assert(events[0].seq == current + 1);
    assert(events[events.len() - 1].seq == current + events.len());
}

} // verus!

verus! {

/// The hash a publisher declares for its segment passes the puller's hash
/// comparison: a valid hash behind its `blake3:` prefix compares equal to
/// itself once the prefix is removed.
pub proof fn lemma_declared_hash_verifies(h: Seq<char>)
    requires
        valid_hash(h),
    ensures
        crate::hasher::eq_ignore_ascii_case(h, crate::text::trim_start_all(algo_prefix() + h, algo_prefix())),
{
    let p = algo_prefix();
    let full = p + h;
    assert(has_prefix(full, p)) by {
        assert(full.subrange(0, p.len() as int) =~= p);
    }
    assert(full.subrange(p.len() as int, full.len() as int) =~= h);
    assert(!has_prefix(h, p)) by {
        if has_prefix(h, p) {
            assert(h[1] == h.subrange(0, p.len() as int)[1]);
            assert(p[1] == 'l');
            assert(crate::validation::is_lower_hex(h[1]));
        }
    }
    assert(crate::text::trim_start_all(full, p) == crate::text::trim_start_all(h, p));
}

} // verus!
