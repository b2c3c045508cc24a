//! Pulling remote journals: commit marker discovery, identity and range checks
//! of commit markers and their segments, and the contiguity that lets a sync
//! cursor advance.
use vstd::prelude::*;
use crate::error::{ChatVaultError, msg};
use crate::event::JournalEvent;
use crate::ordering::lemma_filter_insert;
use crate::format::{algo_prefix, commit_dir_spec, commit_path_spec, device_path_spec, journal_segment_path_spec, get_device_path, get_journal_segment_path};
use crate::text::{
    has_prefix, has_suffix, last_segment, last_segment_str, parse_u64, strip_prefix_str,
    strip_suffix_str, unsigned_literal, all_digits, decimal, digits_value, lemma_decimal_value,
    lemma_last_segment_after_slash,
};
use crate::validation::{valid_hash, valid_id, validate_hash, validate_id};

verus! {

/// `.json`.
pub open spec fn json_suffix() -> Seq<char> {
    seq!['.', 'j', 's', 'o', 'n']
}

fn json_suffix_str() -> (s: &'static str)
    ensures
        s@ == json_suffix(),
{
    proof { reveal_strlit(".json"); }
    ".json"
}

fn algo_prefix_str() -> (s: &'static str)
    ensures
        s@ == algo_prefix(),
{
    proof { reveal_strlit("blake3:"); }
    "blake3:"
}

/// Sequence number named by a commit marker path `.../<seq>.json`.
pub open spec fn commit_seq_spec(path: Seq<char>) -> Option<u64> {
    let name = last_segment(path);
    if has_suffix(name, json_suffix()) {
        match unsigned_literal(name.subrange(0, name.len() - json_suffix().len())) {
            Some(v) => if v <= u64::MAX { Some(v as u64) } else { None },
            None => None,
        }
    } else {
        None
    }
}

/// Commit marker paths round trip: the sequence number read back from the
/// path written for a commit is that commit's sequence number.
pub proof fn lemma_commit_path_roundtrip(vault_id: Seq<char>, device_id: Seq<char>, epoch: u64, seq: u64)
    ensures
        commit_seq_spec(commit_path_spec(vault_id, device_id, epoch as nat, seq as nat)) == Some(seq),
{
    reveal_strlit("/");
    reveal_strlit(".json");
    let dir = commit_dir_spec(vault_id, device_id, epoch as nat);
    let d = decimal(seq as nat);
    lemma_decimal_value(seq as nat);
    let name = d + json_suffix();
    assert(".json"@ =~= json_suffix());
    assert(commit_path_spec(vault_id, device_id, epoch as nat, seq as nat) =~= dir.push('/') + name);
    assert forall|i: int| 0 <= i < name.len() implies name[i] != '/' by {
        if i < d.len() {
            assert(crate::text::is_digit(d[i]));
        }
    }
    lemma_last_segment_after_slash(dir, name);
    assert(name.subrange(name.len() - json_suffix().len(), name.len() as int) =~= json_suffix());
    assert(name.subrange(0, name.len() - json_suffix().len()) =~= d);
    assert(d[0] != '+') by {
        assert(crate::text::is_digit(d[0]));
    }
}

/// Extracts the sequence number from a commit marker path, e.g. `.../commits/dev1/1/5.json` gives 5.
pub fn seq_from_commit_path(path: &str) -> (r: Option<u64>)
    ensures
        r == commit_seq_spec(path@),
{
    let name = last_segment_str(path);
    match strip_suffix_str(name, json_suffix_str()) {
        Some(stem) => parse_u64(stem),
        None => None,
    }
}

/// A published commit marker: it names one immutable segment holding the
/// events `first_seq..=last_seq` of one device epoch.
pub struct CommitMarker {
    pub device_id: String,
    pub epoch: u64,
    pub seq: u64,
    pub journal_path: String,
    pub journal_length: u64,
    pub journal_hash: String,
    pub event_count: u64,
    pub first_seq: u64,
    pub last_seq: u64,
}

/// The marker belongs to this device epoch, is named by `file_seq`, and its
/// range starts within one step of the applied cursor.
pub open spec fn marker_identity_ok(
    c: CommitMarker,
    device_id: Seq<char>,
    epoch: u64,
    file_seq: u64,
    last_applied: u64,
) -> bool {
    &&& c.device_id@ == device_id
    &&& c.epoch == epoch
    &&& c.seq == file_seq
    &&& c.last_seq == file_seq
    &&& c.first_seq <= last_applied + 1
    &&& c.first_seq != 0
    &&& c.first_seq <= c.last_seq
}

/// The segment hash of a marker with its `blake3:` prefix removed, when it has one.
pub open spec fn marker_hash(c: CommitMarker) -> Option<Seq<char>> {
    if has_prefix(c.journal_hash@, algo_prefix()) {
        Some(c.journal_hash@.subrange(algo_prefix().len() as int, c.journal_hash@.len() as int))
    } else {
        None
    }
}

/// Everything a marker must satisfy before its segment is fetched.
pub open spec fn marker_acceptable(
    c: CommitMarker,
    vault_id: Seq<char>,
    device_id: Seq<char>,
    epoch: u64,
    file_seq: u64,
    last_applied: u64,
) -> bool {
    &&& marker_identity_ok(c, device_id, epoch, file_seq, last_applied)
    &&& marker_hash(c) is Some
    &&& valid_hash(marker_hash(c)->0)
    &&& c.journal_path@ == journal_segment_path_spec(
        vault_id,
        device_id,
        epoch as nat,
        file_seq as nat,
        marker_hash(c)->0,
    )
}

fn seq_eq(a: &str, b: &str) -> (r: bool)
    ensures
        r == (a@ == b@),
{
    let n = a.unicode_len();
    if n != b.unicode_len() {
        return false;
    }
    let mut i: usize = 0;
    while i < n
        invariant
            n == a@.len(),
            n == b@.len(),
            i <= n,
            forall|j: int| 0 <= j < i ==> a@[j] == b@[j],
        decreases n - i,
    {
        if a.get_char(i) != b.get_char(i) {
            return false;
        }
        i = i + 1;
    }
    assert(a@ =~= b@);
    true
}

/// Checks a downloaded commit marker against the device epoch it was listed
/// under and the applied cursor; returns the segment path that must be fetched.
pub fn check_commit_marker(
    c: &CommitMarker,
    vault_id: &str,
    device_id: &str,
    epoch: u64,
    file_seq: u64,
    last_applied: u64,
) -> (r: Result<String, ChatVaultError>)
    requires
        last_applied < u64::MAX,
    ensures
        match r {
            Ok(path) => marker_acceptable(*c, vault_id@, device_id@, epoch, file_seq, last_applied)
                && path@ == c.journal_path@,
            Err(e) => !marker_acceptable(*c, vault_id@, device_id@, epoch, file_seq, last_applied)
                && e is Internal,
        },
{
    if !seq_eq(c.device_id.as_str(), device_id) || c.epoch != epoch || c.seq != file_seq
        || c.last_seq != file_seq || c.first_seq > last_applied + 1 || c.first_seq == 0
        || c.first_seq > c.last_seq
    {
        return Err(ChatVaultError::Internal(msg("提交身份或连续范围不正确")));
    }
    let hash = match strip_prefix_str(c.journal_hash.as_str(), algo_prefix_str()) {
        Some(h) => h,
        None => { return Err(ChatVaultError::Internal(msg("分片哈希算法不支持"))); }
    };
    if validate_hash(hash).is_err() {
        return Err(ChatVaultError::Internal(msg("BLAKE3 必须为 64 位小写十六进制哈希")));
    }
    let expected = get_journal_segment_path(vault_id, device_id, epoch, file_seq, hash);
    if !seq_eq(c.journal_path.as_str(), expected.as_str()) {
        return Err(ChatVaultError::Internal(msg("日志路径与提交标记不一致")));
    }
    Ok(expected)
}

} // verus!

verus! {

/// A fetched segment is consistent with its marker: declared length, event
/// count equal to the declared range, and events `first_seq, first_seq+1, ...`
/// of this device epoch in order.
pub open spec fn segment_consistent(
    c: CommitMarker,
    byte_len: nat,
    events: Seq<JournalEvent>,
    device_id: Seq<char>,
    epoch: u64,
) -> bool {
    &&& byte_len == c.journal_length
    &&& events.len() == c.event_count
    &&& c.first_seq <= c.last_seq
    &&& c.event_count == c.last_seq - c.first_seq + 1
    &&& forall|k: int| 0 <= k < events.len() ==> {
        &&& (#[trigger] events[k]).device_id@ == device_id
        &&& events[k].epoch == epoch
        &&& events[k].seq == c.first_seq + k
    }
}

/// Checks a fetched segment (its byte length and parsed events) against its marker.
pub fn check_segment_events(
    c: &CommitMarker,
    byte_len: usize,
    events: &Vec<JournalEvent>,
    device_id: &str,
    epoch: u64,
) -> (r: Result<(), ChatVaultError>)
    requires
        1 <= c.first_seq <= c.last_seq,
    ensures
        r is Ok <==> segment_consistent(*c, byte_len as nat, events@, device_id@, epoch),
        r matches Err(e) ==> e is Internal,
{
    if byte_len as u64 != c.journal_length {
        return Err(ChatVaultError::Internal(msg("分片长度不一致")));
    }
    if events.len() as u64 != c.event_count || c.event_count != c.last_seq - c.first_seq + 1 {
        return Err(ChatVaultError::Internal(msg("分片事件数量不一致")));
    }
    let n = events.len();
    let mut k: usize = 0;
    while k < n
        invariant
            n == events@.len(),
            k <= n,
            n == c.event_count,
            c.event_count == c.last_seq - c.first_seq + 1,
            forall|j: int| 0 <= j < k ==> {
                &&& (#[trigger] events@[j]).device_id@ == device_id@
                &&& events@[j].epoch == epoch
                &&& events@[j].seq == c.first_seq + j
            },
        decreases n - k,
    {
        let ev = &events[k];
        if !seq_eq(ev.device_id.as_str(), device_id) || ev.epoch != epoch
            || ev.seq != c.first_seq + k as u64
        {
            return Err(ChatVaultError::Internal(msg("分片事件不连续或身份不一致")));
        }
        k = k + 1;
    }
    Ok(())
}

/// The event at offset `s - first` of `events` carries sequence number `s` of this device epoch.
pub open spec fn carried_at(events: Seq<JournalEvent>, first: u64, s: int, device_id: Seq<char>, epoch: u64) -> bool {
    let k = s - first;
    &&& 0 <= k < events.len()
    &&& events[k].seq == s
    &&& events[k].device_id@ == device_id
    &&& events[k].epoch == epoch
}

/// An accepted marker whose segment is consistent leaves no gap: every
/// sequence number after the applied cursor up to the marker's last one is
/// carried by exactly the event at its offset, and the cursor strictly advances.
pub proof fn lemma_accepted_segment_closes_gap(
    c: CommitMarker,
    vault_id: Seq<char>,
    device_id: Seq<char>,
    epoch: u64,
    file_seq: u64,
    last_applied: u64,
    byte_len: nat,
    events: Seq<JournalEvent>,
)
    requires
        marker_acceptable(c, vault_id, device_id, epoch, file_seq, last_applied),
        segment_consistent(c, byte_len, events, device_id, epoch),
        last_applied < file_seq,
    ensures
        c.last_seq > last_applied,
        forall|s: int| last_applied < s <= c.last_seq ==> #[trigger] carried_at(events, c.first_seq, s, device_id, epoch),
{
    assert forall|s: int| last_applied < s <= c.last_seq implies #[trigger] carried_at(events, c.first_seq, s, device_id, epoch) by {
        let k = s - c.first_seq;
        assert(0 <= k < events.len());
        assert(events[k].seq == c.first_seq + k);
    }
}

} // verus!

verus! {

/// The listed commit marker paths that end in `.json` and name a sequence
/// number, paired with it, in listing order.
pub open spec fn commit_candidates(paths: Seq<Seq<char>>) -> Seq<(u64, Seq<char>)>
    decreases paths.len(),
{
    if paths.len() == 0 {
        Seq::empty()
    } else {
        let rest = commit_candidates(paths.drop_last());
        let p = paths.last();
        if has_suffix(p, json_suffix()) && commit_seq_spec(p) is Some {
            rest.push((commit_seq_spec(p)->0, p))
        } else {
            rest
        }
    }
}

/// The texts of a list of strings.
pub open spec fn texts(v: Seq<String>) -> Seq<Seq<char>> {
    v.map_values(|p: String| p@)
}

/// A plan as sequence numbers and path texts.
pub open spec fn plan_view(v: Seq<(u64, String)>) -> Seq<(u64, Seq<char>)> {
    v.map_values(|e: (u64, String)| (e.0, e.1@))
}

/// Sequence numbers never decrease along `s`.
pub open spec fn sorted_by_seq(s: Seq<(u64, Seq<char>)>) -> bool {
    forall|i: int, j: int| 0 <= i <= j < s.len() ==> s[i].0 <= s[j].0
}

proof fn lemma_insert_to_multiset<A>(s: Seq<A>, i: int, a: A)
    requires
        0 <= i <= s.len(),
    ensures
        s.insert(i, a).to_multiset() == s.to_multiset().insert(a),
{
    broadcast use vstd::seq_lib::group_to_multiset_ensures;
    let l = s.subrange(0, i);
    let r = s.subrange(i, s.len() as int);
    assert(s =~= l + r);
    vstd::seq_lib::lemma_multiset_commutative(l, r);
    vstd::seq_lib::lemma_multiset_commutative(l.push(a), r);
    assert(s.insert(i, a) =~= l.push(a) + r);
    l.to_multiset_ensures();
    assert(l.push(a).to_multiset() == l.to_multiset().insert(a));
    assert(s.insert(i, a).to_multiset() =~= s.to_multiset().insert(a));
}

/// Plan entries with sequence number `q`.
pub open spec fn at_seq(q: u64) -> spec_fn((u64, Seq<char>)) -> bool {
    |e: (u64, Seq<char>)| e.0 == q
}

/// The entries of `s` with sequence number `q`, in their order in `s`.
pub open spec fn plans_at(s: Seq<(u64, Seq<char>)>, q: u64) -> Seq<(u64, Seq<char>)> {
    s.filter(at_seq(q))
}

/// The commit markers of one device epoch that name a sequence number,
/// ordered by that number; markers naming the same number keep their
/// listing order (a stable sort).
pub fn commit_plan(paths: &Vec<String>) -> (r: Vec<(u64, String)>)
    ensures
        sorted_by_seq(plan_view(r@)),
        plan_view(r@).to_multiset() == commit_candidates(texts(paths@)).to_multiset(),
        forall|q: u64| #[trigger] plans_at(plan_view(r@), q) == plans_at(commit_candidates(texts(paths@)), q),
{
    broadcast use vstd::seq_lib::group_to_multiset_ensures;
    let mut out: Vec<(u64, String)> = Vec::new();
    let n = paths.len();
    let ghost all = texts(paths@);
    let mut idx: usize = 0;
    proof {
        assert(plan_view(out@) =~= Seq::<(u64, Seq<char>)>::empty());
        assert(all.subrange(0, 0) =~= Seq::<Seq<char>>::empty());
    }
    while idx < n
        invariant
            n == paths@.len(),
            all == texts(paths@),
            idx <= n,
            sorted_by_seq(plan_view(out@)),
            plan_view(out@).to_multiset() == commit_candidates(all.subrange(0, idx as int)).to_multiset(),
            forall|q: u64| #[trigger] plans_at(plan_view(out@), q) == plans_at(commit_candidates(all.subrange(0, idx as int)), q),
        decreases n - idx,
    {
        let ghost pre = all.subrange(0, idx as int);
        proof {
            assert(all.subrange(0, idx + 1).drop_last() =~= pre);
            assert(all.subrange(0, idx + 1).last() == all[idx as int]);
            assert(all[idx as int] == paths@[idx as int]@);
        }
        let path = &paths[idx];
        if ends_with_json(path.as_str()) {
            match seq_from_commit_path(path.as_str()) {
                Some(seq) => {
                    let ghost before = plan_view(out@);
                    let mut k: usize = 0;
                    while k < out.len() && out[k].0 <= seq
                        invariant
                            k <= out@.len(),
                            before == plan_view(out@),
                            forall|j: int| 0 <= j < k ==> before[j].0 <= seq,
                        decreases out@.len() - k,
                    {
                        k = k + 1;
                    }
                    let entry = (seq, path.clone());
                    out.insert(k, entry);
                    proof {
                        assert(plan_view(out@) =~= before.insert(k as int, (seq, path@)));
                        lemma_insert_to_multiset(before, k as int, (seq, path@));
                        let cur = all.subrange(0, idx + 1);
                        assert(commit_candidates(cur) == commit_candidates(pre).push((seq, path@)));
                        commit_candidates(pre).to_multiset_ensures();
                        assert(commit_candidates(pre).push((seq, path@)).to_multiset()
                            == commit_candidates(pre).to_multiset().insert((seq, path@)));
                        assert forall|q: u64| #[trigger] plans_at(plan_view(out@), q) == plans_at(commit_candidates(cur), q) by {
                            if at_seq(q)((seq, path@)) {
                                assert forall|j: int| k <= j < before.len() implies !at_seq(q)(#[trigger] before[j]) by {
                                    if k < before.len() {
                                        assert(before[k as int].0 > seq);
                                        assert(before[k as int].0 <= before[j].0);
                                    }
                                }
                            }
                            assert(plans_at(before, q) == plans_at(commit_candidates(pre), q));
                            lemma_filter_insert(before, k as int, (seq, path@), at_seq(q));
                            commit_candidates(pre).lemma_filter_push((seq, path@), at_seq(q));
                        }
                        let after = plan_view(out@);
                        assert forall|a: int, b: int| 0 <= a <= b < after.len() implies after[a].0 <= after[b].0 by {
                            if k < before.len() {
                                assert(before[k as int].0 > seq);
                            }
                            if a < k && b > k {
                                assert(after[b] == before[b - 1]);
                            }
                            if a > k {
                                assert(after[a] == before[a - 1]);
                                assert(after[b] == before[b - 1]);
                            }
                            if a == k && b > k {
                                assert(after[b] == before[b - 1]);
                                assert(before[k as int].0 <= before[b - 1].0);
                            }
                        }
                    }
                }
                None => {
                    proof {
                        assert(commit_candidates(all.subrange(0, idx + 1)) == commit_candidates(pre));
                    }
                }
            }
        } else {
            proof {
                assert(commit_candidates(all.subrange(0, idx + 1)) == commit_candidates(pre));
            }
        }
        idx = idx + 1;
    }
    proof {
        assert(all.subrange(0, n as int) =~= all);
    }
    out
}

fn ends_with_json(p: &str) -> (r: bool)
    ensures
        r == has_suffix(p@, json_suffix()),
{
    crate::text::ends_with_str(p, json_suffix_str())
}

} // verus!

verus! {

/// The epoch a listed directory entry names: its last path segment as an
/// unsigned number, when it is one.
pub open spec fn listed_epoch(path: Seq<char>) -> Option<u64> {
    match unsigned_literal(last_segment(path)) {
        Some(n) => if n <= u64::MAX { Some(n as u64) } else { None },
        None => None,
    }
}

/// Some listed entry names epoch `e`.
pub open spec fn epoch_listed(paths: Seq<Seq<char>>, e: u64) -> bool {
    exists|i: int| 0 <= i < paths.len() && #[trigger] listed_epoch(paths[i]) == Some(e)
}

/// Strictly increasing, hence free of repeats.
pub open spec fn strictly_increasing(s: Seq<u64>) -> bool {
    forall|i: int, j: int| 0 <= i < j < s.len() ==> s[i] < s[j]
}

/// The epochs of a device to replay, from the entries of its commit
/// directory: every epoch some entry names, each once, in increasing order.
/// An entry naming epoch 0 makes the whole listing invalid.
pub fn epoch_plan(paths: &Vec<String>) -> (r: Result<Vec<u64>, ChatVaultError>)
    ensures
        match r {
            Ok(es) => strictly_increasing(es@)
                && (forall|e: u64| es@.contains(e) <==> epoch_listed(texts(paths@), e))
                && !epoch_listed(texts(paths@), 0),
            Err(e) => epoch_listed(texts(paths@), 0) && e is Internal,
        },
{
    let n = paths.len();
    let ghost all = texts(paths@);
    let mut out: Vec<u64> = Vec::new();
    let mut i: usize = 0;
    while i < n
        invariant
            n == paths@.len(),
            all == texts(paths@),
            i <= n,
            strictly_increasing(out@),
            forall|e: u64| out@.contains(e) <==> epoch_listed(all.subrange(0, i as int), e),
        decreases n - i,
    {
        proof {
            assert forall|e: u64| epoch_listed(all.subrange(0, i + 1), e)
                <==> (epoch_listed(all.subrange(0, i as int), e) || listed_epoch(all[i as int]) == Some(e)) by {
                if epoch_listed(all.subrange(0, i + 1), e) {
                    let k = choose|k: int| 0 <= k < i + 1 && #[trigger] listed_epoch(all.subrange(0, i + 1)[k]) == Some(e);
                    if k < i {
                        assert(all.subrange(0, i as int)[k] == all.subrange(0, i + 1)[k]);
                    }
                }
                if epoch_listed(all.subrange(0, i as int), e) {
                    let k = choose|k: int| 0 <= k < i && #[trigger] listed_epoch(all.subrange(0, i as int)[k]) == Some(e);
                    assert(all.subrange(0, i + 1)[k] == all.subrange(0, i as int)[k]);
                }
                if listed_epoch(all[i as int]) == Some(e) {
                    assert(all.subrange(0, i + 1)[i as int] == all[i as int]);
                }
            }
            assert(all[i as int] == paths@[i as int]@);
        }
        let seg = last_segment_str(paths[i].as_str());
        let parsed = parse_u64(seg);
        proof {
            assert(seg@ == last_segment(all[i as int]));
            assert(listed_epoch(all[i as int]) == parsed);
        }
        match parsed {
            Some(e) => {
                let ghost before = out@;
                let mut k: usize = 0;
                while k < out.len() && out[k] < e
                    invariant
                        k <= out@.len(),
                        before == out@,
                        forall|j: int| 0 <= j < k ==> before[j] < e,
                    decreases out@.len() - k,
                {
                    k = k + 1;
                }
                if k < out.len() && out[k] == e {
                    proof {
                        assert(before[k as int] == e);
                        assert(before.contains(e));
                        assert forall|x: u64| out@.contains(x) <==> epoch_listed(all.subrange(0, i + 1), x) by {
                            assert(before.contains(x) <==> epoch_listed(all.subrange(0, i as int), x));
                            assert(epoch_listed(all.subrange(0, i + 1), x)
                                <==> (epoch_listed(all.subrange(0, i as int), x) || listed_epoch(all[i as int]) == Some(x)));
                            if x == e {
                                assert(listed_epoch(all[i as int]) == Some(x));
                            }
                        }
                    }
                } else {
                    out.insert(k, e);
                    proof {
                        assert(out@ =~= before.insert(k as int, e));
                        assert forall|a: int, b: int| 0 <= a < b < out@.len() implies out@[a] < out@[b] by {
                            if k < before.len() {
                                assert(before[k as int] > e);
                            }
                            if a < k && b > k { assert(out@[b] == before[b - 1]); }
                            if a > k { assert(out@[a] == before[a - 1]); assert(out@[b] == before[b - 1]); }
                            if a == k && b > k { assert(out@[b] == before[b - 1]); assert(before[k as int] <= before[b - 1]); }
                        }
                        assert forall|x: u64| out@.contains(x) <==> (before.contains(x) || x == e) by {
                            if out@.contains(x) {
                                let j = choose|j: int| 0 <= j < out@.len() && out@[j] == x;
                                if j < k { assert(before[j] == x); }
                                if j > k { assert(before[j - 1] == x); }
                            }
                            if before.contains(x) {
                                let j = choose|j: int| 0 <= j < before.len() && before[j] == x;
                                if j < k { assert(out@[j] == x); } else { assert(out@[j + 1] == x); }
                            }
                            if x == e { assert(out@[k as int] == e); }
                        }
                        assert forall|x: u64| out@.contains(x) <==> epoch_listed(all.subrange(0, i + 1), x) by {
                            assert(before.contains(x) <==> epoch_listed(all.subrange(0, i as int), x));
                            assert(epoch_listed(all.subrange(0, i + 1), x)
                                <==> (epoch_listed(all.subrange(0, i as int), x) || listed_epoch(all[i as int]) == Some(x)));
                            if x == e {
                                assert(listed_epoch(all[i as int]) == Some(x));
                            }
                        }
                    }
                }
            }
            None => {
                proof {
                    assert forall|x: u64| out@.contains(x) <==> epoch_listed(all.subrange(0, i + 1), x) by {
                        assert(listed_epoch(all[i as int]) != Some(x));
                    }
                }
            }
        }
        i = i + 1;
    }
    proof {
        assert(all.subrange(0, n as int) =~= all);
    }
    if out.len() > 0 && out[0] == 0 {
        proof { assert(out@.contains(0)); }
        return Err(ChatVaultError::Internal(msg("远端 epoch 无效")));
    }
    proof {
        if out@.contains(0) {
            let j = choose|j: int| 0 <= j < out@.len() && out@[j] == 0;
            if j > 0 { assert(out@[0] < out@[j]); }
        }
    }
    Ok(out)
}

/// Checks a device registration found at `path`: its device identifier must
/// be path-safe, its epoch non-zero, and it must sit at the path of that
/// device's registration.
pub fn check_device_registration(path: &str, vault_id: &str, device_id: &str, epoch: u64) -> (r: Result<(), ChatVaultError>)
    ensures
        r is Ok <==> (valid_id(device_id@) && epoch != 0 && path@ == device_path_spec(vault_id@, device_id@)),
        r matches Err(e) ==> e is Internal,
{
    validate_id(device_id)?;
    let expected = get_device_path(vault_id, device_id);
    if epoch == 0 || !seq_eq(path, expected.as_str()) {
        return Err(ChatVaultError::Internal(msg("设备注册路径或 epoch 无效")));
    }
    Ok(())
}

} // verus!
