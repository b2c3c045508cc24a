//! Local copy policy: which files get a managed copy, and which managed
//! copies are reclaimed by age and by the capacity target.
use vstd::prelude::*;
use crate::error::ChatVaultError;
use crate::ordering::lemma_filter_insert;
use crate::text::{opt_str, parse_u64, unsigned_literal};

verus! {

/// Bytes in one MiB.
pub const MIB: u64 = 1048576;

/// Seconds in one day.
pub const DAY_SECS: u64 = 86400;

/// Default size limit, in MiB, under which a discovered file is copied.
pub const DEFAULT_COPY_THRESHOLD_MIB: u32 = 100;

/// Default number of days a copy is kept after it was archived.
pub const DEFAULT_CACHE_RETENTION_DAYS: u32 = 7;

/// Default capacity target of the managed copies, in MiB.
pub const DEFAULT_CACHE_MAX_MIB: u32 = 1024;

/// Cache policy: a zero threshold disables copying; zero days or zero
/// capacity reclaim a copy as soon as it is archived.
#[derive(Debug, Clone, Copy, PartialEq, Eq)]
pub struct CachePolicy {
    pub copy_threshold_mib: u32,
    pub cache_retention_days: u32,
    pub cache_max_mib: u32,
}

/// What a stored setting text gives for a `u32` option: the default when the
/// setting is absent, the parsed value when it is a valid literal, else `None`.
pub open spec fn setting_u32(value: Option<Seq<char>>, default: u32) -> Option<u32> {
    match value {
        None => Some(default),
        Some(v) => match unsigned_literal(v) {
            Some(n) => if n <= u32::MAX { Some(n as u32) } else { None },
            None => None,
        },
    }
}

/// Reads one `u32` option from its stored setting text; an invalid text is a
/// database error that names the key.
pub fn read_u32_setting(key: &str, value: Option<&str>, default: u32) -> (r: Result<u32, ChatVaultError>)
    ensures
        match setting_u32(opt_str(value), default) {
            Some(n) => r == Ok::<u32, ChatVaultError>(n),
            None => r matches Err(ChatVaultError::Database(m)) && m@ == invalid_setting_text(key@),
        },
{
    match value {
        None => Ok(default),
        Some(v) => match parse_u64(v) {
            Some(n) => {
                if n <= 4294967295u64 {
                    Ok(n as u32)
                } else {
                    Err(invalid_setting(key))
                }
            }
            None => Err(invalid_setting(key)),
        },
    }
}

/// The text of the error for an invalid setting: a fixed lead followed by the key.
pub open spec fn invalid_setting_text(key: Seq<char>) -> Seq<char> {
    "无效缓存配置："@ + key
}

fn invalid_setting(key: &str) -> (r: ChatVaultError)
    ensures
        r matches ChatVaultError::Database(m) && m@ == invalid_setting_text(key@),
{
    let mut m = String::from_str("无效缓存配置：");
    m.append(key);
    ChatVaultError::Database(m)
}

/// The policy from the three stored settings, each with its default.
pub open spec fn policy_spec(
    copy_threshold: Option<Seq<char>>,
    retention_days: Option<Seq<char>>,
    max_mib: Option<Seq<char>>,
) -> Option<CachePolicy> {
    match (
        setting_u32(copy_threshold, DEFAULT_COPY_THRESHOLD_MIB),
        setting_u32(retention_days, DEFAULT_CACHE_RETENTION_DAYS),
        setting_u32(max_mib, DEFAULT_CACHE_MAX_MIB),
    ) {
        (Some(a), Some(b), Some(c)) => Some(
            CachePolicy { copy_threshold_mib: a, cache_retention_days: b, cache_max_mib: c },
        ),
        _ => None,
    }
}

/// The key of the first invalid setting, in the order they are read.
pub open spec fn first_invalid_key(
    copy_threshold: Option<Seq<char>>,
    retention_days: Option<Seq<char>>,
) -> Seq<char> {
    if setting_u32(copy_threshold, DEFAULT_COPY_THRESHOLD_MIB) is None {
        "copy_threshold_mib"@
    } else if setting_u32(retention_days, DEFAULT_CACHE_RETENTION_DAYS) is None {
        "cache_retention_days"@
    } else {
        "cache_max_mib"@
    }
}

impl CachePolicy {
    /// Builds the policy from the stored settings; unset settings take their
    /// defaults and the first invalid one is reported by its key.
    pub fn from_settings(
        copy_threshold: Option<&str>,
        retention_days: Option<&str>,
        max_mib: Option<&str>,
    ) -> (r: Result<CachePolicy, ChatVaultError>)
        ensures
            match policy_spec(
                opt_str(copy_threshold),
                opt_str(retention_days),
                opt_str(max_mib),
            ) {
                Some(p) => r == Ok::<CachePolicy, ChatVaultError>(p),
                None => r matches Err(ChatVaultError::Database(m))
                    && m@ == invalid_setting_text(first_invalid_key(opt_str(copy_threshold), opt_str(retention_days))),
            },
    {
        let a = read_u32_setting("copy_threshold_mib", copy_threshold, DEFAULT_COPY_THRESHOLD_MIB)?;
        let b = read_u32_setting("cache_retention_days", retention_days, DEFAULT_CACHE_RETENTION_DAYS)?;
        let c = read_u32_setting("cache_max_mib", max_mib, DEFAULT_CACHE_MAX_MIB)?;
        Ok(CachePolicy { copy_threshold_mib: a, cache_retention_days: b, cache_max_mib: c })
    }

    /// Whether a discovered file of `size` bytes gets a managed copy.
    pub fn copies(&self, size: u64) -> (r: bool)
        ensures
            r == (size < self.copy_threshold_mib as int * MIB as int),
    {
        size < (self.copy_threshold_mib as u64) * MIB
    }

    /// Retention period in seconds.
    pub fn retention_secs(&self) -> (r: u64)
        ensures
            r == self.cache_retention_days as int * DAY_SECS as int,
    {
        (self.cache_retention_days as u64) * DAY_SECS
    }

    /// Capacity target in bytes.
    pub fn max_bytes(&self) -> (r: u64)
        ensures
            r == self.cache_max_mib as int * MIB as int,
    {
        (self.cache_max_mib as u64) * MIB
    }
}

} // verus!

verus! {

/// A managed copy seen by the reclaimer: when its content was archived (or
/// else last modified), in seconds since the epoch, and its size.
#[derive(Debug)]
pub struct CacheEntry {
    pub timestamp: u64,
    pub object_id: String,
    pub size: u64,
}

/// The age reference of a copy: the latest archive time of its content,
/// clamped at zero, or else the file's modification time.
pub fn entry_timestamp(archived_secs: Option<i64>, modified_secs: u64) -> (r: u64)
    ensures
        r == match archived_secs {
            Some(a) => if a < 0 { 0 } else { a as u64 },
            None => modified_secs,
        },
{
    match archived_secs {
        Some(a) => if a < 0 { 0 } else { a as u64 },
        None => modified_secs,
    }
}

/// A copy left over from opening a file is stale once it is a day old; one
/// dated in the future is never stale.
pub fn open_copy_is_stale(now_secs: u64, modified_secs: u64) -> (r: bool)
    ensures
        r == (now_secs >= modified_secs && now_secs - modified_secs >= DAY_SECS),
{
    now_secs >= modified_secs && now_secs - modified_secs >= DAY_SECS
}

/// Timestamps and sizes of entries.
pub open spec fn entry_view(e: CacheEntry) -> (u64, Seq<char>, u64) {
    (e.timestamp, e.object_id@, e.size)
}

/// Views of a list of entries.
pub open spec fn entries_view(es: Seq<CacheEntry>) -> Seq<(u64, Seq<char>, u64)> {
    es.map_values(|e: CacheEntry| entry_view(e))
}

/// Sum of the sizes of entries.
pub open spec fn size_sum(es: Seq<(u64, Seq<char>, u64)>) -> nat
    decreases es.len(),
{
    if es.len() == 0 { 0 } else { size_sum(es.drop_last()) + es.last().2 as nat }
}

/// Timestamps never decrease along `es`.
pub open spec fn sorted_by_time(es: Seq<(u64, Seq<char>, u64)>) -> bool {
    forall|i: int, j: int| 0 <= i <= j < es.len() ==> es[i].0 <= es[j].0
}

/// Whether a copy is younger than the retention period at `now`.
pub open spec fn young(ts: u64, now: u64, retention: nat) -> bool {
    (if now >= ts { now - ts } else { 0int }) < retention
}

/// The reclaim pass over copies in age order: a copy is kept while it is
/// young and the running total is within the capacity target; otherwise it is
/// evicted and its size leaves the running total. Gives the decisions
/// (`true` = evict), the final total and the released bytes.
pub open spec fn reclaim_run(es: Seq<(u64, Seq<char>, u64)>, total: nat, now: u64, retention: nat, max: nat) -> (Seq<bool>, nat, nat)
    decreases es.len(),
{
    if es.len() == 0 {
        (Seq::empty(), total, 0)
    } else {
        let e = es[0];
        if young(e.0, now, retention) && total <= max {
            let rest = reclaim_run(es.drop_first(), total, now, retention, max);
            (seq![false] + rest.0, rest.1, rest.2)
        } else {
            let t = if total >= e.2 { (total - e.2) as nat } else { 0nat };
            let rest = reclaim_run(es.drop_first(), t, now, retention, max);
            (seq![true] + rest.0, rest.1, rest.2 + e.2 as nat)
        }
    }
}

/// The reclaim decisions for a set of copies.
pub struct ReclaimPlan {
    /// The copies, oldest first.
    pub entries: Vec<CacheEntry>,
    /// For each copy in `entries`, whether it is reclaimed.
    pub evict: Vec<bool>,
    /// Bytes freed by the reclaimed copies.
    pub released: u64,
}

proof fn lemma_insert_to_multiset<A>(s: Seq<A>, i: int, a: A)
    requires
        0 <= i <= s.len(),
    ensures
        s.insert(i, a).to_multiset() == s.to_multiset().insert(a),
{
    broadcast use vstd::seq_lib::group_to_multiset_ensures;
    let l = s.subrange(0, i);
    let r = s.subrange(i, s.len() as int);
    assert(s =~= l + r);
    vstd::seq_lib::lemma_multiset_commutative(l, r);
    vstd::seq_lib::lemma_multiset_commutative(l.push(a), r);
    assert(s.insert(i, a) =~= l.push(a) + r);
    l.to_multiset_ensures();
    assert(l.push(a).to_multiset() == l.to_multiset().insert(a));
    assert(s.insert(i, a).to_multiset() =~= s.to_multiset().insert(a));
}

/// Entries with age reference `t`.
pub open spec fn at_time(t: u64) -> spec_fn((u64, Seq<char>, u64)) -> bool {
    |e: (u64, Seq<char>, u64)| e.0 == t
}

/// The entries of `es` with age reference `t`, in their order in `es`.
pub open spec fn entries_at(es: Seq<(u64, Seq<char>, u64)>, t: u64) -> Seq<(u64, Seq<char>, u64)> {
    es.filter(at_time(t))
}

/// Orders copies by age reference, oldest first, keeping their contents;
/// copies of equal age keep their order (a stable sort).
pub fn sort_by_timestamp(entries: Vec<CacheEntry>) -> (r: Vec<CacheEntry>)
    ensures
        sorted_by_time(entries_view(r@)),
        entries_view(r@).to_multiset() == entries_view(entries@).to_multiset(),
        forall|t: u64| #[trigger] entries_at(entries_view(r@), t) == entries_at(entries_view(entries@), t),
{
    broadcast use vstd::seq_lib::group_to_multiset_ensures;
    let ghost all = entries_view(entries@);
    let ghost n = all.len();
    let mut out: Vec<CacheEntry> = Vec::new();
    let mut rest = entries;
    let mut done: usize = 0;
    assert(rest.len() == n);
    proof {
        assert(entries_view(out@) =~= Seq::<(u64, Seq<char>, u64)>::empty());
        assert(all.subrange(0, 0) =~= Seq::<(u64, Seq<char>, u64)>::empty());
        assert(entries_view(rest@) =~= all.subrange(0, n as int));
    }
    while rest.len() > 0
        invariant
            n == all.len(),
            n <= usize::MAX,
            done + rest@.len() == n,
            entries_view(rest@) =~= all.subrange(done as int, n as int),
            sorted_by_time(entries_view(out@)),
            entries_view(out@).to_multiset() == all.subrange(0, done as int).to_multiset(),
            forall|t: u64| #[trigger] entries_at(entries_view(out@), t) == entries_at(all.subrange(0, done as int), t),
        decreases rest@.len(),
    {
        let ghost old_rest = rest@;
        let e = rest.remove(0);
        let ghost ev = entry_view(e);
        proof {
            assert(entries_view(old_rest)[0] == all[done as int]);
            assert(rest@ =~= old_rest.subrange(1, old_rest.len() as int));
            assert forall|i: int| 0 <= i < rest@.len() implies entries_view(rest@)[i] == all[done + 1 + i] by {
                assert(entries_view(old_rest)[i + 1] == all.subrange(done as int, n as int)[i + 1]);
            }
            assert(entries_view(rest@) =~= all.subrange(done + 1, n as int));
            assert(all.subrange(0, done + 1) =~= all.subrange(0, done as int).push(ev));
            all.subrange(0, done as int).to_multiset_ensures();
        }
        let ghost before = entries_view(out@);
        let mut k: usize = 0;
        while k < out.len() && out[k].timestamp <= e.timestamp
            invariant
                k <= out@.len(),
                before == entries_view(out@),
                forall|j: int| 0 <= j < k ==> before[j].0 <= e.timestamp,
            decreases out@.len() - k,
        {
            k = k + 1;
        }
        out.insert(k, e);
        proof {
            assert(entries_view(out@) =~= before.insert(k as int, ev));
            lemma_insert_to_multiset(before, k as int, ev);
            assert forall|t: u64| #[trigger] entries_at(entries_view(out@), t) == entries_at(all.subrange(0, done + 1), t) by {
                if at_time(t)(ev) {
                    assert forall|j: int| k <= j < before.len() implies !at_time(t)(#[trigger] before[j]) by {
                        if k < before.len() {
                            assert(before[k as int].0 > ev.0);
                            assert(before[k as int].0 <= before[j].0);
                        }
                    }
                }
                assert(entries_at(before, t) == entries_at(all.subrange(0, done as int), t));
                lemma_filter_insert(before, k as int, ev, at_time(t));
                all.subrange(0, done as int).lemma_filter_push(ev, at_time(t));
                assert(all.subrange(0, done + 1) =~= all.subrange(0, done as int).push(ev));
            }
            let after = entries_view(out@);
            assert forall|a: int, b: int| 0 <= a <= b < after.len() implies after[a].0 <= after[b].0 by {
                if k < before.len() {
                    assert(before[k as int].0 > ev.0);
                }
                if a < k && b > k {
                    assert(after[b] == before[b - 1]);
                }
                if a > k {
                    assert(after[a] == before[a - 1]);
                    assert(after[b] == before[b - 1]);
                }
                if a == k && b > k {
                    assert(after[b] == before[b - 1]);
                    assert(before[k as int].0 <= before[b - 1].0);
                }
            }
        }
        done = done + 1;
    }
    proof {
        assert(all.subrange(0, n as int) =~= all);
    }
    out
}

proof fn lemma_size_sum_bound(es: Seq<(u64, Seq<char>, u64)>, i: int)
    requires
        0 <= i <= es.len(),
    ensures
        size_sum(es.subrange(0, i)) <= size_sum(es),
    decreases es.len() - i,
{
    if i < es.len() {
        lemma_size_sum_bound(es, i + 1);
        assert(es.subrange(0, i + 1).drop_last() =~= es.subrange(0, i));
    } else {
        assert(es.subrange(0, i) =~= es);
    }
}

proof fn lemma_released_bound(es: Seq<(u64, Seq<char>, u64)>, total: nat, now: u64, retention: nat, max: nat)
    ensures
        reclaim_run(es, total, now, retention, max).2 <= size_sum(es),
        reclaim_run(es, total, now, retention, max).0.len() == es.len(),
    decreases es.len(),
{
    if es.len() > 0 {
        let t = if total >= es[0].2 { (total - es[0].2) as nat } else { 0nat };
        lemma_released_bound(es.drop_first(), total, now, retention, max);
        lemma_released_bound(es.drop_first(), t, now, retention, max);
        lemma_size_sum_first(es);
    }
}

proof fn lemma_size_sum_first(es: Seq<(u64, Seq<char>, u64)>)
    requires
        es.len() > 0,
    ensures
        size_sum(es) == es[0].2 + size_sum(es.drop_first()),
    decreases es.len(),
{
    if es.len() > 1 {
        lemma_size_sum_first(es.drop_last());
        assert(es.drop_last().drop_first() =~= es.drop_first().drop_last());
        assert(es.drop_first().last() == es.last());
        assert(es.drop_last()[0] == es[0]);
    } else {
        assert(es.drop_last() =~= Seq::<(u64, Seq<char>, u64)>::empty());
        assert(es.drop_first() =~= Seq::<(u64, Seq<char>, u64)>::empty());
    }
}

/// Plans a reclaim pass: orders the copies by age reference (copies of equal
/// age in their given order) and decides, in that order, which are evicted,
/// given their total size, the current time and the policy.
pub fn plan_reclaim(entries: Vec<CacheEntry>, now: u64, policy: &CachePolicy) -> (r: ReclaimPlan)
    requires
        size_sum(entries_view(entries@)) <= u64::MAX,
    ensures
        sorted_by_time(entries_view(r.entries@)),
        entries_view(r.entries@).to_multiset() == entries_view(entries@).to_multiset(),
        forall|t: u64| #[trigger] entries_at(entries_view(r.entries@), t) == entries_at(entries_view(entries@), t),
        ({
            let run = reclaim_run(
                entries_view(r.entries@),
                size_sum(entries_view(r.entries@)),
                now,
                policy.cache_retention_days as nat * DAY_SECS as nat,
                policy.cache_max_mib as nat * MIB as nat,
            );
            r.evict@ == run.0 && r.released == run.2
        }),
{
    let sorted = sort_by_timestamp(entries);
    let retention = policy.retention_secs();
    let max = policy.max_bytes();
    let ghost es = entries_view(sorted@);
    let ghost n = es.len();
    proof {
        lemma_size_sum_multiset(entries_view(entries@), es);
    }
    // running total over the sorted copies
    let mut total: u64 = 0;
    let mut i: usize = 0;
    while i < sorted.len()
        invariant
            es == entries_view(sorted@),
            n == es.len(),
            i <= n,
            total == size_sum(es.subrange(0, i as int)),
            size_sum(es) <= u64::MAX,
        decreases n - i,
    {
        proof {
            assert(es.subrange(0, i + 1).drop_last() =~= es.subrange(0, i as int));
            lemma_size_sum_bound(es, i + 1);
        }
        total = total + sorted[i].size;
        i = i + 1;
    }
    proof {
        assert(es.subrange(0, n as int) =~= es);
    }
    let ghost total0 = total as nat;
    let ghost ret = retention as nat;
    let ghost mx = max as nat;
    let mut evict: Vec<bool> = Vec::new();
    let mut released: u64 = 0;
    let mut j: usize = 0;
    proof {
        assert(es.subrange(0, n as int) =~= es);
        lemma_released_bound(es, total0, now, ret, mx);
    }
    while j < sorted.len()
        invariant
            es == entries_view(sorted@),
            n == es.len(),
            j <= n,
            size_sum(es) <= u64::MAX,
            total0 == size_sum(es),
            ret == retention as nat,
            mx == max as nat,
            ({
                let rest = reclaim_run(es.subrange(j as int, n as int), total as nat, now, ret, mx);
                let whole = reclaim_run(es, total0, now, ret, mx);
                &&& evict@ + rest.0 == whole.0
                &&& released + rest.2 == whole.2
            }),
            reclaim_run(es, total0, now, ret, mx).2 <= u64::MAX,
        decreases n - j,
    {
        let ghost sub = es.subrange(j as int, n as int);
        let ghost cur = total as nat;
        proof {
            assert(sub[0] == es[j as int]);
            assert(sub.drop_first() =~= es.subrange(j + 1, n as int));
        }
        let ts = sorted[j].timestamp;
        let size = sorted[j].size;
        let age: u64 = if now >= ts { now - ts } else { 0 };
        if age < retention && total <= max {
            let ghost ev_before = evict@;
            evict.push(false);
            proof {
                let rest = reclaim_run(es.subrange(j + 1, n as int), cur, now, ret, mx);
                assert(reclaim_run(sub, cur, now, ret, mx).0 == seq![false] + rest.0);
                assert(evict@ + rest.0 =~= ev_before + (seq![false] + rest.0));
            }
        } else {
            let ghost ev_before = evict@;
            evict.push(true);
            total = if total >= size { total - size } else { 0 };
            proof {
                let rest = reclaim_run(es.subrange(j + 1, n as int), total as nat, now, ret, mx);
                assert(reclaim_run(sub, cur, now, ret, mx).0 == seq![true] + rest.0);
                assert(reclaim_run(sub, cur, now, ret, mx).2 == rest.2 + size);
                assert(evict@ + rest.0 =~= ev_before + (seq![true] + rest.0));
            }
            released = released + size;
        }
        j = j + 1;
    }
    proof {
        assert(es.subrange(n as int, n as int) =~= Seq::<(u64, Seq<char>, u64)>::empty());
        assert(evict@ =~= evict@ + Seq::<bool>::empty());
    }
    ReclaimPlan { entries: sorted, evict, released }
}

proof fn lemma_size_sum_multiset(a: Seq<(u64, Seq<char>, u64)>, b: Seq<(u64, Seq<char>, u64)>)
    requires
        a.to_multiset() == b.to_multiset(),
    ensures
        size_sum(a) == size_sum(b),
    decreases a.len(),
{
    broadcast use vstd::seq_lib::group_to_multiset_ensures;
    if a.len() == 0 {
        assert(b.to_multiset().len() == 0);
        assert(b.len() == 0);
    } else {
        let x = a.last();
        assert(a.to_multiset().count(x) > 0) by {
            assert(a.contains(x)) by { assert(a[a.len() - 1] == x); }
        }
        assert(b.contains(x));
        let k = choose|k: int| 0 <= k < b.len() && b[k] == x;
        let b2 = b.remove(k);
        assert(b =~= b2.insert(k, x));
        lemma_insert_to_multiset(b2, k, x);
        assert(a =~= a.drop_last().push(x));
        a.drop_last().to_multiset_ensures();
        assert(a.drop_last().to_multiset() =~= b2.to_multiset());
        lemma_size_sum_multiset(a.drop_last(), b2);
        lemma_size_sum_remove(b, k);
    }
}

proof fn lemma_size_sum_remove(b: Seq<(u64, Seq<char>, u64)>, k: int)
    requires
        0 <= k < b.len(),
    ensures
        size_sum(b) == size_sum(b.remove(k)) + b[k].2,
    decreases b.len(),
{
    if k == b.len() - 1 {
        assert(b.remove(k) =~= b.drop_last());
    } else {
        lemma_size_sum_remove(b.drop_last(), k);
        assert(b.remove(k).drop_last() =~= b.drop_last().remove(k));
        assert(b.remove(k).last() == b.last());
    }
}

} // verus!

verus! {

/// A reclaim pass keeps only young copies: every copy it keeps is younger
/// than the retention period.
pub proof fn lemma_reclaim_keeps_only_young(
    es: Seq<(u64, Seq<char>, u64)>,
    total: nat,
    now: u64,
    retention: nat,
    max: nat,
)
    ensures
        forall|i: int|
            0 <= i < es.len() && !(#[trigger] reclaim_run(es, total, now, retention, max).0[i])
                ==> young(es[i].0, now, retention),
    decreases es.len(),
{
    if es.len() > 0 {
        let t = if total >= es[0].2 { (total - es[0].2) as nat } else { 0nat };
        lemma_reclaim_keeps_only_young(es.drop_first(), total, now, retention, max);
        lemma_reclaim_keeps_only_young(es.drop_first(), t, now, retention, max);
        lemma_released_bound(es.drop_first(), total, now, retention, max);
        lemma_released_bound(es.drop_first(), t, now, retention, max);
        assert forall|i: int|
            0 <= i < es.len() && !(#[trigger] reclaim_run(es, total, now, retention, max).0[i])
                implies young(es[i].0, now, retention) by {
            if i > 0 {
                assert(es.drop_first()[i - 1] == es[i]);
            }
        }
    }
}

/// A reclaim pass respects the capacity target: the total never grows, and
/// when any copy is kept the total left is within the target.
pub proof fn lemma_reclaim_within_capacity(
    es: Seq<(u64, Seq<char>, u64)>,
    total: nat,
    now: u64,
    retention: nat,
    max: nat,
)
    ensures
        reclaim_run(es, total, now, retention, max).1 <= total,
        (exists|i: int| 0 <= i < es.len() && !(#[trigger] reclaim_run(es, total, now, retention, max).0[i]))
            ==> reclaim_run(es, total, now, retention, max).1 <= max,
    decreases es.len(),
{
    if es.len() > 0 {
        let t = if total >= es[0].2 { (total - es[0].2) as nat } else { 0nat };
        lemma_reclaim_within_capacity(es.drop_first(), total, now, retention, max);
        lemma_reclaim_within_capacity(es.drop_first(), t, now, retention, max);
        lemma_released_bound(es.drop_first(), total, now, retention, max);
        lemma_released_bound(es.drop_first(), t, now, retention, max);
        let run = reclaim_run(es, total, now, retention, max);
        if exists|i: int| 0 <= i < es.len() && !(#[trigger] run.0[i]) {
            let i = choose|i: int| 0 <= i < es.len() && !(#[trigger] run.0[i]);
            if !(young(es[0].0, now, retention) && total <= max) {
                let rest = reclaim_run(es.drop_first(), t, now, retention, max);
                assert(i > 0);
                assert(!rest.0[i - 1]);
            }
        }
    }
}

/// A reclaim pass frees exactly what leaves the total: when the total covers
/// the copies' sizes, the bytes released and the total left add up to it.
pub proof fn lemma_reclaim_accounting(
    es: Seq<(u64, Seq<char>, u64)>,
    total: nat,
    now: u64,
    retention: nat,
    max: nat,
)
    requires
        total >= size_sum(es),
    ensures
        reclaim_run(es, total, now, retention, max).1 + reclaim_run(es, total, now, retention, max).2 == total,
    decreases es.len(),
{
    if es.len() > 0 {
        lemma_size_sum_first(es);
        let t = if total >= es[0].2 { (total - es[0].2) as nat } else { 0nat };
        lemma_reclaim_accounting(es.drop_first(), total, now, retention, max);
        lemma_reclaim_accounting(es.drop_first(), t, now, retention, max);
    }
}

} // verus!
