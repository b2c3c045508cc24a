//! Scan orchestration: per-run counters, progress events, account selection,
//! directory pruning, file filtering, candidate merging and ingestion tallies.
use vstd::prelude::*;
use crate::text::{ends_with_str, has_prefix, has_suffix, starts_with_str, str_eq};
use crate::timeutil::{SystemTime, from_ms_spec, later, system_time_from_ms};

verus! {

/// Counters of one scan.
#[derive(Debug, Clone, Copy, PartialEq, Eq)]
pub struct ScanReport {
    /// Candidate files found, including known files merged back in.
    pub discovered: usize,
    /// Source records written this run.
    pub indexed: usize,
    /// New content objects (after deduplication by hash).
    pub new_objects: usize,
    /// Files skipped as unchanged or duplicate.
    pub skipped: usize,
}

impl Default for ScanReport {
    fn default() -> (r: Self)
        ensures
            r.discovered == 0 && r.indexed == 0 && r.new_objects == 0 && r.skipped == 0,
    {
        ScanReport { discovered: 0, indexed: 0, new_objects: 0, skipped: 0 }
    }
}

impl ScanReport {
    /// Adds the counters of `other`.
    pub fn merge(&mut self, other: ScanReport)
        requires
            old(self).discovered + other.discovered <= usize::MAX,
            old(self).indexed + other.indexed <= usize::MAX,
            old(self).new_objects + other.new_objects <= usize::MAX,
            old(self).skipped + other.skipped <= usize::MAX,
        ensures
            final(self).discovered == old(self).discovered + other.discovered,
            final(self).indexed == old(self).indexed + other.indexed,
            final(self).new_objects == old(self).new_objects + other.new_objects,
            final(self).skipped == old(self).skipped + other.skipped,
    {
        self.discovered = self.discovered + other.discovered;
        self.indexed = self.indexed + other.indexed;
        self.new_objects = self.new_objects + other.new_objects;
        self.skipped = self.skipped + other.skipped;
    }
}

/// Kind of media root.
#[derive(Debug, Clone, Copy, PartialEq, Eq)]
pub enum MediaKind {
    /// Document attachments.
    Files,
    /// Videos.
    Videos,
}

impl MediaKind {
    /// Short name: `file` or `video`.
    pub fn as_str(self) -> (r: &'static str)
        ensures
            r@ == match self { MediaKind::Files => "file"@, MediaKind::Videos => "video"@ },
    {
        match self {
            MediaKind::Files => "file",
            MediaKind::Videos => "video",
        }
    }
}

/// Account selected for scanning: a source root and an account identifier.
#[derive(Debug, Clone, PartialEq, Eq)]
pub struct AccountTarget {
    pub source_root: String,
    pub source_account_id: String,
}

/// Account and media statistics found by a source adapter.
#[derive(Debug, Clone, PartialEq, Eq)]
pub struct SourceAccountInfo {
    pub source_account_id: String,
    pub source_dir: String,
    pub source_root: String,
    pub files_count_estimated: usize,
    pub videos_count_estimated: usize,
}

/// Media roots of one account.
#[derive(Debug, Clone)]
pub struct AccountMediaRoots {
    pub source_account_id: String,
    pub root_dir: String,
    pub files_dir: String,
    pub video_dir: String,
}

/// Progress events of a scan.
#[derive(Debug, Clone)]
pub enum ScanEvent {
    SourceStart { source_type: String, path: String },
    UnknownSourceType { source_type: String, path: String },
    SourceMissing { path: String, label: &'static str },
    AccountListed { accounts: Vec<SourceAccountInfo> },
    AccountSkipped { account_id: String },
    AccountStart { account_id: String },
    MediaRootStart { kind: MediaKind, path: String },
    MediaRootCandidates { kind: MediaKind, path: String, count: usize },
    MediaRootIncomplete { path: String },
    VideosDisabled { account_id: String },
}

/// An account is selected when no selection was made, or when some target has
/// its identifier and a root whose normalized key equals `root_key`.
pub open spec fn account_selected_spec(
    targets: Option<Seq<(Seq<char>, Seq<char>)>>,
    root_key: Seq<char>,
    account_id: Seq<char>,
) -> bool {
    match targets {
        None => true,
        Some(t) => selected_in(t, root_key, account_id),
    }
}

/// Some target in `t` has this root key and account.
pub open spec fn selected_in(t: Seq<(Seq<char>, Seq<char>)>, root_key: Seq<char>, account_id: Seq<char>) -> bool {
    exists|i: int| 0 <= i < t.len() && (#[trigger] t[i]).0 == root_key && t[i].1 == account_id
}

/// Targets as pairs of texts: the root key and the account identifier.
pub open spec fn target_views(t: Seq<AccountTarget>) -> Seq<(Seq<char>, Seq<char>)> {
    t.map_values(|a: AccountTarget| (a.source_root@, a.source_account_id@))
}

/// Whether an account found under the root with normalized key `root_key` is
/// in the selection; `None` selects everything. The targets' roots are given
/// as normalized keys too.
pub fn is_selected_account(
    targets: Option<&Vec<AccountTarget>>,
    root_key: &str,
    account_id: &str,
) -> (r: bool)
    ensures
        r == account_selected_spec(
            match targets { Some(t) => Some(target_views(t@)), None => None },
            root_key@,
            account_id@,
        ),
{
    match targets {
        None => true,
        Some(t) => {
            let ghost views = target_views(t@);
            let mut i: usize = 0;
            while i < t.len()
                invariant
                    views == target_views(t@),
                    targets == Some(t),
                    i <= t@.len(),
                    forall|j: int| 0 <= j < i ==> !((#[trigger] views[j]).0 == root_key@ && views[j].1 == account_id@),
                decreases t@.len() - i,
            {
                if str_eq(t[i].source_account_id.as_str(), account_id) && str_eq(t[i].source_root.as_str(), root_key) {
                    assert(views[i as int].0 == root_key@ && views[i as int].1 == account_id@);
                    assert(selected_in(views, root_key@, account_id@));
                    return true;
                }
                i = i + 1;
            }
            false
        }
    }
}

/// Where an incremental scan of a root starts: nowhere (everything is
/// discovered) for a full scan or a root never scanned, else the time its last
/// scan started.
pub open spec fn since_spec(checkpoint_ms: Option<i64>, full_scan: bool) -> Option<SystemTime> {
    if full_scan {
        None
    } else {
        match checkpoint_ms {
            Some(ms) => Some(from_ms_spec(ms)),
            None => None,
        }
    }
}

/// The starting point of a scan of a root, from its stored checkpoint.
pub fn resolve_since(checkpoint_ms: Option<i64>, full_scan: bool) -> (r: Option<SystemTime>)
    ensures
        r == since_spec(checkpoint_ms, full_scan),
{
    if full_scan {
        return None;
    }
    match checkpoint_ms {
        Some(ms) => Some(system_time_from_ms(ms)),
        None => None,
    }
}

/// Directory pruning by modification time at one fixed depth.
#[derive(Debug, Clone, Copy)]
pub struct MtimeAtDepthStrategy {
    prune_depth: usize,
}

impl MtimeAtDepthStrategy {
    /// A strategy that prunes directories at `prune_depth`.
    pub fn new(prune_depth: usize) -> (r: Self)
        ensures
            r.depth() == prune_depth,
    {
        MtimeAtDepthStrategy { prune_depth }
    }

    /// The pruned depth.
    pub closed spec fn depth(&self) -> usize {
        self.prune_depth
    }

    /// The pruned depth.
    pub fn prune_depth(&self) -> (r: usize)
        ensures
            r == self.depth(),
    {
        self.prune_depth
    }

    /// Whether the walk continues into an entry: always on a full scan, for
    /// files, for the root, and away from the pruning depth; a directory at the
    /// pruning depth only when it changed after `since` or its time is unknown.
    pub fn should_descend(&self, is_dir: bool, depth: usize, modified: Option<SystemTime>, since: Option<SystemTime>) -> (r: bool)
        ensures
            r == match since {
                None => true,
                Some(s) => !is_dir || depth == 0 || depth != self.depth()
                    || match modified { Some(m) => later(m, s), None => true },
            },
    {
        match since {
            None => true,
            Some(s) => {
                if !is_dir || depth == 0 || depth != self.prune_depth {
                    return true;
                }
                match modified {
                    Some(m) => m.nanos_since_epoch > s.nanos_since_epoch,
                    None => true,
                }
            }
        }
    }
}

/// Full walk: never prunes.
#[derive(Debug, Clone, Copy, Default)]
pub struct FullScanStrategy;

impl FullScanStrategy {
    /// Always continues.
    pub fn should_descend(&self) -> (r: bool)
        ensures
            r,
    {
        true
    }
}

/// File walk options.
#[derive(Debug, Clone)]
pub struct ScanOptions {
    /// Maximum depth, or none.
    pub max_depth: Option<usize>,
    /// Skip names beginning with `.`.
    pub skip_hidden: bool,
    /// Minimum file size in bytes.
    pub min_size: u64,
}

impl Default for ScanOptions {
    fn default() -> (r: Self)
        ensures
            r.max_depth is None && r.skip_hidden && r.min_size == 1,
    {
        ScanOptions { max_depth: None, skip_hidden: true, min_size: 1 }
    }
}

/// Temporary or partial download names: `~$...`, `*.tmp`, `*.crdownload`, `*.part`.
pub open spec fn temporary_name(n: Seq<char>) -> bool {
    has_prefix(n, "~$"@) || has_suffix(n, ".tmp"@) || has_suffix(n, ".crdownload"@) || has_suffix(n, ".part"@)
}

/// Whether a walked regular file is kept: it has a UTF-8 name, is not hidden
/// (when hidden names are skipped), is not a temporary name, and, when its size
/// could be read, is at least the minimum size.
pub open spec fn keep_file_spec(name: Option<Seq<char>>, size: Option<u64>, options: ScanOptions) -> bool {
    match name {
        None => false,
        Some(n) => {
            &&& !(options.skip_hidden && has_prefix(n, "."@))
            &&& !temporary_name(n)
            &&& match size { Some(s) => s >= options.min_size, None => true }
        }
    }
}

/// Whether a walked regular file is kept as a candidate.
pub fn keep_scanned_file(name: Option<&str>, size: Option<u64>, options: &ScanOptions) -> (r: bool)
    ensures
        r == keep_file_spec(match name { Some(s) => Some(s@), None => None }, size, *options),
{
    let n = match name {
        Some(n) => n,
        None => { return false; }
    };
    if options.skip_hidden && starts_with_str(n, ".") {
        return false;
    }
    if starts_with_str(n, "~$") || ends_with_str(n, ".tmp") || ends_with_str(n, ".crdownload")
        || ends_with_str(n, ".part")
    {
        return false;
    }
    match size {
        Some(s) => s >= options.min_size,
        None => true,
    }
}

/// How one candidate fared during ingestion.
#[derive(Debug, Clone, Copy, PartialEq, Eq)]
pub enum IngestOutcome {
    /// The index already matches the file on disk.
    Current,
    /// The file was still changing.
    Unstable,
    /// A record was written; `new_object` when its content was new.
    Indexed { new_object: bool },
    /// Ingestion found nothing to write.
    Skipped,
    /// Ingestion failed.
    Failed,
}

/// Number of outcomes in `o` satisfying `p`.
pub open spec fn count_where(o: Seq<IngestOutcome>, p: spec_fn(IngestOutcome) -> bool) -> nat
    decreases o.len(),
{
    if o.len() == 0 {
        0
    } else {
        count_where(o.drop_last(), p) + if p(o.last()) { 1nat } else { 0nat }
    }
}

proof fn lemma_count_bound(o: Seq<IngestOutcome>, p: spec_fn(IngestOutcome) -> bool)
    ensures
        count_where(o, p) <= o.len(),
    decreases o.len(),
{
    if o.len() > 0 {
        lemma_count_bound(o.drop_last(), p);
    }
}

/// Outcomes that wrote a record.
pub open spec fn indexed_pred() -> spec_fn(IngestOutcome) -> bool {
    |o: IngestOutcome| o is Indexed
}

/// Outcomes that wrote a record with new content.
pub open spec fn new_object_pred() -> spec_fn(IngestOutcome) -> bool {
    |o: IngestOutcome| o == IngestOutcome::Indexed { new_object: true }
}

/// Outcomes that count as skipped.
pub open spec fn skipped_pred() -> spec_fn(IngestOutcome) -> bool {
    |o: IngestOutcome| o == IngestOutcome::Current || o == IngestOutcome::Skipped
}

/// Outcomes that leave the batch incomplete.
pub open spec fn incomplete_pred() -> spec_fn(IngestOutcome) -> bool {
    |o: IngestOutcome| o == IngestOutcome::Unstable || o == IngestOutcome::Failed
}

/// Records the outcomes of one batch: every candidate counts as discovered;
/// unchanged and skipped files count as skipped; written records count as
/// indexed (and as new objects when new). The batch is complete only when no
/// file was unstable and none failed; otherwise the checkpoint must not move.
pub fn tally_ingest(report: &mut ScanReport, outcomes: &Vec<IngestOutcome>) -> (complete: bool)
    requires
        old(report).discovered + outcomes@.len() <= usize::MAX,
        old(report).indexed + outcomes@.len() <= usize::MAX,
        old(report).new_objects + outcomes@.len() <= usize::MAX,
        old(report).skipped + outcomes@.len() <= usize::MAX,
    ensures
        final(report).discovered == old(report).discovered + outcomes@.len(),
        final(report).indexed == old(report).indexed + count_where(outcomes@, indexed_pred()),
        final(report).new_objects == old(report).new_objects + count_where(outcomes@, new_object_pred()),
        final(report).skipped == old(report).skipped + count_where(outcomes@, skipped_pred()),
        complete == (count_where(outcomes@, incomplete_pred()) == 0),
{
    let ghost p_idx = indexed_pred();
    let ghost p_new = new_object_pred();
    let ghost p_skip = skipped_pred();
    let ghost p_bad = incomplete_pred();
    let ghost r0 = *report;
    report.discovered = report.discovered + outcomes.len();
    let mut complete = true;
    let mut i: usize = 0;
    while i < outcomes.len()
        invariant
            i <= outcomes@.len(),
            r0.indexed + outcomes@.len() <= usize::MAX,
            r0.new_objects + outcomes@.len() <= usize::MAX,
            r0.skipped + outcomes@.len() <= usize::MAX,
            report.discovered == r0.discovered + outcomes@.len(),
            p_idx == indexed_pred(),
            p_new == new_object_pred(),
            p_skip == skipped_pred(),
            p_bad == incomplete_pred(),
            report.indexed == r0.indexed + count_where(outcomes@.subrange(0, i as int), p_idx),
            report.new_objects == r0.new_objects + count_where(outcomes@.subrange(0, i as int), p_new),
            report.skipped == r0.skipped + count_where(outcomes@.subrange(0, i as int), p_skip),
            complete == (count_where(outcomes@.subrange(0, i as int), p_bad) == 0),
        decreases outcomes@.len() - i,
    {
        let ghost pre = outcomes@.subrange(0, i as int);
        proof {
            let cur = outcomes@.subrange(0, i + 1);
            assert(cur.drop_last() =~= pre);
            assert(cur.last() == outcomes@[i as int]);
            lemma_count_bound(pre, p_idx);
            lemma_count_bound(pre, p_new);
            lemma_count_bound(pre, p_skip);
        }
        match outcomes[i] {
            IngestOutcome::Current => { report.skipped = report.skipped + 1; }
            IngestOutcome::Unstable => { complete = false; }
            IngestOutcome::Indexed { new_object } => {
                report.indexed = report.indexed + 1;
                if new_object {
                    report.new_objects = report.new_objects + 1;
                }
            }
            IngestOutcome::Skipped => { report.skipped = report.skipped + 1; }
            IngestOutcome::Failed => { complete = false; }
        }
        i = i + 1;
    }
    proof { assert(outcomes@.subrange(0, outcomes@.len() as int) =~= outcomes@); }
    complete
}

} // verus!

verus! {

/// A file found by a source adapter or re-checked from the index.
#[derive(Debug)]
pub struct DiscoveredFile {
    pub source_type: String,
    pub source_account_id: Option<String>,
    pub absolute_path: String,
    pub file_name: String,
    pub file_size: u64,
    pub modified_time: SystemTime,
    pub source_conversation_id: Option<String>,
}

/// One step of duplicate removal: an entry is kept when its key was not kept
/// before and it carries a file.
pub open spec fn dedup_step(
    st: (Set<Seq<char>>, Seq<DiscoveredFile>),
    item: (Seq<char>, Option<DiscoveredFile>),
) -> (Set<Seq<char>>, Seq<DiscoveredFile>) {
    if !st.0.contains(item.0) && item.1 is Some {
        (st.0.insert(item.0), st.1.push(item.1->0))
    } else {
        st
    }
}

/// Duplicate removal over `items`, in order, from the state `st` (kept keys, kept files).
pub open spec fn dedup_from(
    st: (Set<Seq<char>>, Seq<DiscoveredFile>),
    items: Seq<(Seq<char>, Option<DiscoveredFile>)>,
) -> (Set<Seq<char>>, Seq<DiscoveredFile>)
    decreases items.len(),
{
    if items.len() == 0 {
        st
    } else {
        dedup_step(dedup_from(st, items.drop_last()), items.last())
    }
}

/// Duplicate removal over `items` from nothing kept.
pub open spec fn dedup_first(items: Seq<(Seq<char>, Option<DiscoveredFile>)>) -> (Set<Seq<char>>, Seq<DiscoveredFile>) {
    dedup_from((Set::empty(), Seq::empty()), items)
}

proof fn lemma_dedup_concat(
    st: (Set<Seq<char>>, Seq<DiscoveredFile>),
    a: Seq<(Seq<char>, Option<DiscoveredFile>)>,
    b: Seq<(Seq<char>, Option<DiscoveredFile>)>,
)
    ensures
        dedup_from(st, a + b) == dedup_from(dedup_from(st, a), b),
    decreases b.len(),
{
    if b.len() == 0 {
        assert(a + b =~= a);
    } else {
        assert((a + b).drop_last() =~= a + b.drop_last());
        assert((a + b).last() == b.last());
        lemma_dedup_concat(st, a, b.drop_last());
    }
}

/// Walked files with their normalized keys, as keyed candidates.
pub open spec fn walked_items(walked: Seq<(String, DiscoveredFile)>) -> Seq<(Seq<char>, Option<DiscoveredFile>)> {
    walked.map_values(|e: (String, DiscoveredFile)| (e.0@, Some(e.1)))
}

/// Known files with their normalized keys, as keyed candidates; a known file
/// that could not be turned back into a candidate is `None`.
pub open spec fn known_items(known: Seq<(String, Option<DiscoveredFile>)>) -> Seq<(Seq<char>, Option<DiscoveredFile>)> {
    known.map_values(|e: (String, Option<DiscoveredFile>)| (e.0@, e.1))
}

/// Texts of kept keys.
pub open spec fn key_set(seen: Seq<String>) -> Set<Seq<char>> {
    seen.map_values(|s: String| s@).to_set()
}

fn contains_key(seen: &Vec<String>, k: &str) -> (r: bool)
    ensures
        r == key_set(seen@).contains(k@),
{
    let ghost views = seen@.map_values(|s: String| s@);
    let mut i: usize = 0;
    while i < seen.len()
        invariant
            views == seen@.map_values(|s: String| s@),
            i <= seen@.len(),
            forall|j: int| 0 <= j < i ==> views[j] != k@,
        decreases seen@.len() - i,
    {
        if str_eq(seen[i].as_str(), k) {
            assert(views[i as int] == k@);
            assert(views.contains(k@));
            return true;
        }
        i = i + 1;
    }
    proof {
        if views.contains(k@) {
            let j = choose|j: int| 0 <= j < views.len() && views[j] == k@;
            assert(views[j] != k@);
        }
    }
    false
}

fn absorb(seen: &mut Vec<String>, out: &mut Vec<DiscoveredFile>, items: Vec<(String, Option<DiscoveredFile>)>)
    ensures
        (key_set(final(seen)@), final(out)@) == dedup_from((key_set(old(seen)@), old(out)@), known_items(items@)),
{
    let ghost st0 = (key_set(seen@), out@);
    let ghost all = known_items(items@);
    let ghost n = items@.len();
    let mut rest = items;
    let mut done: usize = 0;
    assert(rest.len() == n);
    proof {
        assert(all.subrange(0, 0) =~= Seq::<(Seq<char>, Option<DiscoveredFile>)>::empty());
        assert(known_items(rest@) =~= all.subrange(0, n as int));
    }
    while rest.len() > 0
        invariant
            n == all.len(),
            n <= usize::MAX,
            done + rest@.len() == n,
            known_items(rest@) =~= all.subrange(done as int, n as int),
            (key_set(seen@), out@) == dedup_from(st0, all.subrange(0, done as int)),
        decreases rest@.len(),
    {
        let ghost pre = all.subrange(0, done as int);
        let ghost old_rest = rest@;
        let (key, file) = rest.remove(0);
        proof {
            assert(known_items(old_rest)[0] == all[done as int]);
            assert(all.subrange(0, done + 1).drop_last() =~= pre);
            assert(all.subrange(0, done + 1).last() == all[done as int]);
            assert(all[done as int] == (key@, file));
            assert(rest@ =~= old_rest.subrange(1, old_rest.len() as int));
            assert forall|i: int| 0 <= i < rest@.len() implies known_items(rest@)[i] == all[done + 1 + i] by {
                assert(known_items(old_rest)[i + 1] == all.subrange(done as int, n as int)[i + 1]);
            }
            assert(known_items(rest@) =~= all.subrange(done + 1, n as int));
        }
        if !contains_key(seen, key.as_str()) {
            match file {
                Some(f) => {
                    let ghost k = key@;
                    let ghost seen_before = seen@;
                    seen.push(key);
                    out.push(f);
                    proof {
                        let views = seen@.map_values(|s: String| s@);
                        let before = seen_before.map_values(|s: String| s@);
                        assert(views =~= before.push(k));
                        before.lemma_push_to_set_commute(k);
                    }
                }
                None => {}
            }
        }
        done = done + 1;
    }
    proof { assert(all.subrange(0, n as int) =~= all); }
}

/// Merges walked files with changed known files, dropping later duplicates of a
/// normalized path key: walked files first, then known files whose key was not
/// taken and that could be turned back into candidates.
pub fn merge_candidates(
    walked: Vec<(String, DiscoveredFile)>,
    known: Vec<(String, Option<DiscoveredFile>)>,
) -> (r: Vec<DiscoveredFile>)
    ensures
        r@ == dedup_first(walked_items(walked@) + known_items(known@)).1,
{
    let ghost w0 = walked@;
    let mut as_items: Vec<(String, Option<DiscoveredFile>)> = Vec::new();
    let mut rest = walked;
    while rest.len() > 0
        invariant
            known_items(as_items@) + walked_items(rest@) =~= walked_items(w0),
        decreases rest@.len(),
    {
        let ghost old_rest = rest@;
        let (k, f) = rest.remove(0);
        proof {
            assert(rest@ =~= old_rest.subrange(1, old_rest.len() as int));
            assert(walked_items(old_rest) =~= seq![(k@, Some(f))] + walked_items(rest@));
        }
        let ghost items_before = as_items@;
        as_items.push((k, Some(f)));
        proof {
            assert(known_items(as_items@) =~= known_items(items_before).push((k@, Some(f))));
            assert(known_items(as_items@) + walked_items(rest@) =~= known_items(items_before) + walked_items(old_rest));
        }
    }
    let mut seen: Vec<String> = Vec::new();
    let mut out: Vec<DiscoveredFile> = Vec::new();
    proof {
        assert(key_set(seen@) =~= Set::<Seq<char>>::empty());
    }
    absorb(&mut seen, &mut out, as_items);
    absorb(&mut seen, &mut out, known);
    proof {
        lemma_dedup_concat((Set::empty(), Seq::empty()), walked_items(w0), known_items(known@));
    }
    out
}

} // verus!

verus! {

/// Parameters and callbacks of one scan. The callbacks are given as closure
/// types: a cancellation probe, a progress sink and a per-source report sink.
pub struct ScanRequest<'a, C: Fn() -> bool, E: Fn(ScanEvent), D: Fn(&str, ScanReport)> {
    pub device_id: &'a str,
    /// Ignore checkpoints and discover everything.
    pub full_scan: bool,
    /// Account selection; `None` selects all, an empty list none.
    pub target_accounts: Option<&'a [AccountTarget]>,
    /// Start of this scan in milliseconds; written as checkpoint after a complete source.
    pub scan_started_ms: i64,
    /// Returns true to stop at the next source or account boundary.
    pub should_cancel: Option<&'a C>,
    /// Progress events.
    pub on_event: Option<&'a E>,
    /// Running report after each source.
    pub on_source_done: Option<&'a D>,
}

impl<'a, C: Fn() -> bool, E: Fn(ScanEvent), D: Fn(&str, ScanReport)> ScanRequest<'a, C, E, D> {
    /// Sends a progress event to the sink, if there is one.
    pub fn emit(&self, event: ScanEvent)
        requires
            self.on_event matches Some(f) ==> call_requires(*f, (event,)),
    {
        match self.on_event {
            Some(on) => on(event),
            None => {}
        }
    }

    /// Whether the scan was asked to stop: never without a probe, else what
    /// the probe answers.
    pub fn cancelled(&self) -> (r: bool)
        requires
            self.should_cancel matches Some(f) ==> call_requires(*f, ()),
        ensures
            self.should_cancel is None ==> !r,
            self.should_cancel matches Some(f) ==> call_ensures(*f, (), r),
    {
        match self.should_cancel {
            Some(f) => f(),
            None => false,
        }
    }

    /// Reports the running totals after the source at `path`.
    pub fn notify_source_done(&self, path: &str, report: ScanReport)
        requires
            self.on_source_done matches Some(f) ==> call_requires(*f, (path, report)),
    {
        match self.on_source_done {
            Some(on) => on(path, report),
            None => {}
        }
    }
}


/// Temporary and partial files are never scan candidates, whatever their size
/// and the options: Office owner files `~$...`, and names ending in `.tmp`,
/// `.crdownload` or `.part`. Neither is a file without a UTF-8 name, a hidden
/// file when hidden names are skipped, or a file whose size is known to be
/// under the minimum. Any other name that starts with neither `.` nor `~` and
/// ends in none of `p`, `d`, `t` is kept when its size is unknown or reaches
/// the minimum.
pub proof fn lemma_scan_keeps_only_real_files(n: Seq<char>, size: Option<u64>, options: ScanOptions)
    ensures
        n.len() >= 2 && n[0] == '~' && n[1] == '$' ==> !keep_file_spec(Some(n), size, options),
        n.len() >= 4 && n.subrange(n.len() - 4, n.len() as int) == seq!['.', 't', 'm', 'p']
            ==> !keep_file_spec(Some(n), size, options),
        n.len() >= 11 && n.subrange(n.len() - 11, n.len() as int)
            == seq!['.', 'c', 'r', 'd', 'o', 'w', 'n', 'l', 'o', 'a', 'd']
            ==> !keep_file_spec(Some(n), size, options),
        n.len() >= 5 && n.subrange(n.len() - 5, n.len() as int) == seq!['.', 'p', 'a', 'r', 't']
            ==> !keep_file_spec(Some(n), size, options),
        options.skip_hidden && n.len() >= 1 && n[0] == '.' ==> !keep_file_spec(Some(n), size, options),
        !keep_file_spec(None, size, options),
        (size matches Some(sz) && sz < options.min_size) ==> !keep_file_spec(Some(n), size, options),
        (n.len() >= 1 && n[0] != '.' && n[0] != '~' && n.last() != 'p' && n.last() != 'd' && n.last() != 't'
            && (size matches Some(sz) ==> sz >= options.min_size)) ==> keep_file_spec(Some(n), size, options),
{
    reveal_strlit("~$");
    reveal_strlit(".tmp");
    reveal_strlit(".crdownload");
    reveal_strlit(".part");
    reveal_strlit(".");
    if n.len() >= 2 && n[0] == '~' && n[1] == '$' {
        assert(n.subrange(0, 2) =~= "~$"@);
    }
    if n.len() >= 4 && n.subrange(n.len() - 4, n.len() as int) == seq!['.', 't', 'm', 'p'] {
        assert(".tmp"@ =~= seq!['.', 't', 'm', 'p']);
    }
    if n.len() >= 11 && n.subrange(n.len() - 11, n.len() as int)
        == seq!['.', 'c', 'r', 'd', 'o', 'w', 'n', 'l', 'o', 'a', 'd'] {
        assert(".crdownload"@ =~= seq!['.', 'c', 'r', 'd', 'o', 'w', 'n', 'l', 'o', 'a', 'd']);
    }
    if n.len() >= 5 && n.subrange(n.len() - 5, n.len() as int) == seq!['.', 'p', 'a', 'r', 't'] {
        assert(".part"@ =~= seq!['.', 'p', 'a', 'r', 't']);
    }
    if options.skip_hidden && n.len() >= 1 && n[0] == '.' {
        assert(n.subrange(0, 1) =~= "."@);
    }
    if n.len() >= 1 && n[0] != '.' && n[0] != '~' && n.last() != 'p' && n.last() != 'd' && n.last() != 't' {
        if has_prefix(n, "~$"@) {
            assert(n.subrange(0, 2)[0] == n[0]);
        }
        if has_prefix(n, "."@) {
            assert(n.subrange(0, 1)[0] == n[0]);
        }
        if has_suffix(n, ".tmp"@) {
            assert(n.subrange(n.len() - 4, n.len() as int)[3] == n.last());
        }
        if has_suffix(n, ".crdownload"@) {
            assert(n.subrange(n.len() - 11, n.len() as int)[10] == n.last());
        }
        if has_suffix(n, ".part"@) {
            assert(n.subrange(n.len() - 5, n.len() as int)[4] == n.last());
        }
    }
}

} // verus!
