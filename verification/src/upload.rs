//! The upload queue: the life of one upload task, its retry backoff, and
//! which local file an upload reads.
use vstd::prelude::*;
use crate::error::ChatVaultError;
use crate::mapping::opt_text;
use crate::text::{opt_str, str_eq};

verus! {

/// One upload task as the queue lists it.
#[derive(Debug, Clone)]
pub struct UploadTaskRow {
    pub task_id: String,
    pub status: String,
    pub retry_count: u32,
    pub error_message: Option<String>,
    pub updated_at: String,
    pub original_name: String,
    pub record_id: String,
    pub hash: String,
    pub size: u64,
    pub original_path: Option<String>,
}

/// What an upload worker needs to run one task.
#[derive(Debug, Clone)]
pub struct PendingUpload {
    pub task_id: String,
    pub hash: String,
    pub record_id: String,
    pub original_name: String,
    pub size: u64,
}

/// The stored state of one upload task.
#[derive(Debug)]
pub struct UploadTask {
    pub status: String,
    pub retry_count: i64,
    pub error_message: Option<String>,
}

/// `2` to the power `n`.
pub open spec fn two_pow(n: nat) -> nat
    decreases n,
{
    if n == 0 { 1 } else { 2 * two_pow((n - 1) as nat) }
}

/// Seconds a failed task waits before it is retried: none before its first
/// failure, then 30 s doubling per failure, at most 3600 s.
pub open spec fn retry_delay_spec(retry_count: int) -> int {
    if retry_count <= 0 {
        0
    } else {
        let e = if retry_count - 1 < 7 { retry_count - 1 } else { 7 };
        let d: int = 30 * (two_pow(e as nat) as int);
        if d < 3600 { d } else { 3600 }
    }
}

/// The retry delay, in seconds, of a task that failed `retry_count` times.
pub fn retry_delay_secs(retry_count: i64) -> (r: i64)
    ensures
        r == retry_delay_spec(retry_count as int),
{
    if retry_count <= 0 {
        return 0;
    }
    let e: i64 = if retry_count - 1 < 7 { retry_count - 1 } else { 7 };
    let mut p: i64 = 1;
    let mut k: i64 = 0;
    while k < e
        invariant
            0 <= k <= e <= 7,
            p == two_pow(k as nat),
            p <= 128,
        decreases e - k,
    {
        proof {
            assert(two_pow((k + 1) as nat) == 2 * two_pow(k as nat));
            lemma_two_pow_bound((k + 1) as nat);
        }
        p = p * 2;
        k = k + 1;
    }
    let d = 30 * p;
    if d < 3600 { d } else { 3600 }
}

proof fn lemma_two_pow_bound(n: nat)
    requires
        n <= 7,
    ensures
        two_pow(n) <= 128,
{
    assert(two_pow(0) == 1);
    assert(two_pow(1) == 2);
    assert(two_pow(2) == 4);
    assert(two_pow(3) == 8);
    assert(two_pow(4) == 16);
    assert(two_pow(5) == 32);
    assert(two_pow(6) == 64);
    assert(two_pow(7) == 128);
}

proof fn lemma_two_pow_monotone(a: nat, b: nat)
    requires
        a <= b,
    ensures
        two_pow(a) <= two_pow(b),
    decreases b,
{
    if a < b {
        lemma_two_pow_monotone(a, (b - 1) as nat);
    }
}

/// The retry backoff never shrinks with more failures, never exceeds an hour,
/// and is zero for a task that has not failed.
pub proof fn lemma_retry_delay_monotone(a: int, b: int)
    requires
        a <= b,
    ensures
        0 <= retry_delay_spec(a) <= retry_delay_spec(b) <= 3600,
        a <= 0 ==> retry_delay_spec(a) == 0,
{
    if a > 0 {
        let ea: int = if a - 1 < 7 { a - 1 } else { 7 };
        let eb: int = if b - 1 < 7 { b - 1 } else { 7 };
        lemma_two_pow_monotone(ea as nat, eb as nat);
    }
    if b > 0 {
        let eb: int = if b - 1 < 7 { b - 1 } else { 7 };
        lemma_two_pow_monotone(0, eb as nat);
    }
}

/// A task of this status may be run by a worker.
pub open spec fn task_runnable(status: Seq<char>) -> bool {
    status == queued() || status == retryable_failed()
}

/// A task of this status and failure count is picked up `elapsed_ms` after
/// its last update: a queued one always, a failed one once its delay passed.
pub open spec fn task_due(status: Seq<char>, retry_count: i64, elapsed_ms: i64) -> bool {
    status == queued() || (status == retryable_failed() && elapsed_ms >= retry_delay_spec(retry_count as int) * 1000)
}

/// Status text of a task waiting for its first attempt.
pub open spec fn queued() -> Seq<char> {
    seq!['q', 'u', 'e', 'u', 'e', 'd']
}

/// Status text of a task whose last attempt failed and that will be retried.
pub open spec fn retryable_failed() -> Seq<char> {
    seq!['r', 'e', 't', 'r', 'y', 'a', 'b', 'l', 'e', '_', 'f', 'a', 'i', 'l', 'e', 'd']
}

/// Status text of a task whose content is archived.
pub open spec fn backed_up() -> Seq<char> {
    seq!['b', 'a', 'c', 'k', 'e', 'd', '_', 'u', 'p']
}

/// Status text of a task whose local file disappeared.
pub open spec fn missing() -> Seq<char> {
    seq!['m', 'i', 's', 's', 'i', 'n', 'g']
}

/// Status text of a task put on hold.
pub open spec fn paused() -> Seq<char> {
    seq!['p', 'a', 'u', 's', 'e', 'd']
}

/// Status text that selects every not yet archived task in a listing.
pub open spec fn pending_filter() -> Seq<char> {
    seq!['p', 'e', 'n', 'd', 'i', 'n', 'g']
}

proof fn lemma_status_literals()
    ensures
        "queued"@ == queued(),
        "retryable_failed"@ == retryable_failed(),
        "backed_up"@ == backed_up(),
        "missing"@ == missing(),
        "paused"@ == paused(),
        "pending"@ == pending_filter(),
        "decrypted"@ == decrypted(),
        ""@ == Seq::<char>::empty(),
{
    reveal_strlit("");
    reveal_strlit("queued");
    reveal_strlit("retryable_failed");
    reveal_strlit("backed_up");
    reveal_strlit("missing");
    reveal_strlit("paused");
    reveal_strlit("pending");
    reveal_strlit("decrypted");
    assert("queued"@ =~= queued());
    assert("retryable_failed"@ =~= retryable_failed());
    assert("backed_up"@ =~= backed_up());
    assert("missing"@ =~= missing());
    assert("paused"@ =~= paused());
    assert("pending"@ =~= pending_filter());
    assert("decrypted"@ =~= decrypted());
    assert(""@ =~= Seq::<char>::empty());
}

fn is_status(s: &str, lit: &str) -> (r: bool)
    ensures
        r == (s@ == lit@),
{
    str_eq(s, lit)
}

/// Whether a listing filter selects a task of status `status`: no filter or
/// an empty one selects all, `pending` selects every not yet archived state,
/// any other text selects that exact status.
pub open spec fn filter_selects(status: Seq<char>, filter: Option<Seq<char>>) -> bool {
    match filter {
        None => true,
        Some(f) => {
            ||| f.len() == 0
            ||| (f == pending_filter() && (status == queued() || status == retryable_failed()
                || status == missing() || status == paused()))
            ||| status == f
        },
    }
}

/// Whether the listing filter `filter` selects a task of status `status`.
pub fn status_filter_selects(status: &str, filter: Option<&str>) -> (r: bool)
    ensures
        r == filter_selects(status@, opt_str(filter)),
{
    proof { lemma_status_literals(); }
    match filter {
        None => true,
        Some(f) => {
            if f.unicode_len() == 0 {
                return true;
            }
            if is_status(f, "pending") && (is_status(status, "queued") || is_status(status, "retryable_failed")
                || is_status(status, "missing") || is_status(status, "paused")) {
                return true;
            }
            str_eq(status, f)
        },
    }
}

/// The number of rows a listing returns at most.
pub fn list_limit(limit: usize) -> (r: usize)
    ensures
        r == if limit < 500 { limit } else { 500 },
{
    if limit < 500 { limit } else { 500 }
}

impl UploadTask {
    /// A new task, queued with no failures.
    pub fn new_queued() -> (r: UploadTask)
        ensures
            r.status@ == queued(),
            r.retry_count == 0,
            r.error_message is None,
    {
        proof { lemma_status_literals(); }
        UploadTask { status: String::from_str("queued"), retry_count: 0, error_message: None }
    }

    /// Whether a worker may run the task now: it is queued or awaiting retry.
    pub fn is_runnable(&self) -> (r: bool)
        ensures
            r == task_runnable(self.status@),
    {
        proof { lemma_status_literals(); }
        is_status(self.status.as_str(), "queued") || is_status(self.status.as_str(), "retryable_failed")
    }

    /// Whether the task is due, `elapsed_ms` after its last update: a queued
    /// task always is, a failed one once its retry delay has passed.
    pub fn is_due(&self, elapsed_ms: i64) -> (r: bool)
        ensures
            r == task_due(self.status@, self.retry_count, elapsed_ms),
    {
        proof { lemma_status_literals(); }
        if is_status(self.status.as_str(), "queued") {
            return true;
        }
        if !is_status(self.status.as_str(), "retryable_failed") {
            return false;
        }
        let d = retry_delay_secs(self.retry_count);
        elapsed_ms >= d * 1000
    }

    /// Records the outcome of an attempt: `backed_up` clears the error and
    /// keeps the failure count; any other status records the error text (empty
    /// when none) and counts one more failure.
    pub fn record_outcome(&mut self, status: &str, error_message: Option<&str>)
        requires
            old(self).retry_count < i64::MAX,
        ensures
            final(self).status@ == status@,
            status@ == backed_up() ==> final(self).error_message is None
                && final(self).retry_count == old(self).retry_count,
            status@ != backed_up() ==> final(self).retry_count == old(self).retry_count + 1
                && final(self).error_message is Some
                && final(self).error_message->0@ == match error_message {
                    Some(m) => m@,
                    None => Seq::<char>::empty(),
                },
    {
        proof { lemma_status_literals(); }
        if is_status(status, "backed_up") {
            self.status = String::from_str(status);
            self.error_message = None;
        } else {
            self.status = String::from_str(status);
            let text = match error_message {
                Some(m) => String::from_str(m),
                None => String::from_str(""),
            };
            self.error_message = Some(text);
            self.retry_count = self.retry_count + 1;
        }
    }

    /// Puts the task back in the queue, clearing its error.
    pub fn requeue(&mut self)
        ensures
            final(self).status@ == queued(),
            final(self).error_message is None,
            final(self).retry_count == old(self).retry_count,
    {
        proof { lemma_status_literals(); }
        self.status = String::from_str("queued");
        self.error_message = None;
    }

    /// Puts the task on hold.
    pub fn pause(&mut self)
        ensures
            final(self).status@ == paused(),
            final(self).error_message == old(self).error_message,
            final(self).retry_count == old(self).retry_count,
    {
        proof { lemma_status_literals(); }
        self.status = String::from_str("paused");
    }

    /// Prepares the task for a newly bound vault, which holds no objects yet:
    /// every task that is not paused is queued again with a clean slate.
    /// Returns whether the task was requeued.
    pub fn reset_for_new_vault(&mut self) -> (r: bool)
        ensures
            r == (old(self).status@ != paused()),
            r ==> final(self).status@ == queued() && final(self).error_message is None
                && final(self).retry_count == 0,
            !r ==> final(self).status@ == old(self).status@
                && final(self).error_message == old(self).error_message
                && final(self).retry_count == old(self).retry_count,
    {
        proof { lemma_status_literals(); }
        if is_status(self.status.as_str(), "paused") {
            return false;
        }
        self.status = String::from_str("queued");
        self.error_message = None;
        self.retry_count = 0;
        true
    }

    /// Whether the task may be deleted from the queue: only while it is missing.
    pub fn deletable(&self) -> (r: bool)
        ensures
            r == (self.status@ == missing()),
    {
        proof { lemma_status_literals(); }
        is_status(self.status.as_str(), "missing")
    }
}

/// A requeued task is runnable and due at once, whatever its failure count;
/// a paused or archived task is neither runnable nor due.
pub proof fn lemma_requeued_task_is_due(retry_count: i64, elapsed_ms: i64)
    ensures
        task_runnable(queued()),
        task_due(queued(), retry_count, elapsed_ms),
        !task_runnable(paused()),
        !task_due(paused(), retry_count, elapsed_ms),
        !task_runnable(backed_up()),
        !task_due(backed_up(), retry_count, elapsed_ms),
{
    assert(queued()[0] != paused()[0]);
    assert(retryable_failed()[0] != paused()[0]);
    assert(queued()[0] != backed_up()[0]);
    assert(retryable_failed()[0] != backed_up()[0]);
}

/// A failed task becomes due exactly when its retry delay has passed, and
/// stays due as time goes on.
pub proof fn lemma_failed_task_due_after_delay(retry_count: i64, a: i64, b: i64)
    requires
        a <= b,
    ensures
        task_due(retryable_failed(), retry_count, a) <==> a >= retry_delay_spec(retry_count as int) * 1000,
        task_due(retryable_failed(), retry_count, a) ==> task_due(retryable_failed(), retry_count, b),
{
    assert(retryable_failed()[0] != queued()[0]);
}

/// Content origin of a record whose local copy was decrypted from the source.
pub open spec fn decrypted() -> Seq<char> {
    seq!['d', 'e', 'c', 'r', 'y', 'p', 't', 'e', 'd']
}

/// The local path an upload reads: a decrypted record only from its managed
/// copy (never from the encrypted source); any other from its managed copy
/// when there is one, else from the original path. `None` when a decrypted
/// record has lost its copy.
pub open spec fn upload_source_spec(
    content_origin: Option<Seq<char>>,
    cache: Option<Seq<char>>,
    original: Seq<char>,
) -> Option<Seq<char>> {
    if content_origin == Some(decrypted()) {
        cache
    } else {
        match cache {
            Some(c) => Some(c),
            None => Some(original),
        }
    }
}

/// Chooses the local path an upload reads, or reports that the decrypted copy
/// of task `task_id` is gone.
pub fn select_upload_source(
    task_id: &str,
    content_origin: Option<&str>,
    cache: Option<String>,
    original: String,
) -> (r: Result<String, ChatVaultError>)
    ensures
        match upload_source_spec(opt_str(content_origin), opt_text(cache), original@) {
            Some(p) => r is Ok && r->Ok_0@ == p,
            None => r matches Err(ChatVaultError::FileNotFound { .. }),
        },
{
    proof { lemma_status_literals(); }
    let is_decrypted = match content_origin {
        Some(o) => is_status(o, "decrypted"),
        None => false,
    };
    if is_decrypted {
        match cache {
            Some(c) => Ok(c),
            None => {
                let mut m = String::from_str("任务 ");
                m.append(task_id);
                m.append(" 的明文缓存已回收，无法回退到微信密文");
                Err(ChatVaultError::FileNotFound { path: m })
            }
        }
    } else {
        match cache {
            Some(c) => Ok(c),
            None => Ok(original),
        }
    }
}

/// A decrypted record never uploads from anything but its managed copy.
pub proof fn lemma_decrypted_uses_copy_only(cache: Option<Seq<char>>, original: Seq<char>)
    ensures
        upload_source_spec(Some(decrypted()), cache, original) == cache,
{
}


/// The `pending` listing shows exactly the tasks that are not yet archived and
/// not cancelled: those queued, failed awaiting a retry, missing their local
/// file, or paused (any other status is listed only under its own name). In
/// particular every task that is due to run is listed as pending. No filter,
/// or an empty one, lists every task.
pub proof fn lemma_pending_lists_runnable_tasks(status: Seq<char>, retry_count: i64, elapsed_ms: i64)
    ensures
        status != seq!['p', 'e', 'n', 'd', 'i', 'n', 'g'] ==> (
            filter_selects(status, Some(seq!['p', 'e', 'n', 'd', 'i', 'n', 'g'])) <==> (
                status == seq!['q', 'u', 'e', 'u', 'e', 'd']
                || status == seq!['r', 'e', 't', 'r', 'y', 'a', 'b', 'l', 'e', '_', 'f', 'a', 'i', 'l', 'e', 'd']
                || status == seq!['m', 'i', 's', 's', 'i', 'n', 'g']
                || status == seq!['p', 'a', 'u', 's', 'e', 'd'])),
        task_due(status, retry_count, elapsed_ms) ==> filter_selects(status, Some(pending_filter())),
        filter_selects(status, None),
        filter_selects(status, Some(Seq::empty())),
{
    assert(pending_filter() =~= seq!['p', 'e', 'n', 'd', 'i', 'n', 'g']);
}


/// A listing filter other than `pending` (and not empty) selects exactly the
/// tasks whose status is that text.
pub proof fn lemma_named_filter_selects_that_status(status: Seq<char>, f: Seq<char>)
    requires
        f.len() > 0,
        f != seq!['p', 'e', 'n', 'd', 'i', 'n', 'g'],
    ensures
        filter_selects(status, Some(f)) <==> status == f,
{
    assert(pending_filter() =~= seq!['p', 'e', 'n', 'd', 'i', 'n', 'g']);
}

} // verus!
