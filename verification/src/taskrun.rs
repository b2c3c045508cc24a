//! Run history: the kinds and states of recorded runs, stages and items,
//! how they are stored as text, and which runs are stale or expired.
use vstd::prelude::*;
use crate::ordering::text_lt;
use crate::text::str_eq;

verus! {

/// Kind of a recorded run.
#[derive(Debug, Clone, Copy, PartialEq, Eq, Structural)]
pub enum TaskRunKind {
    Pipeline,
    Restore,
}

/// The stored text of a kind.
pub open spec fn kind_text(x: TaskRunKind) -> Seq<char> {
    match x {
        TaskRunKind::Pipeline => "pipeline"@,
        TaskRunKind::Restore => "restore"@,
    }
}

impl TaskRunKind {
    /// The stored text.
    pub fn as_str(self) -> (r: &'static str)
        ensures
            r@ == kind_text(self),
    {
        match self {
            TaskRunKind::Pipeline => "pipeline",
            TaskRunKind::Restore => "restore",
        }
    }
}

/// The run kind a stored text names; anything else is a pipeline run.
pub open spec fn kind_of(s: Seq<char>) -> TaskRunKind {
    if s == "restore"@ {
        TaskRunKind::Restore
    } else {
        TaskRunKind::Pipeline
    }
}

/// Reads the run kind a stored text names; anything else is a pipeline run.
pub fn kind_from_text(s: &str) -> (r: TaskRunKind)
    ensures
        r == kind_of(s@),
{
    if str_eq(s, "restore") {
        TaskRunKind::Restore
    } else {
        TaskRunKind::Pipeline
    }
}

/// Every kind survives being stored and read back.
pub proof fn lemma_kind_roundtrip(x: TaskRunKind)
    ensures
        kind_of(kind_text(x)) == x,
{
    reveal_strlit("pipeline");
    reveal_strlit("restore");
    assert("pipeline"@.len() != "restore"@.len());
}

/// Outcome of a recorded run.
#[derive(Debug, Clone, Copy, PartialEq, Eq, Structural)]
pub enum TaskRunStatus {
    Running,
    Success,
    Partial,
    Failed,
    Cancelled,
}

/// The stored text of a run status.
pub open spec fn run_status_text(x: TaskRunStatus) -> Seq<char> {
    match x {
        TaskRunStatus::Running => "running"@,
        TaskRunStatus::Success => "success"@,
        TaskRunStatus::Partial => "partial"@,
        TaskRunStatus::Failed => "failed"@,
        TaskRunStatus::Cancelled => "cancelled"@,
    }
}

impl TaskRunStatus {
    /// The stored text.
    pub fn as_str(self) -> (r: &'static str)
        ensures
            r@ == run_status_text(self),
    {
        match self {
            TaskRunStatus::Running => "running",
            TaskRunStatus::Success => "success",
            TaskRunStatus::Partial => "partial",
            TaskRunStatus::Failed => "failed",
            TaskRunStatus::Cancelled => "cancelled",
        }
    }
}

/// The run status a stored text names; anything else counts as running.
pub open spec fn run_status_of(s: Seq<char>) -> TaskRunStatus {
    if s == "success"@ {
        TaskRunStatus::Success
    } else if s == "partial"@ {
        TaskRunStatus::Partial
    } else if s == "failed"@ {
        TaskRunStatus::Failed
    } else if s == "cancelled"@ {
        TaskRunStatus::Cancelled
    } else {
        TaskRunStatus::Running
    }
}

/// Reads the run status a stored text names; anything else counts as running.
pub fn run_status_from_text(s: &str) -> (r: TaskRunStatus)
    ensures
        r == run_status_of(s@),
{
    if str_eq(s, "success") {
        TaskRunStatus::Success
    } else if str_eq(s, "partial") {
        TaskRunStatus::Partial
    } else if str_eq(s, "failed") {
        TaskRunStatus::Failed
    } else if str_eq(s, "cancelled") {
        TaskRunStatus::Cancelled
    } else {
        TaskRunStatus::Running
    }
}

/// Every run status survives being stored and read back.
pub proof fn lemma_run_status_roundtrip(x: TaskRunStatus)
    ensures
        run_status_of(run_status_text(x)) == x,
{
    reveal_strlit("running");
    reveal_strlit("success");
    reveal_strlit("partial");
    reveal_strlit("failed");
    reveal_strlit("cancelled");
    assert("running"@[0] != "success"@[0]);
    assert("running"@[0] != "partial"@[0]);
    assert("running"@.len() != "failed"@.len());
    assert("running"@.len() != "cancelled"@.len());
    assert("success"@[0] != "partial"@[0]);
    assert("success"@.len() != "failed"@.len());
    assert("success"@.len() != "cancelled"@.len());
    assert("partial"@.len() != "failed"@.len());
    assert("partial"@.len() != "cancelled"@.len());
    assert("failed"@.len() != "cancelled"@.len());
}

/// A stage of a run.
#[derive(Debug, Clone, Copy, PartialEq, Eq, Structural)]
pub enum TaskRunStageName {
    Scan,
    Archive,
    Publish,
    Pull,
}

/// The stored text of a stage name.
pub open spec fn stage_name_text(x: TaskRunStageName) -> Seq<char> {
    match x {
        TaskRunStageName::Scan => "scan"@,
        TaskRunStageName::Archive => "archive"@,
        TaskRunStageName::Publish => "publish"@,
        TaskRunStageName::Pull => "pull"@,
    }
}

impl TaskRunStageName {
    /// The stored text.
    pub fn as_str(self) -> (r: &'static str)
        ensures
            r@ == stage_name_text(self),
    {
        match self {
            TaskRunStageName::Scan => "scan",
            TaskRunStageName::Archive => "archive",
            TaskRunStageName::Publish => "publish",
            TaskRunStageName::Pull => "pull",
        }
    }
}

/// The stage a stored text names; anything else is the scan stage.
pub open spec fn stage_name_of(s: Seq<char>) -> TaskRunStageName {
    if s == "archive"@ {
        TaskRunStageName::Archive
    } else if s == "publish"@ {
        TaskRunStageName::Publish
    } else if s == "pull"@ {
        TaskRunStageName::Pull
    } else {
        TaskRunStageName::Scan
    }
}

/// Reads the stage a stored text names; anything else is the scan stage.
pub fn stage_name_from_text(s: &str) -> (r: TaskRunStageName)
    ensures
        r == stage_name_of(s@),
{
    if str_eq(s, "archive") {
        TaskRunStageName::Archive
    } else if str_eq(s, "publish") {
        TaskRunStageName::Publish
    } else if str_eq(s, "pull") {
        TaskRunStageName::Pull
    } else {
        TaskRunStageName::Scan
    }
}

/// Every stage name survives being stored and read back.
pub proof fn lemma_stage_name_roundtrip(x: TaskRunStageName)
    ensures
        stage_name_of(stage_name_text(x)) == x,
{
    reveal_strlit("scan");
    reveal_strlit("archive");
    reveal_strlit("publish");
    reveal_strlit("pull");
    assert("scan"@.len() != "archive"@.len());
    assert("scan"@.len() != "publish"@.len());
    assert("scan"@[0] != "pull"@[0]);
    assert("archive"@[0] != "publish"@[0]);
    assert("archive"@.len() != "pull"@.len());
    assert("publish"@.len() != "pull"@.len());
}

/// Status of a run stage.
#[derive(Debug, Clone, Copy, PartialEq, Eq, Structural)]
pub enum TaskRunStageStatus {
    Pending,
    Running,
    Success,
    Failed,
    Skipped,
}

/// The stored text of a stage status.
pub open spec fn stage_status_text(x: TaskRunStageStatus) -> Seq<char> {
    match x {
        TaskRunStageStatus::Pending => "pending"@,
        TaskRunStageStatus::Running => "running"@,
        TaskRunStageStatus::Success => "success"@,
        TaskRunStageStatus::Failed => "failed"@,
        TaskRunStageStatus::Skipped => "skipped"@,
    }
}

impl TaskRunStageStatus {
    /// The stored text.
    pub fn as_str(self) -> (r: &'static str)
        ensures
            r@ == stage_status_text(self),
    {
        match self {
            TaskRunStageStatus::Pending => "pending",
            TaskRunStageStatus::Running => "running",
            TaskRunStageStatus::Success => "success",
            TaskRunStageStatus::Failed => "failed",
            TaskRunStageStatus::Skipped => "skipped",
        }
    }
}

/// The stage status a stored text names; anything else is pending.
pub open spec fn stage_status_of(s: Seq<char>) -> TaskRunStageStatus {
    if s == "running"@ {
        TaskRunStageStatus::Running
    } else if s == "success"@ {
        TaskRunStageStatus::Success
    } else if s == "failed"@ {
        TaskRunStageStatus::Failed
    } else if s == "skipped"@ {
        TaskRunStageStatus::Skipped
    } else {
        TaskRunStageStatus::Pending
    }
}

/// Reads the stage status a stored text names; anything else is pending.
pub fn stage_status_from_text(s: &str) -> (r: TaskRunStageStatus)
    ensures
        r == stage_status_of(s@),
{
    if str_eq(s, "running") {
        TaskRunStageStatus::Running
    } else if str_eq(s, "success") {
        TaskRunStageStatus::Success
    } else if str_eq(s, "failed") {
        TaskRunStageStatus::Failed
    } else if str_eq(s, "skipped") {
        TaskRunStageStatus::Skipped
    } else {
        TaskRunStageStatus::Pending
    }
}

/// Every stage status survives being stored and read back.
pub proof fn lemma_stage_status_roundtrip(x: TaskRunStageStatus)
    ensures
        stage_status_of(stage_status_text(x)) == x,
{
    reveal_strlit("pending");
    reveal_strlit("running");
    reveal_strlit("success");
    reveal_strlit("failed");
    reveal_strlit("skipped");
    assert("pending"@[0] != "running"@[0]);
    assert("pending"@[0] != "success"@[0]);
    assert("pending"@.len() != "failed"@.len());
    assert("pending"@[0] != "skipped"@[0]);
    assert("running"@[0] != "success"@[0]);
    assert("running"@.len() != "failed"@.len());
    assert("running"@[0] != "skipped"@[0]);
    assert("success"@.len() != "failed"@.len());
    assert("success"@[1] != "skipped"@[1]);
    assert("failed"@.len() != "skipped"@.len());
}

/// Status of a notable item of a run.
#[derive(Debug, Clone, Copy, PartialEq, Eq, Structural)]
pub enum TaskRunItemStatus {
    Failed,
    Missing,
    DecryptFailed,
    Skipped,
}

/// The stored text of a item status.
pub open spec fn item_status_text(x: TaskRunItemStatus) -> Seq<char> {
    match x {
        TaskRunItemStatus::Failed => "failed"@,
        TaskRunItemStatus::Missing => "missing"@,
        TaskRunItemStatus::DecryptFailed => "decrypt_failed"@,
        TaskRunItemStatus::Skipped => "skipped"@,
    }
}

impl TaskRunItemStatus {
    /// The stored text.
    pub fn as_str(self) -> (r: &'static str)
        ensures
            r@ == item_status_text(self),
    {
        match self {
            TaskRunItemStatus::Failed => "failed",
            TaskRunItemStatus::Missing => "missing",
            TaskRunItemStatus::DecryptFailed => "decrypt_failed",
            TaskRunItemStatus::Skipped => "skipped",
        }
    }
}

/// The item status a stored text names; anything else is a failure.
pub open spec fn item_status_of(s: Seq<char>) -> TaskRunItemStatus {
    if s == "missing"@ {
        TaskRunItemStatus::Missing
    } else if s == "decrypt_failed"@ {
        TaskRunItemStatus::DecryptFailed
    } else if s == "skipped"@ {
        TaskRunItemStatus::Skipped
    } else {
        TaskRunItemStatus::Failed
    }
}

/// Reads the item status a stored text names; anything else is a failure.
pub fn item_status_from_text(s: &str) -> (r: TaskRunItemStatus)
    ensures
        r == item_status_of(s@),
{
    if str_eq(s, "missing") {
        TaskRunItemStatus::Missing
    } else if str_eq(s, "decrypt_failed") {
        TaskRunItemStatus::DecryptFailed
    } else if str_eq(s, "skipped") {
        TaskRunItemStatus::Skipped
    } else {
        TaskRunItemStatus::Failed
    }
}

/// Every item status survives being stored and read back.
pub proof fn lemma_item_status_roundtrip(x: TaskRunItemStatus)
    ensures
        item_status_of(item_status_text(x)) == x,
{
    reveal_strlit("failed");
    reveal_strlit("missing");
    reveal_strlit("decrypt_failed");
    reveal_strlit("skipped");
    assert("failed"@.len() != "missing"@.len());
    assert("failed"@.len() != "decrypt_failed"@.len());
    assert("failed"@.len() != "skipped"@.len());
    assert("missing"@.len() != "decrypt_failed"@.len());
    assert("missing"@[0] != "skipped"@[0]);
    assert("decrypt_failed"@.len() != "skipped"@.len());
}

} // verus!

verus! {

/// One recorded run as listed.
#[derive(Debug, Clone)]
pub struct TaskRunRow {
    pub run_id: String,
    pub kind: String,
    pub trigger_source: String,
    pub status: String,
    pub started_at: String,
    pub finished_at: Option<String>,
    pub duration_ms: Option<i64>,
    pub webdav_configured: bool,
    pub summary_json: Option<String>,
    pub error_message: Option<String>,
    pub runner_kind: String,
    pub runner_pid: Option<i64>,
    pub cancel_requested: bool,
    pub heartbeat_at: Option<String>,
}

/// One stage of a recorded run.
#[derive(Debug, Clone)]
pub struct TaskRunStageRow {
    pub stage_id: String,
    pub run_id: String,
    pub stage: String,
    pub status: String,
    pub started_at: Option<String>,
    pub finished_at: Option<String>,
    pub duration_ms: Option<i64>,
    pub stats_json: Option<String>,
    pub message: Option<String>,
}

/// One notable item of a recorded run.
#[derive(Debug, Clone)]
pub struct TaskRunItemRow {
    pub item_id: String,
    pub run_id: String,
    pub stage: String,
    pub record_id: Option<String>,
    pub object_id: Option<String>,
    pub task_id: Option<String>,
    pub name: String,
    pub status: String,
    pub error_code: Option<String>,
    pub error_message: Option<String>,
    pub size: Option<i64>,
    pub updated_at: String,
}

/// A notable item to record.
#[derive(Debug, Clone)]
pub struct NewTaskRunItem<'a> {
    pub stage: &'a str,
    pub record_id: Option<&'a str>,
    pub object_id: Option<&'a str>,
    pub task_id: Option<&'a str>,
    pub name: &'a str,
    pub status: &'a str,
    pub error_code: Option<&'a str>,
    pub error_message: Option<&'a str>,
    pub size: Option<i64>,
}

/// A run is stale at startup when it still claims to run but its heartbeat
/// is missing or older than the cutoff (timestamps compare as text).
pub open spec fn run_stale_spec(status: Seq<char>, heartbeat: Option<Seq<char>>, cutoff: Seq<char>) -> bool {
    status == run_status_text(TaskRunStatus::Running)
        && match heartbeat {
            None => true,
            Some(h) => text_lt(h, cutoff),
        }
}

/// Whether a run left behind by a crash must be marked failed.
pub fn run_is_stale(status: &str, heartbeat: Option<&str>, cutoff: &str) -> (r: bool)
    ensures
        r == run_stale_spec(status@, crate::text::opt_str(heartbeat), cutoff@),
{
    if !str_eq(status, TaskRunStatus::Running.as_str()) {
        return false;
    }
    match heartbeat {
        None => true,
        Some(h) => crate::ordering::text_less(h, cutoff),
    }
}

/// A run with a fresh heartbeat is never taken for a crashed one, and a
/// finished run never is.
pub proof fn lemma_fresh_run_not_stale(status: Seq<char>, heartbeat: Seq<char>, cutoff: Seq<char>)
    requires
        !text_lt(heartbeat, cutoff),
    ensures
        !run_stale_spec(status, Some(heartbeat), cutoff),
        !run_stale_spec(run_status_text(TaskRunStatus::Success), None, cutoff),
{
    lemma_run_status_roundtrip(TaskRunStatus::Success);
    lemma_run_status_roundtrip(TaskRunStatus::Running);
}

/// History retention: at least one run is kept, and the age limit is at
/// least one day.
pub fn retention_limits(max_keep: usize, max_days: i64) -> (r: (usize, i64))
    ensures
        r.0 == if max_keep < 1 { 1 } else { max_keep as int },
        r.1 == if max_days < 1 { 1 } else { max_days as int },
{
    (if max_keep < 1 { 1 } else { max_keep }, if max_days < 1 { 1 } else { max_days })
}

} // verus!
