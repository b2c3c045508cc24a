//! What ingestion decides and reports: the outcome of one file, the source
//! identities a record keeps, the object identity and type of its content,
//! the checks on a staged copy, and the remote presence check of a
//! referenced object.
use vstd::prelude::*;
use crate::error::{ChatVaultError, msg};
use crate::format::algo_prefix;
use crate::mapping::opt_text;
use crate::text::{blank, is_blank, lowercase_of, to_lowercase};
use crate::timeutil::SystemTime;

verus! {

/// Outcome of ingesting one discovered file.
#[derive(Debug, Clone, PartialEq, Eq)]
pub enum IngestResult {
    /// Already indexed and unchanged.
    Skipped { path: String },
    /// A source record was written.
    Indexed {
        object_id: String,
        record_id: String,
        /// The content was not in the index before.
        is_new_object: bool,
    },
}

/// Overview counts of the index.
#[derive(Debug, Clone, Copy, Default, PartialEq, Eq)]
pub struct DatabaseStats {
    /// Distinct content objects.
    pub total_objects: usize,
    /// Live source records.
    pub total_records: usize,
    /// Local file mappings.
    pub local_files: usize,
    /// Queued upload tasks.
    pub pending_tasks: usize,
}

/// Result of restoring an index from the remote vault.
#[derive(Debug, Clone, Copy, Default, PartialEq, Eq)]
pub struct RestoreReport {
    pub applied_events: usize,
    pub total_records: usize,
    pub total_objects: usize,
}

/// The restore report from the events applied and the index counts after.
pub fn restore_report(applied_events: usize, stats: &DatabaseStats) -> (r: RestoreReport)
    ensures
        r.applied_events == applied_events,
        r.total_records == stats.total_records,
        r.total_objects == stats.total_objects,
{
    RestoreReport {
        applied_events,
        total_records: stats.total_records,
        total_objects: stats.total_objects,
    }
}

/// The source identities a record keeps: a blank account counts as none,
/// and a conversation is kept only with an account and when not blank.
pub open spec fn record_sources_spec(account: Option<Seq<char>>, conversation: Option<Seq<char>>) -> (Option<Seq<char>>, Option<Seq<char>>) {
    let a = match account {
        Some(x) => if blank(x) { None } else { Some(x) },
        None => None,
    };
    let c = if a is Some {
        match conversation {
            Some(x) => if blank(x) { None } else { Some(x) },
            None => None,
        }
    } else {
        None
    };
    (a, c)
}

/// The account and conversation a new record keeps.
pub fn record_sources(account: Option<String>, conversation: Option<String>) -> (r: (Option<String>, Option<String>))
    ensures
        (opt_text(r.0), opt_text(r.1)) == record_sources_spec(opt_text(account), opt_text(conversation)),
{
    let a = match account {
        Some(x) => if is_blank(x.as_str()) { None } else { Some(x) },
        None => None,
    };
    let c = match &a {
        Some(_) => match conversation {
            Some(x) => if is_blank(x.as_str()) { None } else { Some(x) },
            None => None,
        },
        None => None,
    };
    (a, c)
}

/// A conversation never stands without its account.
pub proof fn lemma_conversation_needs_account(account: Option<Seq<char>>, conversation: Option<Seq<char>>)
    ensures
        record_sources_spec(account, conversation).1 is Some ==> record_sources_spec(account, conversation).0 is Some,
{
}

/// The object identifier of content with hash `hex`.
pub fn object_id_for(hex: &str) -> (r: String)
    ensures
        r@ == algo_prefix() + hex@,
{
    proof { reveal_strlit("blake3:"); }
    let mut s = String::from_str("blake3:");
    s.append(hex);
    s
}

/// The extension an ingested file records: what follows the last dot of its
/// file name (none when the name starts with its only dot or has none),
/// lowercased.
pub open spec fn recorded_extension(file_ext: Option<Seq<char>>) -> Seq<char> {
    match file_ext {
        Some(e) => lowercase_of(e),
        None => lowercase_of(Seq::empty()),
    }
}

/// The recorded extension from the file name's extension, if any.
pub fn record_extension(file_ext: Option<&str>) -> (r: String)
    ensures
        r@ == recorded_extension(crate::text::opt_str(file_ext)),
{
    proof { reveal_strlit(""); }
    match file_ext {
        Some(e) => {
            assert(crate::text::opt_str(file_ext) == Some(e@));
            to_lowercase(e)
        }
        None => {
            assert(""@ =~= Seq::<char>::empty());
            to_lowercase("")
        }
    }
}

/// The media type an ingested file records: `application/<extension>`.
pub fn record_mime(extension: &str) -> (r: String)
    ensures
        r@ == "application/"@ + extension@,
{
    let mut s = String::from_str("application/");
    s.append(extension);
    s
}

/// The next sequence number or clock after the largest one stored (0 when none).
pub fn next_after(max_stored: u64) -> (r: u64)
    requires
        max_stored < u64::MAX,
    ensures
        r == max_stored + 1,
{
    max_stored + 1
}

/// A copy is consistent when the source had the same length before and
/// after copying, as many bytes were copied, and its time did not change.
pub open spec fn copy_stable_spec(before_len: u64, copied: u64, after_len: u64, before: SystemTime, after: SystemTime) -> bool {
    before_len == copied && before_len == after_len && before == after
}

/// Checks that a file did not change while it was copied.
pub fn check_copy_stable(before_len: u64, copied: u64, after_len: u64, before: SystemTime, after: SystemTime) -> (r: Result<(), ChatVaultError>)
    ensures
        r is Ok <==> copy_stable_spec(before_len, copied, after_len, before, after),
        r matches Err(e) ==> e is Scan,
{
    if before_len != copied || before_len != after_len || before.nanos_since_epoch != after.nanos_since_epoch {
        return Err(ChatVaultError::Scan(msg("复制期间文件发生变化，请重新扫描")));
    }
    Ok(())
}

/// Checks that the source still hashes as the copy did.
pub fn check_rehash(copy_hash: &str, source_hash: &str) -> (r: Result<(), ChatVaultError>)
    ensures
        r is Ok <==> copy_hash@ == source_hash@,
        r matches Err(e) ==> e is Scan,
{
    if !crate::text::str_eq(copy_hash, source_hash) {
        return Err(ChatVaultError::Scan(msg("复制期间文件内容发生变化，请重新扫描")));
    }
    Ok(())
}

/// A point-in-time view of a file used to tell whether it is still being written.
#[derive(Debug, Clone, Copy, PartialEq, Eq)]
pub struct FileSnapshot {
    pub size: u64,
    pub modified: SystemTime,
}

/// A file is stable when two snapshots taken apart agree in size and time;
/// when either could not be taken it is not.
pub fn snapshots_stable(first: Option<FileSnapshot>, second: Option<FileSnapshot>) -> (r: bool)
    ensures
        r == (first is Some && second is Some && first->0 == second->0),
{
    match (first, second) {
        (Some(a), Some(b)) => a.size == b.size && a.modified.nanos_since_epoch == b.modified.nanos_since_epoch,
        _ => false,
    }
}

/// What a presence check of a remote object found.
#[derive(Debug, Clone, Copy, PartialEq, Eq)]
pub enum HeadProbe {
    NotFound,
    Exists { content_length: Option<u64> },
}

/// What to do after probing a referenced object.
#[derive(Debug, Clone, Copy, PartialEq, Eq)]
pub enum ProbeDecision {
    /// The object is there with the declared size.
    Confirmed(u64),
    /// The server gave no length: read the object in full to learn its size.
    ReadInFull,
}

/// Decides on a probe of the object at `path` that events declare to have
/// `expected` bytes: a missing object is a remote error, a length other than
/// the declared one a protocol error.
pub fn probe_decision(probe: HeadProbe, expected: u64, path: &str) -> (r: Result<ProbeDecision, ChatVaultError>)
    ensures
        match probe {
            HeadProbe::NotFound => r matches Err(ChatVaultError::WebDav(_)),
            HeadProbe::Exists { content_length: Some(len) } =>
                if len == expected { r == Ok::<ProbeDecision, ChatVaultError>(ProbeDecision::Confirmed(len)) }
                else { r matches Err(ChatVaultError::Internal(_)) },
            HeadProbe::Exists { content_length: None } => r == Ok::<ProbeDecision, ChatVaultError>(ProbeDecision::ReadInFull),
        },
{
    match probe {
        HeadProbe::NotFound => {
            let mut m = String::from_str("远端对象缺失: ");
            m.append(path);
            Err(ChatVaultError::WebDav(m))
        }
        HeadProbe::Exists { content_length: Some(len) } => {
            if len == expected {
                Ok(ProbeDecision::Confirmed(len))
            } else {
                let mut m = String::from_str("远端对象大小 ");
                crate::text::push_decimal(&mut m, len);
                m.append(" 与事件声明 ");
                crate::text::push_decimal(&mut m, expected);
                m.append(" 不一致: ");
                m.append(path);
                Err(ChatVaultError::Internal(m))
            }
        }
        HeadProbe::Exists { content_length: None } => Ok(ProbeDecision::ReadInFull),
    }
}

/// Checks the size a referenced object was found to have against what an
/// event declares.
pub fn check_reference_size(actual: u64, expected: u64) -> (r: Result<(), ChatVaultError>)
    ensures
        r is Ok <==> actual == expected,
        r matches Err(e) ==> e is Internal,
{
    if actual != expected {
        return Err(ChatVaultError::Internal(msg("事件声明的对象大小与远端内容不一致")));
    }
    Ok(())
}

} // verus!
