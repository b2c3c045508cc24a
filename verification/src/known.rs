//! Already indexed local files: how a stored path is written, when a file on
//! disk still matches its index entry, and which entry of a path is current.
use vstd::prelude::*;
use crate::scan::DiscoveredFile;
use crate::mapping::opt_text;
use crate::error::{ChatVaultError, msg};
use crate::text::{blank, has_prefix, is_blank, opt_str, push_char, starts_with_str, strip_prefix_str};
use crate::timeutil::SystemTime;

verus! {

/// Snapshot of one indexed local file, used to skip unchanged files.
#[derive(Debug, Clone)]
pub struct KnownLocalFile {
    pub original_path: String,
    pub size: i64,
    pub mtime_ms: i64,
    pub cache_path: Option<String>,
}

/// `\\?\UNC\`.
pub open spec fn unc_verbatim() -> Seq<char> {
    seq!['\\', '\\', '?', '\\', 'U', 'N', 'C', '\\']
}

/// `\\?\`.
pub open spec fn verbatim() -> Seq<char> {
    seq!['\\', '\\', '?', '\\']
}

/// How a canonical path is stored: a verbatim UNC path `\\?\UNC\host\...`
/// becomes `\\host\...`, a verbatim path `\\?\C:\...` becomes `C:\...`, any
/// other path is kept.
pub open spec fn stored_path_spec(p: Seq<char>) -> Seq<char> {
    if has_prefix(p, unc_verbatim()) {
        seq!['\\', '\\'] + p.subrange(unc_verbatim().len() as int, p.len() as int)
    } else if has_prefix(p, verbatim()) {
        p.subrange(verbatim().len() as int, p.len() as int)
    } else {
        p
    }
}

fn unc_str() -> (s: &'static str)
    ensures
        s@ == unc_verbatim(),
{
    proof { reveal_strlit("\\\\?\\UNC\\"); }
    "\\\\?\\UNC\\"
}

fn verbatim_str() -> (s: &'static str)
    ensures
        s@ == verbatim(),
{
    proof { reveal_strlit("\\\\?\\"); }
    "\\\\?\\"
}

/// Writes a canonical path the way the index stores it.
pub fn stored_path(canonical: &str) -> (r: String)
    ensures
        r@ == stored_path_spec(canonical@),
{
    match strip_prefix_str(canonical, unc_str()) {
        Some(rest) => {
            let mut out = String::new();
            push_char(&mut out, '\\');
            push_char(&mut out, '\\');
            out.append(rest);
            proof { assert(out@ =~= seq!['\\', '\\'] + rest@); }
            out
        }
        None => match strip_prefix_str(canonical, verbatim_str()) {
            Some(rest) => String::from_str(rest),
            None => String::from_str(canonical),
        },
    }
}

/// A file on disk still matches its index entry: same modification time in
/// milliseconds, same size, and its managed copy (if it has one) still exists.
pub open spec fn unchanged_spec(known: KnownLocalFile, disk_size: i64, disk_mtime_ms: i64, cache_exists: bool) -> bool {
    &&& disk_mtime_ms == known.mtime_ms
    &&& disk_size == known.size
    &&& (known.cache_path is Some ==> cache_exists)
}

/// Whether a file on disk still matches its index entry; `cache_exists` says
/// whether the entry's managed copy is on disk (ignored when it has none).
pub fn file_unchanged(known: &KnownLocalFile, disk_size: i64, disk_mtime_ms: i64, cache_exists: bool) -> (r: bool)
    ensures
        r == unchanged_spec(*known, disk_size, disk_mtime_ms, cache_exists),
{
    if disk_mtime_ms != known.mtime_ms || disk_size != known.size {
        return false;
    }
    match &known.cache_path {
        Some(_) => cache_exists,
        None => true,
    }
}

/// Whether an indexed file must be ingested again: exactly when it no longer
/// matches its index entry.
pub fn file_changed(known: &KnownLocalFile, disk_size: i64, disk_mtime_ms: i64, cache_exists: bool) -> (r: bool)
    ensures
        r == !unchanged_spec(*known, disk_size, disk_mtime_ms, cache_exists),
{
    !file_unchanged(known, disk_size, disk_mtime_ms, cache_exists)
}

/// A file is changed exactly when its time or size differs from its index
/// entry or its managed copy is gone; an untouched file whose copy is in
/// place is unchanged.
pub proof fn lemma_changed_iff_not_current(known: KnownLocalFile, size: i64, mtime_ms: i64, cache_exists: bool)
    ensures
        !unchanged_spec(known, size, mtime_ms, cache_exists) <==> (mtime_ms != known.mtime_ms
            || size != known.size || (known.cache_path is Some && !cache_exists)),
        unchanged_spec(known, known.size, known.mtime_ms, true),
{
}

impl KnownLocalFile {
    /// Turns a changed indexed file back into a candidate for ingestion, from
    /// its file name and its current size and modification time on disk;
    /// `None` when any of those could not be read.
    pub fn to_discovered(
        &self,
        source_type: &str,
        account_id: Option<&str>,
        conversation_hint: Option<String>,
        file_name: Option<String>,
        disk_size: Option<u64>,
        modified: Option<SystemTime>,
    ) -> (r: Option<DiscoveredFile>)
        ensures
            (file_name is Some && disk_size is Some && modified is Some) <==> r is Some,
            r matches Some(d) ==> {
                &&& d.source_type@ == source_type@
                &&& opt_text(d.source_account_id) == opt_str(account_id)
                &&& d.absolute_path@ == self.original_path@
                &&& d.file_name@ == file_name->0@
                &&& d.file_size == disk_size->0
                &&& d.modified_time == modified->0
                &&& opt_text(d.source_conversation_id) == opt_text(conversation_hint)
            },
    {
        match (file_name, disk_size, modified) {
            (Some(name), Some(size), Some(t)) => Some(DiscoveredFile {
                source_type: String::from_str(source_type),
                source_account_id: match account_id { Some(a) => Some(String::from_str(a)), None => None },
                absolute_path: self.original_path.clone(),
                file_name: name,
                file_size: size,
                modified_time: t,
                source_conversation_id: conversation_hint,
            }),
            _ => None,
        }
    }
}

/// A path separator, `/` or `\\`.
pub open spec fn is_sep(c: char) -> bool {
    c == '/' || c == '\\'
}

/// `p` is the directory `d` or lies inside it, path component by component.
pub open spec fn under_dir(p: Seq<char>, d: Seq<char>) -> bool {
    &&& d.len() > 0
    &&& has_prefix(p, d)
    &&& (p.len() == d.len() || is_sep(p[d.len() as int]) || is_sep(d.last()))
}

/// The original lies under one of the configured collect roots, or none is configured.
pub open spec fn original_allowed(f: KnownLocalFile, roots: Seq<String>) -> bool {
    roots.len() == 0 || exists|j: int| 0 <= j < roots.len() && under_dir(f.original_path@, #[trigger] roots[j]@)
}

/// The managed copy, when one is recorded, lies in the managed directory.
pub open spec fn copy_allowed(f: KnownLocalFile, staging_dir: Seq<char>) -> bool {
    match f.cache_path {
        Some(c) => !blank(c@) ==> under_dir(c@, staging_dir),
        None => true,
    }
}

/// Deleting an object's local files is allowed when its content is archived
/// and published, every original lies under a configured collect root (when
/// any is configured), and every recorded managed copy lies in the managed
/// directory.
pub open spec fn delete_allowed_spec(archived: bool, roots: Seq<String>, staging_dir: Seq<char>, files: Seq<KnownLocalFile>) -> bool {
    &&& archived
    &&& forall|i: int| 0 <= i < files.len() ==> original_allowed(#[trigger] files[i], roots)
    &&& forall|i: int| 0 <= i < files.len() ==> copy_allowed(#[trigger] files[i], staging_dir)
}

/// Refusal for content not yet archived and published.
pub open spec fn not_archived_text() -> Seq<char> {
    "原文件尚未完成远端归档，不能删除"@
}

/// Refusal for an original outside the collect roots.
pub open spec fn outside_roots_text() -> Seq<char> {
    "原文件不在已配置采集目录内"@
}

/// Refusal for a managed copy outside the managed directory.
pub open spec fn copy_escapes_text() -> Seq<char> {
    "缓存路径不在受控目录内"@
}

/// The refusal text of the first file, from index `i` on, whose original lies
/// outside the collect roots or whose managed copy lies outside the managed
/// directory, checking the original of a file before its copy; none when every
/// file passes.
pub open spec fn file_refusal_from(roots: Seq<String>, staging_dir: Seq<char>, files: Seq<KnownLocalFile>, i: int) -> Option<Seq<char>>
    decreases files.len() - i,
{
    if i < 0 || i >= files.len() {
        None
    } else if !original_allowed(files[i], roots) {
        Some(outside_roots_text())
    } else if !copy_allowed(files[i], staging_dir) {
        Some(copy_escapes_text())
    } else {
        file_refusal_from(roots, staging_dir, files, i + 1)
    }
}

/// Which refusal a deletion gets: the not-archived text when the content is
/// not archived and published, else that of the first file that fails.
pub open spec fn delete_refusal(archived: bool, roots: Seq<String>, staging_dir: Seq<char>, files: Seq<KnownLocalFile>) -> Option<Seq<char>> {
    if !archived { Some(not_archived_text()) } else { file_refusal_from(roots, staging_dir, files, 0) }
}

fn under_dir_exec(p: &str, d: &str) -> (r: bool)
    ensures
        r == under_dir(p@, d@),
{
    let m = d.unicode_len();
    if m == 0 || !starts_with_str(p, d) {
        return false;
    }
    let n = p.unicode_len();
    if n == m {
        return true;
    }
    let c = p.get_char(m);
    let last = d.get_char(m - 1);
    c == '/' || c == '\\' || last == '/' || last == '\\'
}

fn original_allowed_exec(f: &KnownLocalFile, roots: &Vec<String>) -> (r: bool)
    ensures
        r == original_allowed(*f, roots@),
{
    if roots.len() == 0 {
        return true;
    }
    let mut j: usize = 0;
    while j < roots.len()
        invariant
            j <= roots@.len(),
            forall|k: int| 0 <= k < j ==> !under_dir(f.original_path@, #[trigger] roots@[k]@),
        decreases roots@.len() - j,
    {
        if under_dir_exec(f.original_path.as_str(), roots[j].as_str()) {
            return true;
        }
        j = j + 1;
    }
    false
}

/// Checks that an object's local files may be deleted: refused while its
/// content is not archived and published (`archived`), for an original outside
/// every configured collect root (none configured allows any), and for a
/// recorded managed copy outside the managed directory `staging_dir`.
pub fn local_delete_allowed(archived: bool, roots: &Vec<String>, staging_dir: &str, files: &Vec<KnownLocalFile>) -> (r: Result<(), ChatVaultError>)
    ensures
        r is Ok <==> delete_allowed_spec(archived, roots@, staging_dir@, files@),
        match delete_refusal(archived, roots@, staging_dir@, files@) {
            None => r is Ok,
            Some(t) => r matches Err(ChatVaultError::Internal(m)) && m@ == t,
        },
{
    proof {
        reveal_strlit("原文件尚未完成远端归档，不能删除");
        reveal_strlit("原文件不在已配置采集目录内");
        reveal_strlit("缓存路径不在受控目录内");
    }
    if !archived {
        return Err(ChatVaultError::Internal(msg("原文件尚未完成远端归档，不能删除")));
    }
    let mut i: usize = 0;
    while i < files.len()
        invariant
            archived,
            not_archived_text().len() != outside_roots_text().len(),
            not_archived_text().len() != copy_escapes_text().len(),
            outside_roots_text().len() != copy_escapes_text().len(),
            i <= files@.len(),
            forall|k: int| 0 <= k < i ==> original_allowed(#[trigger] files@[k], roots@),
            forall|k: int| 0 <= k < i ==> copy_allowed(#[trigger] files@[k], staging_dir@),
            file_refusal_from(roots@, staging_dir@, files@, 0) == file_refusal_from(roots@, staging_dir@, files@, i as int),
        decreases files@.len() - i,
    {
        let f = &files[i];
        if !original_allowed_exec(f, roots) {
            return Err(ChatVaultError::Internal(msg("原文件不在已配置采集目录内")));
        }
        match &f.cache_path {
            Some(c) => {
                if !is_blank(c.as_str()) && !under_dir_exec(c.as_str(), staging_dir) {
                    return Err(ChatVaultError::Internal(msg("缓存路径不在受控目录内")));
                }
            }
            None => {}
        }
        i = i + 1;
    }
    Ok(())
}

/// A file the index never ingests: the index database itself, its `-wal`
/// and `-shm` companions, or anything in the managed directory.
pub open spec fn ingest_excluded_spec(path: Seq<char>, index_path: Option<Seq<char>>, staging_dir: Seq<char>) -> bool {
    ||| (index_path matches Some(d) && (path == d || path == d + "-wal"@ || path == d + "-shm"@))
    ||| under_dir(path, staging_dir)
}

fn with_suffix(d: &str, suffix: &str) -> (r: String)
    ensures
        r@ == d@ + suffix@,
{
    let mut s = String::from_str(d);
    s.append(suffix);
    s
}

/// Whether a file is one the index never ingests (its own files, its managed copies).
pub fn ingest_excluded(path: &str, index_path: Option<&str>, staging_dir: &str) -> (r: bool)
    ensures
        r == ingest_excluded_spec(path@, opt_str(index_path), staging_dir@),
{
    let own = match index_path {
        Some(d) => {
            let wal = with_suffix(d, "-wal");
            let shm = with_suffix(d, "-shm");
            crate::text::str_eq(path, d) || crate::text::str_eq(path, wal.as_str()) || crate::text::str_eq(path, shm.as_str())
        }
        None => false,
    };
    own || under_dir_exec(path, staging_dir)
}

} // verus!
