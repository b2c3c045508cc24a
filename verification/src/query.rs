//! Searching the index: the filter conditions and their parameters, the
//! page size, and where a content object can be read from.
use vstd::prelude::*;
use crate::category::{category_condition, category_condition_spec};
use crate::error::ChatVaultError;
use crate::text::{lowercase_of, push_char, to_lowercase, trim_both, trim_start_all, trim_start_matches_str, trim_str};

verus! {

/// Search filter; times are RFC 3339 texts compared with the stored file times.
#[derive(Debug, Clone)]
pub struct SearchFilter {
    pub keyword: Option<String>,
    pub extension: Option<String>,
    pub category: Option<String>,
    pub source_type: Option<String>,
    pub source_account_id: Option<String>,
    pub source_conversation_id: Option<String>,
    pub start_time: Option<String>,
    pub end_time: Option<String>,
    pub limit: usize,
    pub offset: usize,
}

/// One record found by a search.
#[derive(Debug, Clone)]
pub struct SearchResultItem {
    pub record_id: String,
    pub object_id: String,
    pub original_name: String,
    pub extension: String,
    pub size: u64,
    pub source_type: String,
    pub source_account_id: Option<String>,
    pub source_account_name: Option<String>,
    pub source_conversation_id: Option<String>,
    pub source_conversation_name: Option<String>,
    pub file_time: String,
    pub original_path: Option<String>,
    pub upload_status: Option<String>,
    pub discovered_at: String,
}

/// Where a content object can be read from.
#[derive(Debug, Clone, Copy, PartialEq, Eq, Structural)]
pub enum ObjectLocation {
    /// Readable here, not confirmed archived.
    Local,
    /// Not readable here; the content is archived remotely.
    Remote,
    /// Readable here and archived.
    Both,
    /// Only stale local mappings and no remote evidence.
    Missing,
}

impl ObjectLocation {
    /// The short name shown to users.
    pub fn as_str(self) -> (r: &'static str)
        ensures
            r@ == match self {
                ObjectLocation::Local => "local"@,
                ObjectLocation::Remote => "remote"@,
                ObjectLocation::Both => "both"@,
                ObjectLocation::Missing => "missing"@,
            },
    {
        match self {
            ObjectLocation::Local => "local",
            ObjectLocation::Remote => "remote",
            ObjectLocation::Both => "both",
            ObjectLocation::Missing => "missing",
        }
    }
}

/// One content object in a collapsed listing.
#[derive(Debug, Clone)]
pub struct ObjectSearchItem {
    pub object_id: String,
    pub hash: String,
    pub original_name: String,
    pub extension: String,
    pub size: u64,
    pub file_time: String,
    pub discovered_at: String,
    pub source_count: usize,
    pub location: ObjectLocation,
    /// A local path that can be opened; a decrypted source only through its copy.
    pub open_path: Option<String>,
}

/// One source record of a content object.
#[derive(Debug, Clone)]
pub struct ObjectSourceItem {
    pub record_id: String,
    pub original_name: String,
    pub original_path: Option<String>,
    pub source_type: String,
    pub source_account_id: Option<String>,
    pub source_account_name: Option<String>,
    pub source_conversation_id: Option<String>,
    pub source_conversation_name: Option<String>,
    pub file_time: String,
    pub discovered_at: String,
    pub device_id: String,
    /// Registered name of the device, when it has published one.
    pub device_name: Option<String>,
    pub has_local_path: bool,
}

/// Page size of a search: 50 when none is asked for, at most 500.
pub fn effective_limit(limit: usize) -> (r: usize)
    ensures
        r == if limit == 0 { 50 } else if limit < 500 { limit } else { 500 },
{
    if limit == 0 { 50 } else if limit < 500 { limit } else { 500 }
}

/// A content object's location from whether it is readable here and whether
/// the remote holds it.
pub open spec fn location_spec(has_local: bool, has_remote: bool) -> ObjectLocation {
    if has_local && has_remote {
        ObjectLocation::Both
    } else if has_local {
        ObjectLocation::Local
    } else if has_remote {
        ObjectLocation::Remote
    } else {
        ObjectLocation::Missing
    }
}

/// The remote holds an object when an upload of it is archived, or when
/// another device has a live record of it and this one has no local mapping.
pub open spec fn remote_evidence(backed_up: bool, foreign_record: bool, has_local_row: bool) -> bool {
    backed_up || (foreign_record && !has_local_row)
}

/// One local mapping of an object: its original path and copy, and whether
/// each is a readable regular file now.
pub struct LocalMapping {
    pub original_path: String,
    pub cache_path: Option<String>,
    pub original_readable: bool,
    pub cache_readable: bool,
}

/// The path to open: the first mapping whose original is readable; failing
/// that, the first whose copy is readable (a mapping counts for its copy only
/// when its original is not readable).
pub open spec fn open_path_spec(ms: Seq<LocalMapping>) -> Option<Seq<char>> {
    if exists|i: int| 0 <= i < ms.len() && ms[i].original_readable {
        let i = choose|i: int| 0 <= i < ms.len() && ms[i].original_readable
            && forall|j: int| 0 <= j < i ==> !ms[j].original_readable;
        Some(ms[i].original_path@)
    } else if exists|i: int| 0 <= i < ms.len() && ms[i].cache_readable && ms[i].cache_path is Some {
        let i = choose|i: int| 0 <= i < ms.len() && ms[i].cache_readable && ms[i].cache_path is Some
            && forall|j: int| 0 <= j < i ==> !(ms[j].cache_readable && ms[j].cache_path is Some);
        Some(ms[i].cache_path->0@)
    } else {
        None
    }
}

/// Some mapping of the object is readable here.
pub open spec fn readable_spec(ms: Seq<LocalMapping>) -> bool {
    exists|i: int| 0 <= i < ms.len() && (ms[i].original_readable || ms[i].cache_readable)
}

/// Where an object can be read and what to open, from its local mappings
/// and the remote evidence.
pub fn locate_object(
    mappings: &Vec<LocalMapping>,
    backed_up: bool,
    foreign_record: bool,
) -> (r: (Option<String>, ObjectLocation))
    ensures
        match r.0 {
            Some(p) => open_path_spec(mappings@) == Some(p@),
            None => open_path_spec(mappings@) is None,
        },
        r.1 == location_spec(readable_spec(mappings@), remote_evidence(backed_up, foreign_record, mappings@.len() > 0)),
{
    let n = mappings.len();
    let mut readable = false;
    let mut first_original: Option<usize> = None;
    let mut first_cache: Option<usize> = None;
    let mut i: usize = 0;
    while i < n
        invariant
            n == mappings@.len(),
            i <= n,
            readable == exists|j: int| 0 <= j < i && (mappings@[j].original_readable || mappings@[j].cache_readable),
            match first_original {
                Some(k) => k < i && mappings@[k as int].original_readable
                    && forall|j: int| 0 <= j < k ==> !mappings@[j].original_readable,
                None => forall|j: int| 0 <= j < i ==> !mappings@[j].original_readable,
            },
            match first_cache {
                Some(k) => k < i && mappings@[k as int].cache_readable && mappings@[k as int].cache_path is Some
                    && forall|j: int| 0 <= j < k ==> !(mappings@[j].cache_readable && mappings@[j].cache_path is Some),
                None => forall|j: int| 0 <= j < i ==> !(mappings@[j].cache_readable && mappings@[j].cache_path is Some),
            },
        decreases n - i,
    {
        let m = &mappings[i];
        if m.original_readable || m.cache_readable {
            readable = true;
        }
        if m.original_readable && first_original.is_none() {
            first_original = Some(i);
        }
        if m.cache_readable && m.cache_path.is_some() && first_cache.is_none() {
            first_cache = Some(i);
        }
        i = i + 1;
    }
    let open = match first_original {
        Some(k) => Some(mappings[k].original_path.clone()),
        None => match first_cache {
            Some(k) => match &mappings[k].cache_path {
                Some(c) => Some(c.clone()),
                None => None,
            },
            None => None,
        },
    };
    proof {
        let ms = mappings@;
        match first_original {
            Some(k) => {
                let c = choose|i: int| 0 <= i < ms.len() && ms[i].original_readable
                    && forall|j: int| 0 <= j < i ==> !ms[j].original_readable;
                if c < k { assert(!ms[c].original_readable); }
                if k < c { assert(!ms[k as int].original_readable); }
            }
            None => {
                match first_cache {
                    Some(k) => {
                        let c = choose|i: int| 0 <= i < ms.len() && ms[i].cache_readable && ms[i].cache_path is Some
                            && forall|j: int| 0 <= j < i ==> !(ms[j].cache_readable && ms[j].cache_path is Some);
                        if c < k { assert(!(ms[c].cache_readable && ms[c].cache_path is Some)); }
                        if k < c { assert(!(ms[k as int].cache_readable && ms[k as int].cache_path is Some)); }
                    }
                    None => {}
                }
            }
        }
    }
    let has_remote = backed_up || (foreign_record && n == 0);
    let location = if readable && has_remote {
        ObjectLocation::Both
    } else if readable {
        ObjectLocation::Local
    } else if has_remote {
        ObjectLocation::Remote
    } else {
        ObjectLocation::Missing
    };
    (open, location)
}

/// A readable object is never reported as only remote or missing, and an
/// object with no readable mapping is never reported as local.
pub proof fn lemma_location_consistent(has_local: bool, has_remote: bool)
    ensures
        has_local <==> (location_spec(has_local, has_remote) == ObjectLocation::Local
            || location_spec(has_local, has_remote) == ObjectLocation::Both),
        has_remote <==> (location_spec(has_local, has_remote) == ObjectLocation::Remote
            || location_spec(has_local, has_remote) == ObjectLocation::Both),
{
}

} // verus!

verus! {

/// A keyword as an FTS phrase: in double quotes, inner quotes doubled.
pub open spec fn fts_escape(s: Seq<char>) -> Seq<char>
    decreases s.len(),
{
    if s.len() == 0 {
        Seq::empty()
    } else {
        fts_escape(s.drop_last()) + if s.last() == '"' { seq!['"', '"'] } else { seq![s.last()] }
    }
}

/// A keyword as a LIKE literal: `\`, `%` and `_` escaped with `\`.
pub open spec fn like_escape(s: Seq<char>) -> Seq<char>
    decreases s.len(),
{
    if s.len() == 0 {
        Seq::empty()
    } else {
        like_escape(s.drop_last()) + if s.last() == '\\' || s.last() == '%' || s.last() == '_' {
            seq!['\\', s.last()]
        } else {
            seq![s.last()]
        }
    }
}

fn escape_text(s: &str, fts: bool) -> (r: String)
    ensures
        r@ == if fts { fts_escape(s@) } else { like_escape(s@) },
{
    broadcast use vstd::string::axiom_spec_iter;
    let mut out = String::new();
    let mut i: usize = 0;
    let n = s.unicode_len();
    proof { assert(s@.subrange(0, 0) =~= Seq::<char>::empty()); }
    for c in it: s.chars()
        invariant
            n == s@.len(),
            i == it.index(),
            it.seq() == s@,
            out@ == if fts { fts_escape(s@.subrange(0, i as int)) } else { like_escape(s@.subrange(0, i as int)) },
    {
        proof {
            assert(s@.subrange(0, i + 1).drop_last() =~= s@.subrange(0, i as int));
            assert(s@.subrange(0, i + 1).last() == c);
        }
        let ghost before = out@;
        if fts {
            if c == '"' {
                push_char(&mut out, '"');
                push_char(&mut out, '"');
                proof { assert(out@ =~= before + seq!['"', '"']); }
            } else {
                push_char(&mut out, c);
                proof { assert(out@ =~= before + seq![c]); }
            }
        } else {
            if c == '\\' || c == '%' || c == '_' {
                push_char(&mut out, '\\');
                push_char(&mut out, c);
                proof { assert(out@ =~= before + seq!['\\', c]); }
            } else {
                push_char(&mut out, c);
                proof { assert(out@ =~= before + seq![c]); }
            }
        }
        i = i + 1;
    }
    proof { assert(s@.subrange(0, n as int) =~= s@); }
    out
}

/// The full-text condition on record names.
pub open spec fn fts_condition() -> Seq<char> {
    "r.record_id IN (SELECT record_id FROM file_search_fts WHERE file_search_fts MATCH ?)"@
}

/// The substring condition on record names.
pub open spec fn like_condition() -> Seq<char> {
    "r.original_name LIKE ? ESCAPE '\\'"@
}

/// The condition and parameter of a keyword: none when it is blank; a
/// quoted full-text phrase when its trimmed text has three or more
/// characters; a `%...%` substring pattern otherwise.
pub open spec fn keyword_part(kw: Seq<char>) -> Option<(Seq<char>, Seq<char>)> {
    let t = trim_both(kw);
    if t.len() == 0 {
        None
    } else if t.len() >= 3 {
        Some((fts_condition(), seq!['"'] + fts_escape(t) + seq!['"']))
    } else {
        Some((like_condition(), seq!['%'] + like_escape(t) + seq!['%']))
    }
}

/// The condition and parameter of a keyword filter.
pub fn keyword_condition(kw: &str) -> (r: Option<(String, String)>)
    ensures
        match keyword_part(kw@) {
            Some((c, p)) => r matches Some((rc, rp)) && rc@ == c && rp@ == p,
            None => r is None,
        },
{
    let t = trim_str(kw);
    let n = t.unicode_len();
    if n == 0 {
        return None;
    }
    if n >= 3 {
        let mut p = String::new();
        push_char(&mut p, '"');
        let body = escape_text(t, true);
        p.append(body.as_str());
        push_char(&mut p, '"');
        Some((String::from_str("r.record_id IN (SELECT record_id FROM file_search_fts WHERE file_search_fts MATCH ?)"), p))
    } else {
        let mut p = String::new();
        push_char(&mut p, '%');
        let body = escape_text(t, false);
        p.append(body.as_str());
        push_char(&mut p, '%');
        Some((String::from_str("r.original_name LIKE ? ESCAPE '\\'"), p))
    }
}

/// An extension filter value: leading dots removed, then lowercased.
pub open spec fn clean_extension_spec(ext: Seq<char>) -> Seq<char> {
    lowercase_of(trim_start_all(ext, seq!['.']))
}

/// Normalizes an extension filter value.
pub fn clean_extension(ext: &str) -> (r: String)
    ensures
        r@ == clean_extension_spec(ext@),
{
    proof { reveal_strlit("."); }
    assert("."@ =~= seq!['.']);
    to_lowercase(trim_start_matches_str(ext, "."))
}

/// The condition that leaves out tombstoned records.
pub open spec fn live_condition() -> Seq<char> {
    "NOT EXISTS(SELECT 1 FROM record_tombstones d WHERE d.record_id=r.record_id)"@
}

/// The record conditions of a filter, in order, with the parameters of
/// their placeholders, in order; `None` for an unknown category.
pub open spec fn record_conditions_spec(f: SearchFilter) -> Option<(Seq<Seq<char>>, Seq<Seq<char>>)> {
    let c0: Seq<Seq<char>> = seq![live_condition()];
    let p0: Seq<Seq<char>> = Seq::empty();
    let (c1, p1) = match f.keyword {
        Some(k) => match keyword_part(k@) {
            Some((c, p)) => (c0.push(c), p0.push(p)),
            None => (c0, p0),
        },
        None => (c0, p0),
    };
    let cat = match f.category {
        Some(c) => category_condition_spec(c@),
        None => Some(None),
    };
    match cat {
        None => None,
        Some(cc) => {
            let c2 = match cc { Some(x) => c1.push(x), None => c1 };
            let (c3, p3) = match f.extension {
                Some(e) => (c2.push("o.extension = ?"@), p1.push(clean_extension_spec(e@))),
                None => (c2, p1),
            };
            let (c4, p4) = match f.source_type {
                Some(s) => (c3.push("r.source_type = ?"@), p3.push(s@)),
                None => (c3, p3),
            };
            let (c5, p5) = match f.source_account_id {
                Some(s) => (c4.push("r.source_account_id = ?"@), p4.push(s@)),
                None => (c4, p4),
            };
            let (c6, p6) = match f.source_conversation_id {
                Some(s) => (c5.push("r.source_conversation_id = ?"@), p5.push(s@)),
                None => (c5, p5),
            };
            let (c7, p7) = match f.start_time {
                Some(s) => (c6.push("r.file_time >= ?"@), p6.push(s@)),
                None => (c6, p6),
            };
            let (c8, p8) = match f.end_time {
                Some(s) => (c7.push("r.file_time <= ?"@), p7.push(s@)),
                None => (c7, p7),
            };
            Some((c8, p8))
        },
    }
}

/// Conditions joined with ` AND `.
pub open spec fn join_and(cs: Seq<Seq<char>>) -> Seq<char>
    decreases cs.len(),
{
    if cs.len() == 0 {
        Seq::empty()
    } else if cs.len() == 1 {
        cs[0]
    } else {
        join_and(cs.drop_last()) + " AND "@ + cs.last()
    }
}

/// The texts of a list of strings.
pub open spec fn param_texts(v: Seq<String>) -> Seq<Seq<char>> {
    v.map_values(|s: String| s@)
}

fn push_condition(conds: &mut Vec<String>, c: &str)
    ensures
        param_texts(final(conds)@) == param_texts(old(conds)@).push(c@),
{
    let ghost before = conds@;
    conds.push(String::from_str(c));
    proof { assert(param_texts(conds@) =~= param_texts(before).push(c@)); }
}

fn push_param(params: &mut Vec<String>, p: String)
    ensures
        param_texts(final(params)@) == param_texts(old(params)@).push(p@),
{
    let ghost before = params@;
    let ghost pv = p@;
    params.push(p);
    proof { assert(param_texts(params@) =~= param_texts(before).push(pv)); }
}

fn join_conditions(conds: &Vec<String>) -> (r: String)
    ensures
        r@ == join_and(param_texts(conds@)),
{
    let mut out = String::new();
    let n = conds.len();
    let mut i: usize = 0;
    let ghost all = param_texts(conds@);
    proof { assert(all.subrange(0, 0) =~= Seq::<Seq<char>>::empty()); }
    while i < n
        invariant
            n == conds@.len(),
            all == param_texts(conds@),
            i <= n,
            out@ == join_and(all.subrange(0, i as int)),
        decreases n - i,
    {
        let ghost pre = all.subrange(0, i as int);
        let ghost cur = all.subrange(0, i + 1);
        proof {
            assert(cur.drop_last() =~= pre);
            assert(cur.last() == conds@[i as int]@);
        }
        if i > 0 {
            out.append(" AND ");
        }
        out.append(conds[i].as_str());
        proof {
            if i == 0 {
                assert(cur =~= seq![all[0]]);
            }
        }
        i = i + 1;
    }
    proof { assert(all.subrange(0, n as int) =~= all); }
    out
}

/// Builds the `WHERE` clause of a record search and the parameters of its
/// placeholders, in order. An unknown category is an error.
pub fn build_record_conditions(f: &SearchFilter) -> (r: Result<(String, Vec<String>), ChatVaultError>)
    ensures
        match record_conditions_spec(*f) {
            Some((cs, ps)) => r matches Ok((w, pv)) && w@ == "WHERE "@ + join_and(cs) && param_texts(pv@) == ps,
            None => r matches Err(e) && e is Internal,
        },
{
    let mut conds: Vec<String> = Vec::new();
    let mut params: Vec<String> = Vec::new();
    push_condition(&mut conds, "NOT EXISTS(SELECT 1 FROM record_tombstones d WHERE d.record_id=r.record_id)");
    proof {
        assert(param_texts(params@) =~= Seq::<Seq<char>>::empty());
    }
    match &f.keyword {
        Some(k) => match keyword_condition(k.as_str()) {
            Some((c, p)) => {
                push_condition(&mut conds, c.as_str());
                push_param(&mut params, p);
            }
            None => {}
        },
        None => {}
    }
    match &f.category {
        Some(c) => match category_condition(c.as_str()) {
            Ok(Some(cond)) => push_condition(&mut conds, cond.as_str()),
            Ok(None) => {}
            Err(e) => { return Err(e); }
        },
        None => {}
    }
    match &f.extension {
        Some(e) => {
            push_condition(&mut conds, "o.extension = ?");
            push_param(&mut params, clean_extension(e.as_str()));
        }
        None => {}
    }
    match &f.source_type {
        Some(s) => {
            push_condition(&mut conds, "r.source_type = ?");
            push_param(&mut params, s.clone());
        }
        None => {}
    }
    match &f.source_account_id {
        Some(s) => {
            push_condition(&mut conds, "r.source_account_id = ?");
            push_param(&mut params, s.clone());
        }
        None => {}
    }
    match &f.source_conversation_id {
        Some(s) => {
            push_condition(&mut conds, "r.source_conversation_id = ?");
            push_param(&mut params, s.clone());
        }
        None => {}
    }
    match &f.start_time {
        Some(s) => {
            push_condition(&mut conds, "r.file_time >= ?");
            push_param(&mut params, s.clone());
        }
        None => {}
    }
    match &f.end_time {
        Some(s) => {
            push_condition(&mut conds, "r.file_time <= ?");
            push_param(&mut params, s.clone());
        }
        None => {}
    }
    let mut w = String::from_str("WHERE ");
    let joined = join_conditions(&conds);
    w.append(joined.as_str());
    Ok((w, params))
}

/// Every search leaves out deleted records: whatever the filter, its first
/// condition is the tombstone filter.
pub proof fn lemma_conditions_start_with_live_filter(f: SearchFilter)
    ensures
        record_conditions_spec(f) matches Some((cs, _)) ==> cs.len() >= 1 && cs[0] == live_condition(),
{
}


/// A time range bounds the file time from the side it names: a start time
/// adds the condition `r.file_time >= ?` bound to that start, an end time adds
/// `r.file_time <= ?` bound to that end, and these are the last conditions and
/// parameters of the search, start before end. So a search from `s` never
/// returns a record whose file time is earlier than `s`, and a search up to
/// `e` never one whose file time is later than `e`.
pub proof fn lemma_time_range_bounds(f: SearchFilter)
    ensures
        record_conditions_spec(f) matches Some((cs, ps)) ==> {
            let n = cs.len();
            let m = ps.len();
            match (f.start_time, f.end_time) {
                (Some(s), None) => n >= 2 && m >= 1 && cs[n - 1] == "r.file_time >= ?"@ && ps[m - 1] == s@,
                (None, Some(e)) => n >= 2 && m >= 1 && cs[n - 1] == "r.file_time <= ?"@ && ps[m - 1] == e@,
                (Some(s), Some(e)) => n >= 3 && m >= 2
                    && cs[n - 2] == "r.file_time >= ?"@ && ps[m - 2] == s@
                    && cs[n - 1] == "r.file_time <= ?"@ && ps[m - 1] == e@,
                (None, None) => true,
            }
        },
{
}

} // verus!
