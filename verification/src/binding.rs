//! The binding of the local index to one remote vault: how a target is
//! written down, when an operation may use a target, what clearing the
//! binding removes, and how existing sync state is checked against a vault.
use vstd::prelude::*;
use crate::error::{ChatVaultError, msg};
use crate::journal::CommitMarker;
use crate::text::{has_prefix, starts_with_str, str_eq, trim_both, trim_str};
use crate::validation::{valid_vault_id, validate_vault_id};

verus! {

#[verifier::external_type_specification]
#[verifier::external_body]
pub struct ExJsonError(serde_json::Error);

/// A hexadecimal digit in lower case.
pub open spec fn hex_digit(n: u32) -> char {
    if n < 10 { crate::text::digit_char(n as nat) }
    else if n == 10 { 'a' } else if n == 11 { 'b' } else if n == 12 { 'c' }
    else if n == 13 { 'd' } else if n == 14 { 'e' } else { 'f' }
}

/// How JSON writes one character inside a string: `"` and `\` behind a
/// backslash, the five common control characters by their letter, other
/// characters below U+0020 as `\u00XX` in lower case, and everything else as it is.
pub open spec fn json_escape_char(c: char) -> Seq<char> {
    if c == '"' { seq!['\\', '"'] }
    else if c == '\\' { seq!['\\', '\\'] }
    else if c == '\u{8}' { seq!['\\', 'b'] }
    else if c == '\t' { seq!['\\', 't'] }
    else if c == '\n' { seq!['\\', 'n'] }
    else if c == '\u{c}' { seq!['\\', 'f'] }
    else if c == '\r' { seq!['\\', 'r'] }
    else if (c as u32) < 0x20 {
        seq!['\\', 'u', '0', '0', hex_digit((c as u32) / 16), hex_digit((c as u32) % 16)]
    } else { seq![c] }
}

/// The escaped contents of a JSON string.
pub open spec fn json_escape(s: Seq<char>) -> Seq<char>
    decreases s.len(),
{
    if s.len() == 0 { Seq::empty() } else { json_escape_char(s[0]) + json_escape(s.drop_first()) }
}

/// The JSON text `serde_json` writes for the pair `(url, vault)`: a compact
/// array of the two strings, `["<url>","<vault>"]`.
pub open spec fn json_pair_text(url: Seq<char>, vault: Seq<char>) -> Seq<char> {
    seq!['[', '"'] + json_escape(url) + seq!['"', ',', '"'] + json_escape(vault) + seq!['"', ']']
}

/// Serializes the pair `(url, vault)` with `serde_json::to_string`. It
/// succeeds: a pair of strings is written as an array of two escaped strings
/// into a `Vec<u8>`, whose writes never fail, and `serde_json` fails only for
/// `Serialize` impls that fail, maps with non-string keys, or a failing
/// writer. Its text is the compact array with each string escaped by
/// `serde_json`'s escape table (`ser.rs`, `ESCAPE` and `write_char_escape`).
#[verifier::external_body]
fn json_pair(url: &str, vault: &str) -> (r: Result<String, serde_json::Error>)
    ensures
        r is Ok,
        r matches Ok(s) ==> s@ == json_pair_text(url@, vault@),
{
    serde_json::to_string(&(url, vault))
}

proof fn lemma_hex_digit_injective(a: u32, b: u32)
    requires
        a < 16,
        b < 16,
        hex_digit(a) == hex_digit(b),
    ensures
        a == b,
{
}

/// Escaped characters form a prefix code: the escape of a character is never
/// empty, never starts with a bare `"`, and which character was escaped can be
/// read back from the text it starts.
proof fn lemma_escape_char_code(p: char, q: char, r1: Seq<char>, r2: Seq<char>)
    requires
        json_escape_char(p) + r1 == json_escape_char(q) + r2,
    ensures
        p == q,
        r1 == r2,
{
    let ep = json_escape_char(p);
    let eq = json_escape_char(q);
    let s = ep + r1;
    assert(s[0] == ep[0]);
    assert(s[0] == eq[0]);
    if ep.len() >= 2 {
        assert(s[1] == ep[1]);
        assert(s[1] == eq[1]);
    }
    if ep.len() == 6 && eq.len() == 6 {
        assert(s[4] == ep[4] && s[4] == eq[4]);
        assert(s[5] == ep[5] && s[5] == eq[5]);
        let (x, y) = (p as u32, q as u32);
        lemma_hex_digit_injective(x / 16, y / 16);
        lemma_hex_digit_injective(x % 16, y % 16);
        assert(x == (x / 16) * 16 + x % 16);
        assert(y == (y / 16) * 16 + y % 16);
    }
    assert(ep == eq);
    assert(r1 =~= s.subrange(ep.len() as int, s.len() as int));
    assert(r2 =~= s.subrange(eq.len() as int, s.len() as int));
}

/// An escaped string is read back up to the first bare `"` after it: if two
/// escaped strings followed by texts that start with `"` are equal, so are the
/// strings and the texts.
proof fn lemma_escape_until_quote(a: Seq<char>, c: Seq<char>, x: Seq<char>, y: Seq<char>)
    requires
        x.len() > 0 && x[0] == '"',
        y.len() > 0 && y[0] == '"',
        json_escape(a) + x == json_escape(c) + y,
    ensures
        a == c,
        x == y,
    decreases a.len() + c.len(),
{
    if a.len() == 0 && c.len() == 0 {
        assert(json_escape(a) + x =~= x);
        assert(json_escape(c) + y =~= y);
    } else if a.len() == 0 {
        let e = json_escape_char(c[0]);
        assert(json_escape(a) + x =~= x);
        assert((json_escape(c) + y)[0] == e[0]);
    } else if c.len() == 0 {
        let e = json_escape_char(a[0]);
        assert(json_escape(c) + y =~= y);
        assert((json_escape(a) + x)[0] == e[0]);
    } else {
        let ra = json_escape(a.drop_first()) + x;
        let rc = json_escape(c.drop_first()) + y;
        assert(json_escape(a) + x =~= json_escape_char(a[0]) + ra);
        assert(json_escape(c) + y =~= json_escape_char(c[0]) + rc);
        lemma_escape_char_code(a[0], c[0], ra, rc);
        lemma_escape_until_quote(a.drop_first(), c.drop_first(), x, y);
        assert(a =~= seq![a[0]] + a.drop_first());
        assert(c =~= seq![c[0]] + c.drop_first());
    }
}

/// Different targets are written down differently: the JSON pair of two
/// strings determines both strings.
pub proof fn lemma_json_pair_injective(u1: Seq<char>, v1: Seq<char>, u2: Seq<char>, v2: Seq<char>)
    requires
        json_pair_text(u1, v1) == json_pair_text(u2, v2),
    ensures
        u1 == u2,
        v1 == v2,
{
    let t1 = json_pair_text(u1, v1);
    let x1 = seq!['"', ',', '"'] + json_escape(v1) + seq!['"', ']'];
    let x2 = seq!['"', ',', '"'] + json_escape(v2) + seq!['"', ']'];
    assert(t1 =~= seq!['[', '"'] + (json_escape(u1) + x1));
    assert(json_pair_text(u2, v2) =~= seq!['[', '"'] + (json_escape(u2) + x2));
    assert(json_escape(u1) + x1 =~= t1.subrange(2, t1.len() as int));
    assert(json_escape(u2) + x2 =~= t1.subrange(2, t1.len() as int));
    lemma_escape_until_quote(u1, u2, x1, x2);
    let y1 = seq!['"', ']'];
    assert(x1.subrange(3, x1.len() as int) =~= json_escape(v1) + y1);
    assert(x2.subrange(3, x2.len() as int) =~= json_escape(v2) + y1);
    lemma_escape_until_quote(v1, v2, y1, y1);
}

/// `s` without trailing `/` characters.
pub open spec fn trim_end_slashes(s: Seq<char>) -> Seq<char>
    decreases s.len(),
{
    if s.len() > 0 && s.last() == '/' { trim_end_slashes(s.drop_last()) } else { s }
}

/// The form of a storage URL that a binding records: trimmed, without
/// trailing slashes.
pub open spec fn normalized_url(url: Seq<char>) -> Seq<char> {
    trim_end_slashes(trim_both(url))
}

/// Normalizes a storage URL for a binding.
pub fn normalize_url(url: &str) -> (r: &str)
    ensures
        r@ == normalized_url(url@),
{
    let t = trim_str(url);
    let n = t.unicode_len();
    let mut end: usize = n;
    proof { assert(t@.subrange(0, n as int) =~= t@); }
    while end > 0 && t.get_char(end - 1) == '/'
        invariant
            n == t@.len(),
            end <= n,
            trim_end_slashes(t@) == trim_end_slashes(t@.subrange(0, end as int)),
        decreases end,
    {
        proof { assert(t@.subrange(0, end as int).drop_last() =~= t@.subrange(0, end - 1)); }
        end = end - 1;
    }
    t.substring_char(0, end)
}

/// The stored binding text of a target: the JSON pair of its normalized URL
/// and its vault identifier.
pub fn binding_text(url: &str, vault: &str) -> (r: Result<String, ChatVaultError>)
    ensures
        r is Ok,
        r matches Ok(s) ==> s@ == json_pair_text(normalized_url(url@), vault@),
{
    match json_pair(normalize_url(url), vault) {
        Ok(s) => Ok(s),
        Err(_) => Err(ChatVaultError::Internal(msg("远端绑定无法序列化"))),
    }
}

/// Whether an operation on a target may go ahead given the stored binding
/// text and the target's own binding text: with no binding, any target;
/// otherwise only the bound one.
pub fn binding_allows(bound: Option<&str>, target: &str) -> (r: Result<(), ChatVaultError>)
    ensures
        r is Ok <==> (bound matches Some(b) ==> b@ == target@),
        r matches Err(e) ==> e is Internal,
{
    match bound {
        Some(b) => {
            if str_eq(b, target) {
                Ok(())
            } else {
                Err(ChatVaultError::Internal(msg(
                    "当前已绑定其他资料库；若要换用新的 Vault ID，请先在设置里清空旧 Vault",
                )))
            }
        }
        None => Ok(()),
    }
}

/// Checks an operation's target against the stored binding, without changing
/// it: the vault identifier must be valid, and when a binding exists the
/// target must be the bound one.
pub fn check_remote_binding(bound: Option<&str>, url: &str, vault: &str) -> (r: Result<(), ChatVaultError>)
    ensures
        r is Ok <==> valid_vault_id(vault@)
            && (bound matches Some(b) ==> b@ == json_pair_text(normalized_url(url@), vault@)),
        r matches Err(e) ==> e is Internal,
{
    validate_vault_id(vault)?;
    match bound {
        Some(_) => {
            let target = binding_text(url, vault)?;
            binding_allows(bound, target.as_str())
        }
        None => Ok(()),
    }
}

/// A bound index accepts exactly its own target: a binding written for one
/// URL and vault admits another URL and vault precisely when the URLs are the
/// same once normalized and the vaults are the same.
pub proof fn lemma_binding_accepts_only_bound(u1: Seq<char>, v1: Seq<char>, u2: Seq<char>, v2: Seq<char>)
    ensures
        (json_pair_text(normalized_url(u1), v1) == json_pair_text(normalized_url(u2), v2))
            <==> (normalized_url(u1) == normalized_url(u2) && v1 == v2),
{
    if json_pair_text(normalized_url(u1), v1) == json_pair_text(normalized_url(u2), v2) {
        lemma_json_pair_injective(normalized_url(u1), v1, normalized_url(u2), v2);
    }
}

/// Summary of clearing the binding to a vault.
#[derive(Debug, Clone, PartialEq, Eq)]
pub struct VaultResetReport {
    /// A binding existed.
    pub had_binding: bool,
    pub cleared_cursors: usize,
    pub cleared_journal_events: usize,
    pub cleared_applied_events: usize,
    pub cleared_devices: usize,
    /// Upload tasks queued again for the new vault.
    pub requeued_uploads: usize,
    /// Sync settings removed (binding, pending segments, epochs).
    pub cleared_settings: usize,
}

/// A setting that belongs to the binding: the binding itself, a pending
/// segment, or a device epoch.
pub open spec fn binding_setting(key: Seq<char>) -> bool {
    key == "remote_binding"@ || has_prefix(key, "pending_segment_"@) || has_prefix(key, "epoch_"@)
}

/// Whether clearing the binding removes the setting `key`.
pub fn is_binding_setting(key: &str) -> (r: bool)
    ensures
        r == binding_setting(key@),
{
    str_eq(key, "remote_binding") || starts_with_str(key, "pending_segment_") || starts_with_str(key, "epoch_")
}

/// Clearing the binding forgets every device epoch and pending segment the
/// publisher recorded, so a new vault starts its journal afresh.
pub proof fn lemma_reset_clears_publisher_state(device_id: Seq<char>, epoch_text: Seq<char>)
    ensures
        binding_setting("epoch_"@ + device_id),
        binding_setting("pending_segment_"@ + device_id + "_"@ + epoch_text),
{
    let a = "epoch_"@ + device_id;
    assert(a.subrange(0, "epoch_"@.len() as int) =~= "epoch_"@);
    let b = "pending_segment_"@ + device_id + "_"@ + epoch_text;
    assert(b.subrange(0, "pending_segment_"@.len() as int) =~= "pending_segment_"@);
}

/// The commit a sync cursor points at belongs to it: same device, epoch and
/// last sequence number.
pub open spec fn cursor_marker_matches_spec(c: CommitMarker, device_id: Seq<char>, epoch: u64, seq: u64) -> bool {
    c.device_id@ == device_id && c.epoch == epoch && c.last_seq == seq
}

/// Checks the commit found at a cursor's position in the vault against the
/// cursor; a mismatch means the index belongs to another vault.
pub fn check_cursor_marker(c: &CommitMarker, device_id: &str, epoch: u64, seq: u64) -> (r: Result<(), ChatVaultError>)
    ensures
        r is Ok <==> cursor_marker_matches_spec(*c, device_id@, epoch, seq),
        r matches Err(e) ==> e is WebDav,
{
    if !str_eq(c.device_id.as_str(), device_id) || c.epoch != epoch || c.last_seq != seq {
        return Err(ChatVaultError::WebDav(msg("旧索引游标与目标资料库不一致，请连接原 Vault")));
    }
    Ok(())
}

} // verus!
