//! Protocol field checks: path-safe identifiers, vault identifiers and full
//! content hashes.
use vstd::prelude::*;
use crate::error::{ChatVaultError, msg};
use crate::text::{has_prefix, strip_prefix_str};

verus! {

/// Fixed prefix of every vault identifier.
pub const VAULT_ID_PREFIX: &'static str = "chatvault-";

/// `chatvault-`.
pub open spec fn vault_prefix() -> Seq<char> {
    seq!['c', 'h', 'a', 't', 'v', 'a', 'u', 'l', 't', '-']
}

fn vault_prefix_str() -> (s: &'static str)
    ensures
        s@ == vault_prefix(),
{
    proof { reveal_strlit("chatvault-"); }
    "chatvault-"
}

/// ASCII letter, digit, hyphen or underscore.
pub open spec fn is_id_char(c: char) -> bool {
    ('a' <= c && c <= 'z') || ('A' <= c && c <= 'Z') || ('0' <= c && c <= '9') || c == '-'
        || c == '_'
}

/// One path segment: 1 to 128 identifier characters.
pub open spec fn valid_id(s: Seq<char>) -> bool {
    &&& 1 <= s.len() <= 128
    &&& forall|i: int| 0 <= i < s.len() ==> is_id_char(#[trigger] s[i])
}

/// `chatvault-` followed by a valid identifier.
pub open spec fn valid_vault_id(s: Seq<char>) -> bool {
    has_prefix(s, vault_prefix()) && valid_id(s.subrange(vault_prefix().len() as int, s.len() as int))
}

/// Lowercase hexadecimal digit.
pub open spec fn is_lower_hex(c: char) -> bool {
    ('0' <= c && c <= '9') || ('a' <= c && c <= 'f')
}

/// A full BLAKE3 hash: exactly 64 lowercase hexadecimal digits.
pub open spec fn valid_hash(s: Seq<char>) -> bool {
    &&& s.len() == 64
    &&& forall|i: int| 0 <= i < s.len() ==> is_lower_hex(#[trigger] s[i])
}

/// The full vault identifier for a configured suffix.
pub fn format_vault_id(suffix: &str) -> (r: String)
    ensures
        r@ == vault_prefix() + suffix@,
{
    let mut out = String::from_str(vault_prefix_str());
    out.append(suffix);
    out
}

/// The configurable suffix of a vault identifier; the input itself when it has no prefix.
pub fn vault_id_suffix(vault_id: &str) -> (r: &str)
    ensures
        r@ == if has_prefix(vault_id@, vault_prefix()) {
            vault_id@.subrange(vault_prefix().len() as int, vault_id@.len() as int)
        } else {
            vault_id@
        },
{
    match strip_prefix_str(vault_id, vault_prefix_str()) {
        Some(rest) => rest,
        None => vault_id,
    }
}

/// Accepts a path-safe identifier segment.
pub fn validate_id(id: &str) -> (r: Result<(), ChatVaultError>)
    ensures
        r is Ok <==> valid_id(id@),
        r matches Err(e) ==> e is Internal,
{
    let n = id.unicode_len();
    if n == 0 || n > 128 {
        return Err(ChatVaultError::Internal(msg("标识只能包含字母、数字、下划线和连字符，长度为 1～128")));
    }
    let mut i: usize = 0;
    while i < n
        invariant
            n == id@.len(),
            i <= n,
            forall|j: int| 0 <= j < i ==> is_id_char(#[trigger] id@[j]),
        decreases n - i,
    {
        let c = id.get_char(i);
        if !(('a' <= c && c <= 'z') || ('A' <= c && c <= 'Z') || ('0' <= c && c <= '9') || c == '-' || c == '_') {
            return Err(ChatVaultError::Internal(msg("标识只能包含字母、数字、下划线和连字符，长度为 1～128")));
        }
        i = i + 1;
    }
    Ok(())
}

/// Accepts `chatvault-` followed by a valid identifier.
pub fn validate_vault_id(id: &str) -> (r: Result<(), ChatVaultError>)
    ensures
        r is Ok <==> valid_vault_id(id@),
        r matches Err(e) ==> e is Internal,
{
    match strip_prefix_str(id, vault_prefix_str()) {
        Some(suffix) => validate_id(suffix),
        None => Err(ChatVaultError::Internal(msg("Vault ID 必须以 chatvault- 开头"))),
    }
}

/// Accepts a full lowercase BLAKE3 hexadecimal hash.
pub fn validate_hash(hash: &str) -> (r: Result<(), ChatVaultError>)
    ensures
        r is Ok <==> valid_hash(hash@),
        r matches Err(e) ==> e is Internal,
{
    let n = hash.unicode_len();
    if n != 64 {
        return Err(ChatVaultError::Internal(msg("BLAKE3 必须为 64 位小写十六进制哈希")));
    }
    let mut i: usize = 0;
    while i < n
        invariant
            n == hash@.len(),
            i <= n,
            forall|j: int| 0 <= j < i ==> is_lower_hex(#[trigger] hash@[j]),
        decreases n - i,
    {
        let c = hash.get_char(i);
        if !(('0' <= c && c <= '9') || ('a' <= c && c <= 'f')) {
            return Err(ChatVaultError::Internal(msg("BLAKE3 必须为 64 位小写十六进制哈希")));
        }
        i = i + 1;
    }
    Ok(())
}

} // verus!
