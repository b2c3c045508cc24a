//! BLAKE3 content hashes: object identifiers, and comparing a computed hash
//! with an expected one.
use vstd::prelude::*;
use crate::error::{ChatVaultError, msg};
use crate::format::algo_prefix;
use crate::text::{trim_start_all, trim_start_matches_str};
use crate::validation::valid_hash;

verus! {

/// Lowercase hexadecimal BLAKE3 hash of a byte sequence (the text that
/// `blake3::hash(..).to_hex()` produces).
pub uninterp spec fn blake3_hex_of(data: Seq<u8>) -> Seq<char>;

/// Calls `blake3::hash` and `Hash::to_hex`: the result is the named hash of the
/// input, 64 lowercase hexadecimal digits (`to_hex` writes two digits from the
/// table `0123456789abcdef` for each of the 32 output bytes).
#[verifier::external_body]
pub(crate) fn blake3_hex(data: &[u8]) -> (r: String)
    ensures
        r@ == blake3_hex_of(data@),
        valid_hash(r@),
{
    blake3::hash(data).to_hex().to_string()
}

/// A computed content hash.
#[derive(Debug, PartialEq, Eq)]
pub struct HashResult {
    /// The hash as hexadecimal text.
    pub hex_hash: String,
    /// The object identifier `blake3:<hex>`.
    pub object_id: String,
    /// Number of bytes hashed.
    pub bytes_read: u64,
}

/// The hash result for `hex` over `bytes_read` bytes.
pub fn hash_result(hex: String, bytes_read: u64) -> (r: HashResult)
    ensures
        r.hex_hash@ == hex@,
        r.object_id@ == algo_prefix() + hex@,
        r.bytes_read == bytes_read,
{
    let mut object_id = String::from_str(algo_str());
    object_id.append(hex.as_str());
    HashResult { hex_hash: hex, object_id, bytes_read }
}

fn algo_str() -> (s: &'static str)
    ensures
        s@ == algo_prefix(),
{
    proof { reveal_strlit("blake3:"); }
    "blake3:"
}

/// Hashes an in-memory buffer.
pub fn compute_blake3_bytes(bytes: &[u8]) -> (r: HashResult)
    requires
        bytes@.len() <= u64::MAX,
    ensures
        r.hex_hash@ == blake3_hex_of(bytes@),
        valid_hash(r.hex_hash@),
        r.object_id@ == algo_prefix() + blake3_hex_of(bytes@),
        r.bytes_read == bytes@.len(),
{
    let hex = blake3_hex(bytes);
    hash_result(hex, bytes.len() as u64)
}

#[verifier::external_type_specification]
#[verifier::external_body]
pub struct ExHasher(blake3::Hasher);

/// The bytes fed to a BLAKE3 hasher so far, in order.
pub uninterp spec fn hasher_input(h: blake3::Hasher) -> Seq<u8>;

/// Calls `blake3::Hasher::new`: a hasher that has been fed nothing.
#[verifier::external_body]
fn hasher_new() -> (r: blake3::Hasher)
    ensures
        hasher_input(r) == Seq::<u8>::empty(),
{
    blake3::Hasher::new()
}

/// Calls `blake3::Hasher::update`: the chunk is appended to the input.
#[verifier::external_body]
fn hasher_update(h: &mut blake3::Hasher, chunk: &[u8])
    ensures
        hasher_input(*final(h)) == hasher_input(*old(h)) + chunk@,
{
    h.update(chunk);
}

/// Calls `blake3::Hasher::finalize` and `Hash::to_hex`: the hash of all the
/// input, which the crate documents to equal `blake3::hash` of that input,
/// written as 64 lowercase hexadecimal digits.
#[verifier::external_body]
fn hasher_hex(h: &blake3::Hasher) -> (r: String)
    ensures
        r@ == blake3_hex_of(hasher_input(*h)),
        valid_hash(r@),
{
    h.finalize().to_hex().to_string()
}

/// Incremental BLAKE3 hashing of content read in chunks; it keeps the number
/// of bytes fed so far.
pub struct ContentHasher {
    inner: blake3::Hasher,
    count: u64,
}

impl ContentHasher {
    /// The count matches the bytes fed.
    #[verifier::type_invariant]
    spec fn counted(self) -> bool {
        self.count == hasher_input(self.inner).len()
    }

    /// The bytes fed so far, in order.
    pub closed spec fn fed(&self) -> Seq<u8> {
        hasher_input(self.inner)
    }

    /// A hasher fed nothing yet.
    pub fn new() -> (r: ContentHasher)
        ensures
            r.fed() == Seq::<u8>::empty(),
    {
        ContentHasher { inner: hasher_new(), count: 0 }
    }

    /// How many bytes were fed so far.
    pub fn fed_len(&self) -> (r: u64)
        ensures
            r == self.fed().len(),
    {
        proof { use_type_invariant(self); }
        self.count
    }

    /// Feeds the next chunk of the content.
    pub fn update(&mut self, chunk: &[u8])
        requires
            old(self).fed().len() + chunk@.len() <= u64::MAX,
        ensures
            final(self).fed() == old(self).fed() + chunk@,
    {
        let mut taken = ContentHasher::new();
        std::mem::swap(&mut taken, self);
        proof { use_type_invariant(&taken); }
        let ContentHasher { mut inner, count } = taken;
        hasher_update(&mut inner, chunk);
        *self = ContentHasher { inner, count: count + chunk.len() as u64 };
    }

    /// The hash of everything fed, with its object identity and length.
    pub fn finish(self) -> (r: HashResult)
        ensures
            r.hex_hash@ == blake3_hex_of(self.fed()),
            valid_hash(r.hex_hash@),
            r.object_id@ == algo_prefix() + r.hex_hash@,
            r.bytes_read == self.fed().len(),
    {
        proof { use_type_invariant(&self); }
        let hex = hasher_hex(&self.inner);
        hash_result(hex, self.count)
    }
}

/// ASCII letters folded to lower case; other characters unchanged.
pub open spec fn ascii_lower(c: char) -> char {
    if 'A' <= c && c <= 'Z' { ((c as u32) + 32) as char } else { c }
}

/// Equal up to ASCII letter case.
pub open spec fn eq_ignore_ascii_case(a: Seq<char>, b: Seq<char>) -> bool {
    a.len() == b.len() && forall|i: int| 0 <= i < a.len() ==> ascii_lower(#[trigger] a[i]) == ascii_lower(b[i])
}

fn lower_char(c: char) -> (r: char)
    ensures
        r == ascii_lower(c),
{
    if 'A' <= c && c <= 'Z' {
        let u = (c as u32) as u8;
        ((u + 32) as char)
    } else {
        c
    }
}

/// Whether two texts are equal up to ASCII letter case.
pub fn str_eq_ignore_ascii_case(a: &str, b: &str) -> (r: bool)
    ensures
        r == eq_ignore_ascii_case(a@, b@),
{
    let n = a.unicode_len();
    if n != b.unicode_len() {
        return false;
    }
    let mut i: usize = 0;
    while i < n
        invariant
            n == a@.len(),
            n == b@.len(),
            i <= n,
            forall|j: int| 0 <= j < i ==> ascii_lower(#[trigger] a@[j]) == ascii_lower(b@[j]),
        decreases n - i,
    {
        if lower_char(a.get_char(i)) != lower_char(b.get_char(i)) {
            return false;
        }
        i = i + 1;
    }
    true
}

/// Compares a computed hash with an expected one that may carry `blake3:`
/// prefixes; letter case is ignored.
pub fn check_expected_hash(actual_hex: String, expected: &str) -> (r: Result<(), ChatVaultError>)
    ensures
        r is Ok <==> eq_ignore_ascii_case(actual_hex@, trim_start_all(expected@, algo_prefix())),
        r matches Err(e) ==> e matches ChatVaultError::HashMismatch { expected: x, actual: y }
            && x@ == trim_start_all(expected@, algo_prefix()) && y@ == actual_hex@,
{
    let clean = trim_start_matches_str(expected, algo_str());
    if str_eq_ignore_ascii_case(actual_hex.as_str(), clean) {
        Ok(())
    } else {
        Err(ChatVaultError::HashMismatch { expected: String::from_str(clean), actual: actual_hex })
    }
}

/// Checks that segment bytes hash to what the commit marker declares.
pub fn verify_segment_bytes(bytes: &[u8], expected_hex: &str) -> (r: Result<(), ChatVaultError>)
    ensures
        r is Ok <==> eq_ignore_ascii_case(blake3_hex_of(bytes@), trim_start_all(expected_hex@, algo_prefix())),
        r matches Err(e) ==> e is HashMismatch,
{
    check_expected_hash(blake3_hex(bytes), expected_hex)
}

} // verus!
