//! Remote storage layout of a vault: content-addressed object paths, vault
//! configuration, staging uploads, device registrations, journal segments and
//! commit markers.
use vstd::prelude::*;
use vstd::utf8::*;
use vstd::string::StringSliceAdditionalSpecFns;
use crate::text::{has_prefix, trim_start_all, trim_start_matches_str, push_decimal, decimal};

verus! {

broadcast use vstd::string::group_string_axioms, vstd::utf8::group_utf8_lib;

/// The algorithm prefix that object identifiers and segment hashes may carry.
pub open spec fn algo_prefix() -> Seq<char> {
    seq!['b', 'l', 'a', 'k', 'e', '3', ':']
}

/// Root of every remote path.
pub open spec fn root_prefix() -> Seq<char> {
    seq!['C', 'h', 'a', 't', 'V', 'a', 'u', 'l', 't', '/']
}

/// The shard directory names of a hash: the text of its byte ranges 0..2 and
/// 2..4, or `00` where the hash is too short.
pub open spec fn shard(clean: Seq<char>, from: int) -> Seq<char> {
    let bytes = encode_utf8(clean);
    if bytes.len() >= from + 2 {
        decode_utf8(bytes.subrange(from, from + 2))
    } else {
        seq!['0', '0']
    }
}

/// The shard byte offsets lie on character boundaries (slicing there cannot fail).
pub open spec fn shardable(hash: Seq<char>) -> bool {
    let bytes = encode_utf8(trim_start_all(hash, algo_prefix()));
    &&& bytes.len() >= 2 ==> is_char_boundary(bytes, 2)
    &&& bytes.len() >= 4 ==> is_char_boundary(bytes, 4)
}

/// `ChatVault/<vault>/objects/blake3/<p1>/<p2>/<hash>`.
pub open spec fn object_path_spec(vault_id: Seq<char>, hex_hash: Seq<char>) -> Seq<char> {
    let clean = trim_start_all(hex_hash, algo_prefix());
    root_prefix() + vault_id + "/objects/blake3/"@ + shard(clean, 0) + "/"@ + shard(clean, 2)
        + "/"@ + clean
}

/// An object path is the same whether or not the hash carries its `blake3:`
/// prefix (any number of times).
pub proof fn lemma_object_path_ignores_prefix(vault_id: Seq<char>, hex_hash: Seq<char>)
    ensures
        object_path_spec(vault_id, algo_prefix() + hex_hash) == object_path_spec(vault_id, hex_hash),
{
    let s = algo_prefix() + hex_hash;
    assert(s.subrange(0, algo_prefix().len() as int) =~= algo_prefix());
    assert(s.subrange(algo_prefix().len() as int, s.len() as int) =~= hex_hash);
    assert(trim_start_all(s, algo_prefix()) == trim_start_all(hex_hash, algo_prefix()));
}

proof fn lemma_ascii_shard(h: Seq<char>, from: int)
    requires
        is_ascii_chars(h),
        from == 0 || from == 2,
    ensures
        shard(h, from) == if h.len() >= from + 2 { h.subrange(from, from + 2) } else { seq!['0', '0'] },
{
    is_ascii_chars_encode_utf8(h);
    if h.len() >= from + 2 {
        let sub = h.subrange(from, from + 2);
        assert(is_ascii_chars(sub)) by {
            assert forall|i: int| 0 <= i < sub.len() implies '\0' <= #[trigger] sub[i] <= '\u{7f}' by {
                assert(sub[i] == h[from + i]);
            }
        }
        is_ascii_chars_encode_utf8(sub);
        assert forall|i: int| 0 <= i < 2 implies #[trigger] encode_utf8(h).subrange(from, from + 2)[i] == encode_utf8(sub)[i] by {
            assert(encode_utf8(h)[from + i] == h[from + i] as u8);
            assert(sub[i] == h[from + i]);
        }
        assert(encode_utf8(h).subrange(from, from + 2) =~= encode_utf8(sub));
        encode_utf8_decode_utf8(sub);
    }
}

/// The layout of an object path: `ChatVault/<vault>/objects/blake3/` followed
/// by the first two and the next two characters of the hash (`00` for each
/// pair the hash is too short for) and the hash itself, where the hash is
/// taken without any leading `blake3:`; it is the same with or without that
/// prefix. Stated for hashes of ASCII characters, as hexadecimal hashes are.
pub proof fn lemma_object_path_format(vault_id: Seq<char>, hex_hash: Seq<char>)
    requires
        is_ascii_chars(trim_start_all(hex_hash, algo_prefix())),
    ensures
        ({
            let h = trim_start_all(hex_hash, algo_prefix());
            object_path_spec(vault_id, hex_hash) == root_prefix() + vault_id + "/objects/blake3/"@
                + (if h.len() >= 2 { h.subrange(0, 2) } else { seq!['0', '0'] }) + "/"@
                + (if h.len() >= 4 { h.subrange(2, 4) } else { seq!['0', '0'] }) + "/"@ + h
        }),
        object_path_spec(vault_id, algo_prefix() + hex_hash) == object_path_spec(vault_id, hex_hash),
{
    let h = trim_start_all(hex_hash, algo_prefix());
    lemma_ascii_shard(h, 0);
    lemma_ascii_shard(h, 2);
    lemma_object_path_ignores_prefix(vault_id, hex_hash);
}

fn algo_str() -> (s: &'static str)
    ensures
        s@ == algo_prefix(),
{
    proof { reveal_strlit("blake3:"); }
    "blake3:"
}

fn root_string() -> (s: String)
    ensures
        s@ == root_prefix(),
{
    proof { reveal_strlit("ChatVault/"); }
    String::from_str("ChatVault/")
}

/// Text of the byte range `from..from+2` of `clean`, or `00` when it is shorter.
fn shard_of(clean: &str, from: usize) -> (r: String)
    requires
        from == 0 || from == 2,
        encode_utf8(clean@).len() >= 2 ==> is_char_boundary(encode_utf8(clean@), 2),
        encode_utf8(clean@).len() >= 4 ==> is_char_boundary(encode_utf8(clean@), 4),
    ensures
        r@ == shard(clean@, from as int),
{
    proof {
        assert(valid_utf8(encode_utf8(clean@)));
    }
    if clean.is_char_boundary(from + 2) {
        let (head, _) = clean.split_at(from + 2);
        proof {
            assert(head.spec_bytes() == encode_utf8(head@));
            assert(clean.spec_bytes() == encode_utf8(clean@));
            assert(decode_utf8(encode_utf8(head@)) == head@);
        }
        if from == 0 {
            proof {
                assert(head.spec_bytes() =~= encode_utf8(clean@).subrange(0, 2));
                assert(head@ == shard(clean@, 0));
            }
            String::from_str(head)
        } else {
            proof {
                let b = clean.spec_bytes();
                let h = head.spec_bytes();
                assert(h =~= b.subrange(0, 4));
                assert(h[2] == b[2]);
                assert(valid_utf8(b));
                assert(valid_utf8(h));
                is_char_boundary_iff_not_is_continuation_byte(b, 2);
                is_char_boundary_iff_not_is_continuation_byte(h, 2);
                assert(is_char_boundary(h, 2));
            }
            let (_, tail) = head.split_at(2);
            proof {
                assert(tail.spec_bytes() =~= clean.spec_bytes().subrange(2, 4));
                assert(decode_utf8(encode_utf8(tail@)) == tail@);
                assert(tail@ == shard(clean@, 2));
            }
            String::from_str(tail)
        }
    } else {
        proof {
            reveal_strlit("00");
            assert(encode_utf8(clean@).len() < from + 2);
        }
        String::from_str("00")
    }
}

} // verus!

verus! {

/// `ChatVault/<vault>/config/vault.json`.
pub open spec fn config_path_spec(vault_id: Seq<char>) -> Seq<char> {
    root_prefix() + vault_id + "/config/vault.json"@
}

/// `ChatVault/<vault>/staging/<device>/<upload>`.
pub open spec fn staging_path_spec(vault_id: Seq<char>, device_id: Seq<char>, upload_id: Seq<char>) -> Seq<char> {
    root_prefix() + vault_id + "/staging/"@ + device_id + "/"@ + upload_id
}

/// `ChatVault/<vault>/devices/<device>.json`.
pub open spec fn device_path_spec(vault_id: Seq<char>, device_id: Seq<char>) -> Seq<char> {
    root_prefix() + vault_id + "/devices/"@ + device_id + ".json"@
}

/// `ChatVault/<vault>/journal/<device>/<epoch>`.
pub open spec fn journal_dir_spec(vault_id: Seq<char>, device_id: Seq<char>, epoch: nat) -> Seq<char> {
    root_prefix() + vault_id + "/journal/"@ + device_id + "/"@ + decimal(epoch)
}

/// `<journal dir>/<seq>-<hash without blake3: prefixes>.jsonl`.
pub open spec fn journal_segment_path_spec(
    vault_id: Seq<char>,
    device_id: Seq<char>,
    epoch: nat,
    seq: nat,
    segment_hash: Seq<char>,
) -> Seq<char> {
    journal_dir_spec(vault_id, device_id, epoch) + "/"@ + decimal(seq) + "-"@
        + trim_start_all(segment_hash, algo_prefix()) + ".jsonl"@
}

/// `ChatVault/<vault>/commits/<device>/<epoch>`.
pub open spec fn commit_dir_spec(vault_id: Seq<char>, device_id: Seq<char>, epoch: nat) -> Seq<char> {
    root_prefix() + vault_id + "/commits/"@ + device_id + "/"@ + decimal(epoch)
}

/// `ChatVault/<vault>/commits/<device>/<epoch>/<seq>.json`.
pub open spec fn commit_path_spec(vault_id: Seq<char>, device_id: Seq<char>, epoch: nat, seq: nat) -> Seq<char> {
    commit_dir_spec(vault_id, device_id, epoch) + "/"@ + decimal(seq) + ".json"@
}

/// `ChatVault/<vault>/devices`.
pub open spec fn devices_dir_spec(vault_id: Seq<char>) -> Seq<char> {
    root_prefix() + vault_id + "/devices"@
}

/// Relative path of a content object, sharded by the first two byte pairs of
/// its hash (`00` for missing pairs); a `blake3:` prefix is dropped.
pub fn get_object_path(vault_id: &str, hex_hash: &str) -> (r: String)
    requires
        shardable(hex_hash@),
    ensures
        r@ == object_path_spec(vault_id@, hex_hash@),
{
    let clean = trim_start_matches_str(hex_hash, algo_str());
    let p1 = shard_of(clean, 0);
    let p2 = shard_of(clean, 2);
    let mut out = root_string();
    out.append(vault_id);
    out.append("/objects/blake3/");
    out.append(p1.as_str());
    out.append("/");
    out.append(p2.as_str());
    out.append("/");
    out.append(clean);
    out
}

/// Path of the vault configuration file.
pub fn get_config_path(vault_id: &str) -> (r: String)
    ensures
        r@ == config_path_spec(vault_id@),
{
    let mut out = root_string();
    out.append(vault_id);
    out.append("/config/vault.json");
    out
}

/// Temporary path of an upload before it is verified and moved into place.
pub fn get_staging_path(vault_id: &str, device_id: &str, upload_id: &str) -> (r: String)
    ensures
        r@ == staging_path_spec(vault_id@, device_id@, upload_id@),
{
    let mut out = root_string();
    out.append(vault_id);
    out.append("/staging/");
    out.append(device_id);
    out.append("/");
    out.append(upload_id);
    out
}

/// Path of a device registration file.
pub fn get_device_path(vault_id: &str, device_id: &str) -> (r: String)
    ensures
        r@ == device_path_spec(vault_id@, device_id@),
{
    let mut out = root_string();
    out.append(vault_id);
    out.append("/devices/");
    out.append(device_id);
    out.append(".json");
    out
}

/// Journal directory of one device epoch.
pub fn get_journal_dir(vault_id: &str, device_id: &str, epoch: u64) -> (r: String)
    ensures
        r@ == journal_dir_spec(vault_id@, device_id@, epoch as nat),
{
    let mut out = root_string();
    out.append(vault_id);
    out.append("/journal/");
    out.append(device_id);
    out.append("/");
    push_decimal(&mut out, epoch);
    out
}

/// Path of an immutable journal segment.
pub fn get_journal_segment_path(
    vault_id: &str,
    device_id: &str,
    epoch: u64,
    seq: u64,
    segment_hash: &str,
) -> (r: String)
    ensures
        r@ == journal_segment_path_spec(vault_id@, device_id@, epoch as nat, seq as nat, segment_hash@),
{
    let mut out = get_journal_dir(vault_id, device_id, epoch);
    out.append("/");
    push_decimal(&mut out, seq);
    out.append("-");
    out.append(trim_start_matches_str(segment_hash, algo_str()));
    out.append(".jsonl");
    out
}

/// Path of a commit marker.
pub fn get_commit_path(vault_id: &str, device_id: &str, epoch: u64, seq: u64) -> (r: String)
    ensures
        r@ == commit_path_spec(vault_id@, device_id@, epoch as nat, seq as nat),
{
    let mut out = get_commit_dir(vault_id, device_id, epoch);
    out.append("/");
    push_decimal(&mut out, seq);
    out.append(".json");
    out
}

/// Commit directory of one device epoch.
pub fn get_commit_dir(vault_id: &str, device_id: &str, epoch: u64) -> (r: String)
    ensures
        r@ == commit_dir_spec(vault_id@, device_id@, epoch as nat),
{
    let mut out = root_string();
    out.append(vault_id);
    out.append("/commits/");
    out.append(device_id);
    out.append("/");
    push_decimal(&mut out, epoch);
    out
}

/// Directory of device registrations.
pub fn get_devices_dir(vault_id: &str) -> (r: String)
    ensures
        r@ == devices_dir_spec(vault_id@),
{
    let mut out = root_string();
    out.append(vault_id);
    out.append("/devices");
    out
}

} // verus!
