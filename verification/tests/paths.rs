use chatvault::format::{
    get_commit_dir, get_commit_path, get_config_path, get_device_path, get_devices_dir,
    get_journal_dir, get_journal_segment_path, get_object_path, get_staging_path,
};
use chatvault::validation::{format_vault_id, validate_hash, validate_id, validate_vault_id, vault_id_suffix};

#[test]
fn test_paths() {
    let vault = "test-vault";
    let hash = "a1b2c3d4e5f6";
    assert_eq!(
        get_object_path(vault, hash),
        "ChatVault/test-vault/objects/blake3/a1/b2/a1b2c3d4e5f6"
    );
    assert_eq!(get_config_path(vault), "ChatVault/test-vault/config/vault.json");
    assert_eq!(
        get_staging_path(vault, "dev1", "task99"),
        "ChatVault/test-vault/staging/dev1/task99"
    );
    assert_eq!(get_device_path(vault, "dev1"), "ChatVault/test-vault/devices/dev1.json");
    assert_eq!(
        get_journal_segment_path(vault, "dev1", 1, 3, "abc"),
        "ChatVault/test-vault/journal/dev1/1/3-abc.jsonl"
    );
    assert_eq!(
        get_commit_path(vault, "dev1", 1, 3),
        "ChatVault/test-vault/commits/dev1/1/3.json"
    );
}

#[test]
fn object_path_strips_algorithm_prefix() {
    assert_eq!(
        get_object_path("v", "blake3:a1b2c3"),
        "ChatVault/v/objects/blake3/a1/b2/a1b2c3"
    );
}

#[test]
fn directory_paths() {
    assert_eq!(get_journal_dir("v", "d", 12), "ChatVault/v/journal/d/12");
    assert_eq!(get_commit_dir("v", "d", 0), "ChatVault/v/commits/d/0");
    assert_eq!(get_devices_dir("v"), "ChatVault/v/devices");
    assert_eq!(
        get_journal_segment_path("v", "d", 2, 18446744073709551615, "blake3:ff"),
        "ChatVault/v/journal/d/2/18446744073709551615-ff.jsonl"
    );
}

#[test]
fn vault_id_requires_prefix() {
    assert!(validate_vault_id("chatvault-home").is_ok());
    assert!(validate_vault_id("chatvault-default").is_ok());
    assert!(validate_vault_id("chatvault-").is_err());
    assert!(validate_vault_id("home").is_err());
    assert!(validate_vault_id("ChatVault-home").is_err());
    assert!(validate_vault_id("chatvault-a/b").is_err());
}

#[test]
fn vault_suffix_helpers() {
    assert_eq!(format_vault_id("home"), "chatvault-home");
    assert_eq!(vault_id_suffix("chatvault-home"), "home");
    assert_eq!(vault_id_suffix("plain"), "plain");
}

#[test]
fn identifiers_and_hashes() {
    assert!(validate_id("dev-1_A").is_ok());
    assert!(validate_id("").is_err());
    assert!(validate_id(&"a".repeat(128)).is_ok());
    assert!(validate_id(&"a".repeat(129)).is_err());
    assert!(validate_id("a.b").is_err());
    assert!(validate_hash(&"0".repeat(64)).is_ok());
    assert!(validate_hash(&"A".repeat(64)).is_err());
    assert!(validate_hash(&"0".repeat(63)).is_err());
}

#[test]
fn commit_paths_read_back_their_sequence() {
    for seq in [0u64, 7, 10, 12345, u64::MAX] {
        let path = get_commit_path("chatvault-a", "dev1", 2, seq);
        assert_eq!(chatvault::journal::seq_from_commit_path(&path), Some(seq));
    }
}

#[test]
fn object_path_ignores_algorithm_prefix() {
    let h = "ab".repeat(32);
    assert_eq!(get_object_path("chatvault-a", &format!("blake3:{h}")), get_object_path("chatvault-a", &h));
    assert_eq!(get_object_path("chatvault-a", &format!("blake3:blake3:{h}")), get_object_path("chatvault-a", &h));
}

#[test]
fn object_path_shards_short_hashes_with_zeros() {
    assert_eq!(get_object_path("v", "a"), "ChatVault/v/objects/blake3/00/00/a");
    assert_eq!(get_object_path("v", "abc"), "ChatVault/v/objects/blake3/ab/00/abc");
    assert_eq!(get_object_path("v", "blake3:abcd"), "ChatVault/v/objects/blake3/ab/cd/abcd");
    assert_eq!(get_object_path("v", ""), "ChatVault/v/objects/blake3/00/00/");
}
