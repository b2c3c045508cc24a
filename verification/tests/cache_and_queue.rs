use chatvault::archive::{archive_summary, outcome_item_status, outcome_status_text, ArchiveOutcome, ArchiveReport, ArchiveRun};
use chatvault::cache::{entry_timestamp, open_copy_is_stale, plan_reclaim, sort_by_timestamp, CacheEntry, CachePolicy, MIB};
use chatvault::upload::{
    list_limit, retry_delay_secs, select_upload_source, status_filter_selects, PendingUpload, UploadTask,
};
use chatvault::error::ChatVaultError;

fn policy(copy: Option<&str>, days: Option<&str>, max: Option<&str>) -> CachePolicy {
    CachePolicy::from_settings(copy, days, max).unwrap()
}

#[test]
fn threshold_boundary_and_zero() {
    let p = policy(Some("1"), None, None);
    for size in [MIB - 1, MIB, MIB + 1] {
        assert_eq!(p.copies(size), size < MIB);
    }
    let zero = policy(Some("0"), None, None);
    assert!(!zero.copies(0));
    assert!(!zero.copies(1));
}

#[test]
fn settings_persist_and_reject_invalid_numbers() {
    assert_eq!(policy(Some("25"), None, None).copy_threshold_mib, 25);
    assert!(CachePolicy::from_settings(None, None, Some("-1")).is_err());
    let defaults = policy(None, None, None);
    assert_eq!(
        (defaults.copy_threshold_mib, defaults.cache_retention_days, defaults.cache_max_mib),
        (100, 7, 1024)
    );
    assert!(CachePolicy::from_settings(Some("4294967296"), None, None).is_err());
    assert_eq!(policy(Some("+4294967295"), None, None).copy_threshold_mib, 4294967295);
    match CachePolicy::from_settings(None, Some("x"), None) {
        Err(ChatVaultError::Database(m)) => assert!(m.contains("cache_retention_days")),
        _ => panic!("invalid setting must be reported"),
    }
}

fn entry(ts: u64, id: &str, size: u64) -> CacheEntry {
    CacheEntry { timestamp: ts, object_id: id.to_string(), size }
}

#[test]
fn quota_evicts_oldest_and_expiry_evicts_remaining() {
    let p = policy(None, None, Some("1"));
    let now = 10_000_000u64;
    let day = 86_400u64;
    let plan = plan_reclaim(vec![entry(now, "newer", 700_000), entry(now - day, "older", 700_000)], now, &p);
    assert_eq!(plan.entries[0].object_id, "older");
    assert_eq!(plan.evict, vec![true, false]);
    assert_eq!(plan.released, 700_000);
    let plan = plan_reclaim(vec![entry(now, "newer", 700_000)], now, &p);
    assert_eq!(plan.released, 0);
    let plan = plan_reclaim(vec![entry(now - 8 * day, "newer", 700_000)], now, &p);
    assert_eq!(plan.released, 700_000);
}

#[test]
fn zero_retention_reclaims_everything() {
    let p = policy(None, Some("0"), None);
    let plan = plan_reclaim(vec![entry(5, "a", 6), entry(5, "b", 4)], 5, &p);
    assert_eq!(plan.evict, vec![true, true]);
    assert_eq!(plan.released, 10);
}

#[test]
fn age_reference_and_open_copies() {
    assert_eq!(entry_timestamp(Some(-3), 9), 0);
    assert_eq!(entry_timestamp(Some(42), 9), 42);
    assert_eq!(entry_timestamp(None, 9), 9);
    assert!(open_copy_is_stale(200_000, 100_000));
    assert!(!open_copy_is_stale(100_000, 50_000));
    assert!(!open_copy_is_stale(100, 200));
}

#[test]
fn retry_backoff() {
    assert_eq!(retry_delay_secs(0), 0);
    assert_eq!(retry_delay_secs(-4), 0);
    assert_eq!(retry_delay_secs(1), 30);
    assert_eq!(retry_delay_secs(2), 60);
    assert_eq!(retry_delay_secs(7), 1920);
    assert_eq!(retry_delay_secs(8), 3600);
    assert_eq!(retry_delay_secs(100), 3600);
}

#[test]
fn retries_and_pause_use_persistent_queue() {
    let mut t = UploadTask::new_queued();
    assert!(t.is_runnable());
    assert!(t.is_due(0));
    t.record_outcome("retryable_failed", Some("net"));
    assert_eq!(t.retry_count, 1);
    assert_eq!(t.error_message.as_deref(), Some("net"));
    assert!(t.is_runnable());
    assert!(!t.is_due(29_999));
    assert!(t.is_due(30_000));
    t.pause();
    assert!(!t.is_runnable());
    assert!(!t.is_due(i64::MAX));
    t.requeue();
    assert!(t.is_due(0));
    assert_eq!(t.error_message, None);
    t.record_outcome("backed_up", None);
    assert_eq!(t.retry_count, 1);
    assert_eq!(t.error_message, None);
    assert!(!t.is_runnable());
    t.record_outcome("missing", None);
    assert_eq!(t.error_message.as_deref(), Some(""));
    assert!(t.deletable());
    assert!(t.reset_for_new_vault());
    assert_eq!((t.status.as_str(), t.retry_count), ("queued", 0));
    t.pause();
    assert!(!t.reset_for_new_vault());
    assert_eq!(t.status, "paused");
}

#[test]
fn listing_filters() {
    assert!(status_filter_selects("backed_up", None));
    assert!(status_filter_selects("backed_up", Some("")));
    assert!(status_filter_selects("paused", Some("pending")));
    assert!(!status_filter_selects("backed_up", Some("pending")));
    assert!(status_filter_selects("missing", Some("missing")));
    assert!(!status_filter_selects("missing", Some("queued")));
    assert_eq!(list_limit(10), 10);
    assert_eq!(list_limit(900), 500);
}

#[test]
fn decrypted_upload_never_falls_back_to_ciphertext_source() {
    let r = select_upload_source("task-upload-cipher", Some("decrypted"), None, "C:/x.dat".into());
    assert!(matches!(r, Err(ChatVaultError::FileNotFound { .. })));
    let r = select_upload_source("t", Some("decrypted"), Some("copy".into()), "orig".into());
    assert_eq!(r.unwrap(), "copy");
    let r = select_upload_source("t", Some("original"), None, "orig".into());
    assert_eq!(r.unwrap(), "orig");
    let r = select_upload_source("t", None, Some("copy".into()), "orig".into());
    assert_eq!(r.unwrap(), "copy");
}

fn pending(id: &str) -> PendingUpload {
    PendingUpload { task_id: id.into(), hash: "h".into(), record_id: "r".into(), original_name: "n".into(), size: 1 }
}

#[test]
fn archive_round_counts_and_limits() {
    let mut run = ArchiveRun::new(2);
    let batch = run.fresh_tasks(vec![pending("a"), pending("b"), pending("c")]);
    assert_eq!(batch.len(), 3);
    run.mark_attempted("a");
    assert_eq!(run.next_progress(3), (1, 3));
    run.record(ArchiveOutcome::Published);
    run.mark_attempted("b");
    run.record(ArchiveOutcome::Failed);
    assert!(run.limit_reached());
    assert_eq!(run.report, ArchiveReport { uploaded: 1, verified: 1, failed: 1, processed: 2 });
    let again = run.fresh_tasks(vec![pending("b"), pending("c")]);
    assert_eq!(again.len(), 1);
    assert_eq!(again[0].task_id, "c");
    assert_eq!(outcome_status_text(ArchiveOutcome::AlreadyPresent), "backed_up");
    assert_eq!(outcome_status_text(ArchiveOutcome::Missing), "missing");
    assert_eq!(archive_summary(&run.report), "上传 1 · 校验 1 · 失败 1");
    assert_eq!(ArchiveReport::default(), ArchiveReport { uploaded: 0, verified: 0, failed: 0, processed: 0 });
}

#[test]
fn copies_of_equal_age_keep_their_order() {
    let e = |t: u64, id: &str| CacheEntry { timestamp: t, object_id: id.to_string(), size: 1 };
    let sorted = sort_by_timestamp(vec![e(5, "x"), e(1, "a"), e(5, "y"), e(3, "b"), e(5, "z")]);
    let ids: Vec<&str> = sorted.iter().map(|c| c.object_id.as_str()).collect();
    assert_eq!(ids, vec!["a", "b", "x", "y", "z"]);
}

#[test]
fn only_missing_and_failed_items_are_logged() {
    assert_eq!(outcome_item_status(ArchiveOutcome::Missing), Some("missing"));
    assert_eq!(outcome_item_status(ArchiveOutcome::Failed), Some("failed"));
    assert_eq!(outcome_item_status(ArchiveOutcome::AlreadyPresent), None);
}

#[test]
fn first_invalid_setting_is_named() {
    match CachePolicy::from_settings(Some("big"), Some("x"), None) {
        Err(ChatVaultError::Database(m)) => assert_eq!(m, "无效缓存配置：copy_threshold_mib"),
        _ => panic!("invalid setting must be reported"),
    }
    match CachePolicy::from_settings(None, None, Some("-1")) {
        Err(ChatVaultError::Database(m)) => assert_eq!(m, "无效缓存配置：cache_max_mib"),
        _ => panic!("invalid setting must be reported"),
    }
}
