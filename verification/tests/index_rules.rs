use chatvault::candidates::{
    candidate_pending, parse_candidate_status, CandidateSource, ImageCandidateRow, ImageCandidateStatus,
};
use chatvault::known::{file_changed, file_unchanged, ingest_excluded, local_delete_allowed, stored_path, KnownLocalFile};
use chatvault::query::{
    build_record_conditions, clean_extension, effective_limit, keyword_condition, locate_object,
    LocalMapping, ObjectLocation, SearchFilter,
};
use chatvault::records::{
    check_copy_stable, check_reference_size, check_rehash, object_id_for, probe_decision,
    record_extension, record_mime, record_sources, restore_report, snapshots_stable, DatabaseStats,
    FileSnapshot, HeadProbe, ProbeDecision,
};
use chatvault::taskrun::{
    item_status_from_text, kind_from_text, retention_limits, run_is_stale, run_status_from_text,
    stage_name_from_text, stage_status_from_text, TaskRunItemStatus, TaskRunKind, TaskRunStageName,
    TaskRunStageStatus, TaskRunStatus,
};
use chatvault::timeutil::SystemTime;

fn filter() -> SearchFilter {
    SearchFilter {
        keyword: None,
        extension: None,
        category: None,
        source_type: None,
        source_account_id: None,
        source_conversation_id: None,
        start_time: None,
        end_time: None,
        limit: 0,
        offset: 0,
    }
}

#[test]
fn test_chinese_search() {
    let (cond, param) = keyword_condition(" 超级个体 ").unwrap();
    assert!(cond.contains("MATCH"));
    assert_eq!(param, "\"超级个体\"");
    let (cond, param) = keyword_condition("品牌").unwrap();
    assert!(cond.contains("LIKE"));
    assert_eq!(param, "%品牌%");
    assert_eq!(keyword_condition("牌").unwrap().1, "%牌%");
    assert!(keyword_condition("   ").is_none());
}

#[test]
fn keyword_escaping() {
    assert_eq!(keyword_condition("a\"b").unwrap().1, "\"a\"\"b\"");
    assert_eq!(keyword_condition("%_").unwrap().1, "%\\%\\_%");
    assert_eq!(keyword_condition("\\").unwrap().1, "%\\\\%");
}

#[test]
fn record_conditions_in_order() {
    let mut f = filter();
    f.keyword = Some("ab".into());
    f.extension = Some("..PDF".into());
    f.source_type = Some("t".into());
    f.end_time = Some("2024".into());
    let (clause, params) = build_record_conditions(&f).unwrap();
    assert!(clause.starts_with("WHERE NOT EXISTS(SELECT 1 FROM record_tombstones"));
    assert!(clause.ends_with(" AND r.file_time <= ?"));
    assert_eq!(params, vec!["%ab%".to_string(), "pdf".to_string(), "t".to_string(), "2024".to_string()]);
    f.category = Some("bogus".into());
    assert!(build_record_conditions(&f).is_err());
    let (clause, params) = build_record_conditions(&filter()).unwrap();
    assert_eq!(clause, "WHERE NOT EXISTS(SELECT 1 FROM record_tombstones d WHERE d.record_id=r.record_id)");
    assert!(params.is_empty());
    assert_eq!(clean_extension(".JPG"), "jpg");
    assert_eq!(effective_limit(0), 50);
    assert_eq!(effective_limit(20), 20);
    assert_eq!(effective_limit(5000), 500);
}

fn mapping(original: &str, cache: Option<&str>, o: bool, c: bool) -> LocalMapping {
    LocalMapping {
        original_path: original.into(),
        cache_path: cache.map(|s| s.to_string()),
        original_readable: o,
        cache_readable: c,
    }
}

#[test]
fn test_search_objects_collapses_duplicates() {
    let (open, loc) = locate_object(&vec![mapping("a", None, true, false), mapping("b", None, true, false)], false, false);
    assert_eq!(loc, ObjectLocation::Local);
    assert_eq!(open.as_deref(), Some("a"));
}

#[test]
fn test_object_location_remote_from_other_device() {
    let (open, loc) = locate_object(&vec![], false, true);
    assert_eq!(loc, ObjectLocation::Remote);
    assert!(open.is_none());
    assert_eq!(locate_object(&vec![mapping("gone", None, false, false)], false, true).1, ObjectLocation::Missing);
    let (open, loc) = locate_object(&vec![mapping("gone", Some("copy"), false, true)], true, false);
    assert_eq!(loc, ObjectLocation::Both);
    assert_eq!(open.as_deref(), Some("copy"));
    assert_eq!(ObjectLocation::Both.as_str(), "both");
}

#[test]
fn test_path_is_current_and_changed_list() {
    let known = KnownLocalFile { original_path: "/a.txt".into(), size: 5, mtime_ms: 100, cache_path: Some("/c".into()) };
    assert!(file_unchanged(&known, 5, 100, true));
    assert!(!file_unchanged(&known, 11, 120, true));
    assert!(file_changed(&known, 5, 100, false));
    let no_copy = KnownLocalFile { cache_path: None, ..known.clone() };
    assert!(file_unchanged(&no_copy, 5, 100, false));
    let d = known.to_discovered("generic-folder", None, None, Some("a.txt".into()), Some(11), Some(SystemTime { nanos_since_epoch: 7 }));
    assert_eq!(d.unwrap().file_size, 11);
    assert!(known.to_discovered("g", None, None, None, Some(1), None).is_none());
}

#[test]
fn stored_paths() {
    assert_eq!(stored_path("\\\\?\\UNC\\host\\share\\f"), "\\\\host\\share\\f");
    assert_eq!(stored_path("\\\\?\\C:\\x\\f"), "C:\\x\\f");
    assert_eq!(stored_path("/home/f"), "/home/f");
}

#[test]
fn upsert_and_list_candidates() {
    let src = CandidateSource {
        source_size: 100,
        source_mtime_ms: 1_700_000_000_000,
        conv_hash: Some("conv1".into()),
        month: Some("2026-09".into()),
        normalized_stem: Some("a".into()),
        image_group_key: Some("gk1".into()),
    };
    let mut row = ImageCandidateRow::discovered("id1".into(), "root".into(), "wxid_a".into(), "/p/a.dat".into(), src);
    assert!(candidate_pending(&row.status, None, 9_999_999_999_999));
    assert_eq!(row.conv_hash.as_deref(), Some("conv1"));
    row.mark_failed("unsupported_structure");
    assert_eq!(row.status, "failed");
    assert_eq!(row.attempt_count, 1);
    assert!(row.reset_failed());
    assert_eq!(row.status, "discovered");
    assert!(row.error_code.is_none());
}

#[test]
fn upsert_is_idempotent_on_same_path() {
    let first = CandidateSource { source_size: 1, source_mtime_ms: 1, conv_hash: None, month: Some("m".into()), normalized_stem: None, image_group_key: None };
    let mut row = ImageCandidateRow::discovered("a".into(), "root".into(), "acc".into(), "/p/a.dat".into(), first);
    let second = CandidateSource { source_size: 2, source_mtime_ms: 2, conv_hash: Some("c".into()), month: None, normalized_stem: None, image_group_key: None };
    row.refresh(second);
    assert_eq!(row.candidate_id, "a");
    assert_eq!(row.source_size, 2);
    assert_eq!(row.month.as_deref(), Some("m"));
    assert_eq!(row.conv_hash.as_deref(), Some("c"));
}

#[test]
fn reseen_failed_candidate_is_discovered_again() {
    let src = || CandidateSource { source_size: 1, source_mtime_ms: 1, conv_hash: None, month: None, normalized_stem: None, image_group_key: None };
    let mut row = ImageCandidateRow::discovered("a".into(), "root".into(), "acc".into(), "/p/a.dat".into(), src());
    row.mark_failed("unsupported_structure");
    row.refresh(CandidateSource { source_size: 5, ..src() });
    assert_eq!(row.status, "discovered");
    assert!(row.error_code.is_none());
    assert_eq!(row.attempt_count, 1);
    assert_eq!(row.source_size, 5);
    row.mark_preparing();
    row.refresh(src());
    assert_eq!(row.status, "preparing");
}

#[test]
fn candidate_lifecycle() {
    let src = CandidateSource { source_size: 1, source_mtime_ms: 1, conv_hash: None, month: None, normalized_stem: None, image_group_key: None };
    let mut row = ImageCandidateRow::discovered("a".into(), "r".into(), "acc".into(), "/p".into(), src);
    row.mark_preparing();
    assert!(!candidate_pending(&row.status, None, 0));
    row.mark_verified("digest");
    row.mark_ingested("rec-1");
    assert_eq!(row.status, "ingested");
    assert_eq!(row.record_id.as_deref(), Some("rec-1"));
    assert!(!row.reset_failed());
    assert!(!candidate_pending("failed", Some(10), 5));
    assert!(candidate_pending("failed", Some(10), 10));
    for s in [
        ImageCandidateStatus::Discovered,
        ImageCandidateStatus::WaitingStable,
        ImageCandidateStatus::Preparing,
        ImageCandidateStatus::DecryptedPendingVerify,
        ImageCandidateStatus::VerifiedPlaintext,
        ImageCandidateStatus::Ingested,
        ImageCandidateStatus::Archived,
        ImageCandidateStatus::Failed,
    ] {
        assert_eq!(parse_candidate_status(s.as_str()), s);
    }
    assert_eq!(parse_candidate_status("whatever"), ImageCandidateStatus::Discovered);
}

#[test]
fn test_task_run_lifecycle() {
    assert_eq!(kind_from_text(TaskRunKind::Restore.as_str()), TaskRunKind::Restore);
    assert_eq!(kind_from_text("x"), TaskRunKind::Pipeline);
    assert_eq!(run_status_from_text("partial"), TaskRunStatus::Partial);
    assert_eq!(run_status_from_text("?"), TaskRunStatus::Running);
    assert_eq!(stage_name_from_text("pull"), TaskRunStageName::Pull);
    assert_eq!(stage_name_from_text("?"), TaskRunStageName::Scan);
    assert_eq!(stage_status_from_text("skipped"), TaskRunStageStatus::Skipped);
    assert_eq!(stage_status_from_text("?"), TaskRunStageStatus::Pending);
    assert_eq!(item_status_from_text("decrypt_failed"), TaskRunItemStatus::DecryptFailed);
    assert_eq!(item_status_from_text("?"), TaskRunItemStatus::Failed);
}

#[test]
fn test_mark_stale_and_purge() {
    let cutoff = "2024-01-01T00:01:00+00:00";
    assert!(run_is_stale("running", None, cutoff));
    assert!(run_is_stale("running", Some("2024-01-01T00:00:00+00:00"), cutoff));
    assert!(!run_is_stale("running", Some("2024-01-01T00:02:00+00:00"), cutoff));
    assert!(!run_is_stale("success", None, cutoff));
    assert_eq!(retention_limits(0, 0), (1, 1));
    assert_eq!(retention_limits(50, 30), (50, 30));
}

#[test]
fn ingest_rules() {
    assert_eq!(record_sources(Some(" ".into()), Some("c".into())), (None, None));
    assert_eq!(record_sources(Some("a".into()), Some("  ".into())), (Some("a".to_string()), None));
    assert_eq!(record_sources(Some("a".into()), Some("c".into())), (Some("a".to_string()), Some("c".to_string())));
    assert_eq!(object_id_for("ab"), "blake3:ab");
    assert_eq!(record_extension(Some("PDF")), "pdf");
    assert_eq!(record_extension(None), "");
    assert_eq!(record_mime("pdf"), "application/pdf");
    let t = SystemTime { nanos_since_epoch: 3 };
    assert!(check_copy_stable(4, 4, 4, t, t).is_ok());
    assert!(check_copy_stable(4, 3, 4, t, t).is_err());
    assert!(check_copy_stable(4, 4, 4, t, SystemTime { nanos_since_epoch: 4 }).is_err());
    assert!(check_rehash("a", "a").is_ok());
    assert!(check_rehash("a", "b").is_err());
    let snap = FileSnapshot { size: 1, modified: t };
    assert!(snapshots_stable(Some(snap), Some(snap)));
    assert!(!snapshots_stable(Some(snap), Some(FileSnapshot { size: 2, modified: t })));
    assert!(!snapshots_stable(None, Some(snap)));
}

#[test]
fn test_sync_stability() {
    let t = SystemTime { nanos_since_epoch: 10 };
    let first = FileSnapshot { size: 11, modified: t };
    assert!(snapshots_stable(Some(first), Some(first)));
    assert!(!snapshots_stable(Some(first), Some(FileSnapshot { size: 12, modified: t })));
}

#[test]
fn reference_probes() {
    assert!(matches!(probe_decision(HeadProbe::NotFound, 3, "p"), Err(chatvault::error::ChatVaultError::WebDav(_))));
    assert_eq!(probe_decision(HeadProbe::Exists { content_length: Some(3) }, 3, "p").unwrap(), ProbeDecision::Confirmed(3));
    match probe_decision(HeadProbe::Exists { content_length: Some(4) }, 3, "p") {
        Err(chatvault::error::ChatVaultError::Internal(m)) => assert_eq!(m, "远端对象大小 4 与事件声明 3 不一致: p"),
        _ => panic!("size mismatch must be reported"),
    }
    assert_eq!(probe_decision(HeadProbe::Exists { content_length: None }, 3, "p").unwrap(), ProbeDecision::ReadInFull);
    assert!(check_reference_size(3, 3).is_ok());
    assert!(check_reference_size(2, 3).is_err());
    let stats = DatabaseStats { total_objects: 2, total_records: 3, local_files: 1, pending_tasks: 0 };
    let r = restore_report(5, &stats);
    assert_eq!((r.applied_events, r.total_records, r.total_objects), (5, 3, 2));
}

fn local(original: &str, cache: Option<&str>) -> KnownLocalFile {
    KnownLocalFile { original_path: original.to_string(), size: 1, mtime_ms: 1, cache_path: cache.map(str::to_string) }
}

fn refusal(r: Result<(), chatvault::error::ChatVaultError>) -> String {
    r.unwrap_err().message()
}

#[test]
fn local_deletion_guards() {
    let roots = vec!["/data/chat".to_string()];
    let staging = "/app/staging";
    let ok = vec![local("/data/chat/a.bin", Some("/app/staging/abc"))];
    assert!(local_delete_allowed(true, &roots, staging, &ok).is_ok());
    assert!(refusal(local_delete_allowed(false, &roots, staging, &ok)).contains("尚未完成远端归档"));
    let outside = vec![local("/data/chatter/a.bin", None)];
    assert!(refusal(local_delete_allowed(true, &roots, staging, &outside)).contains("不在已配置采集目录内"));
    let escaped = vec![local("/data/chat/a.bin", Some("/data/chat/a.bin"))];
    assert!(refusal(local_delete_allowed(true, &roots, staging, &escaped)).contains("缓存路径不在受控目录内"));
    // no collect roots configured: only the archive and copy guards apply
    assert!(local_delete_allowed(true, &Vec::new(), staging, &outside).is_ok());
    let windows = vec![local("C:\\chat\\x.bin", Some("  "))];
    assert!(local_delete_allowed(true, &vec!["C:\\chat".to_string()], staging, &windows).is_ok());
}

#[test]
fn index_files_and_managed_copies_are_not_ingested() {
    let db = Some("/data/index.db");
    assert!(ingest_excluded("/data/index.db", db, "/data/staging"));
    assert!(ingest_excluded("/data/index.db-wal", db, "/data/staging"));
    assert!(ingest_excluded("/data/index.db-shm", db, "/data/staging"));
    assert!(ingest_excluded("/data/staging/abc", db, "/data/staging"));
    assert!(!ingest_excluded("/data/staging2/abc", db, "/data/staging"));
    assert!(!ingest_excluded("/data/index.db.bak", db, "/data/staging"));
    assert!(!ingest_excluded("/home/a.pdf", None, "/data/staging"));
}

#[test]
fn refusals_keep_their_own_text() {
    let roots = vec!["/data/chat".to_string()];
    let files = vec![local("/data/chat/a.bin", Some("/elsewhere/x")), local("/other/b.bin", None)];
    assert_eq!(refusal(local_delete_allowed(true, &roots, "/app/staging", &files)), "缓存路径不在受控目录内");
    let files = vec![local("/other/b.bin", Some("/elsewhere/x"))];
    assert_eq!(refusal(local_delete_allowed(true, &roots, "/app/staging", &files)), "原文件不在已配置采集目录内");
    assert_eq!(refusal(local_delete_allowed(false, &roots, "/app/staging", &files)), "原文件尚未完成远端归档，不能删除");
}
