use chatvault::scan::{
    is_selected_account, keep_scanned_file, resolve_since, AccountTarget, merge_candidates, tally_ingest, DiscoveredFile,
    FullScanStrategy, IngestOutcome, MediaKind, MtimeAtDepthStrategy, ScanOptions, ScanReport,
};
use chatvault::timeutil::{elapsed_from, elapsed_since_text, parse_rfc3339, system_time_from_ms, system_time_to_ms, SystemTime};

#[test]
fn test_system_time_roundtrip() {
    let now_ms = 1_723_000_000_123i64;
    let t = system_time_from_ms(now_ms);
    assert_eq!(system_time_to_ms(t), now_ms);
}

#[test]
fn non_positive_milliseconds_are_the_epoch() {
    assert_eq!(system_time_from_ms(0).nanos_since_epoch, 0);
    assert_eq!(system_time_from_ms(-5).nanos_since_epoch, 0);
    assert_eq!(system_time_to_ms(SystemTime { nanos_since_epoch: -1 }), 0);
    assert_eq!(system_time_to_ms(SystemTime { nanos_since_epoch: 1_999_999 }), 1);
}

#[test]
fn report_merge_adds_counts() {
    let mut a = ScanReport { discovered: 1, indexed: 2, new_objects: 3, skipped: 4 };
    a.merge(ScanReport { discovered: 10, indexed: 20, new_objects: 30, skipped: 40 });
    assert_eq!(a, ScanReport { discovered: 11, indexed: 22, new_objects: 33, skipped: 44 });
    assert_eq!(MediaKind::Files.as_str(), "file");
    assert_eq!(MediaKind::Videos.as_str(), "video");
}

#[test]
fn account_selection() {
    assert!(is_selected_account(None, "root", "wxid"));
    let targets = vec![AccountTarget { source_root: "root".to_string(), source_account_id: "wxid".to_string() }];
    assert!(is_selected_account(Some(&targets), "root", "wxid"));
    assert!(!is_selected_account(Some(&targets), "other", "wxid"));
    assert!(!is_selected_account(Some(&targets), "root", "wxid_b"));
    assert!(!is_selected_account(Some(&Vec::new()), "root", "wxid"));
}

#[test]
fn scan_start_point() {
    assert_eq!(resolve_since(Some(1_700_000_000_000), true), None);
    assert_eq!(resolve_since(None, false), None);
    let since = resolve_since(Some(1_700_000_000_000), false).unwrap();
    assert_eq!(since.nanos_since_epoch, 1_700_000_000_000_000_000);
    assert_eq!(resolve_since(Some(-5), false).unwrap().nanos_since_epoch, 0);
}

#[test]
fn pruning_at_depth() {
    let s = MtimeAtDepthStrategy::new(2);
    assert_eq!(s.prune_depth(), 2);
    let since = Some(SystemTime { nanos_since_epoch: 100 });
    let old = Some(SystemTime { nanos_since_epoch: 50 });
    let new = Some(SystemTime { nanos_since_epoch: 150 });
    assert!(!s.should_descend(true, 2, old, since));
    assert!(s.should_descend(true, 2, new, since));
    assert!(s.should_descend(true, 1, old, since));
    assert!(s.should_descend(false, 2, old, since));
    assert!(s.should_descend(true, 2, old, None));
    assert!(FullScanStrategy.should_descend());
}

#[test]
fn file_filter() {
    let options = ScanOptions::default();
    assert!(keep_scanned_file(Some("a.pdf"), Some(10), &options));
    assert!(!keep_scanned_file(Some("a.pdf"), Some(0), &options));
    assert!(!keep_scanned_file(Some(".hidden"), Some(10), &options));
    assert!(!keep_scanned_file(Some("x.tmp"), Some(10), &options));
    assert!(!keep_scanned_file(None, Some(10), &options));
}

fn file(path: &str) -> DiscoveredFile {
    DiscoveredFile {
        source_type: "t".into(),
        source_account_id: None,
        absolute_path: path.into(),
        file_name: path.into(),
        file_size: 1,
        modified_time: SystemTime { nanos_since_epoch: 0 },
        source_conversation_id: None,
    }
}

#[test]
fn merge_drops_later_duplicates() {
    let walked = vec![("k1".to_string(), file("a")), ("k1".to_string(), file("b")), ("k2".to_string(), file("c"))];
    let known = vec![("k2".to_string(), Some(file("d"))), ("k3".to_string(), None), ("k4".to_string(), Some(file("e")))];
    let merged = merge_candidates(walked, known);
    let paths: Vec<&str> = merged.iter().map(|f| f.absolute_path.as_str()).collect();
    assert_eq!(paths, vec!["a", "c", "e"]);
}

#[test]
fn ingest_tally() {
    let mut report = ScanReport::default();
    let complete = tally_ingest(
        &mut report,
        &vec![
            IngestOutcome::Current,
            IngestOutcome::Indexed { new_object: true },
            IngestOutcome::Indexed { new_object: false },
            IngestOutcome::Skipped,
        ],
    );
    assert!(complete);
    assert_eq!(report, ScanReport { discovered: 4, indexed: 2, new_objects: 1, skipped: 2 });
    let incomplete = tally_ingest(&mut report, &vec![IngestOutcome::Unstable, IngestOutcome::Failed]);
    assert!(!incomplete);
    assert_eq!(report.discovered, 6);
}

#[test]
fn rfc3339_times_and_elapsed() {
    assert_eq!(parse_rfc3339("1970-01-01T00:00:01.5Z"), Some(1500));
    assert_eq!(parse_rfc3339("2024-01-01T08:00:00+08:00"), Some(1_704_067_200_000));
    assert_eq!(parse_rfc3339("not a time"), None);
    assert_eq!(elapsed_from(5_000, Some(1_500)), 3_500);
    assert_eq!(elapsed_from(5_000, None), 0);
    assert_eq!(elapsed_from(i64::MAX, Some(-10)), i64::MAX);
    assert_eq!(elapsed_from(i64::MIN, Some(10)), i64::MIN);
    assert_eq!(elapsed_since_text(2_000, "1970-01-01T00:00:01Z"), 1_000);
    assert_eq!(elapsed_since_text(2_000, "garbage"), 0);
}
