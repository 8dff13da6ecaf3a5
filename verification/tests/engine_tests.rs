//! Unit tests of the verified engine pieces: gathering, aggregation,
//! terminator stripping, and walk policies.

use fs_err as fs;
use linegrep::engine::{gather, scan_events, search_with_policy, FileOutcome, ResultAggregator};
use linegrep::lines::strip_line_terminator;
use linegrep::pattern::Pattern;
use linegrep::record::MatchRecord;
use linegrep::walk::{WalkEvent, WalkPolicy};

fn rec(file: &str, line_number: u64, line: &str) -> MatchRecord {
    MatchRecord { file: file.to_string(), line_number, line: line.to_string() }
}

#[test]
fn strip_newline() {
    assert_eq!(strip_line_terminator("abc\n"), "abc");
    assert_eq!(strip_line_terminator("abc\r\n"), "abc");
    assert_eq!(strip_line_terminator("abc"), "abc");
    assert_eq!(strip_line_terminator(""), "");
    assert_eq!(strip_line_terminator("\n"), "");
    assert_eq!(strip_line_terminator("\r\n"), "");
    assert_eq!(strip_line_terminator("abc\r"), "abc\r");
    assert_eq!(strip_line_terminator("abc\n\n"), "abc\n");
}

#[test]
fn gather_keeps_order_and_accounts_failures() {
    let outs = vec![
        FileOutcome::Matches {
            path: "a".to_string(),
            records: vec![rec("a", 1, "one"), rec("a", 3, "three")],
        },
        FileOutcome::Inaccessible { path: "b".to_string(), reason: "denied".to_string() },
        FileOutcome::Matches { path: "c".to_string(), records: vec![rec("c", 2, "two")] },
    ];
    let out = gather(outs);
    assert_eq!(out.records.len(), 3);
    assert_eq!(out.records[0].line, "one");
    assert_eq!(out.records[1].line, "three");
    assert_eq!(out.records[2].line, "two");
    assert_eq!(out.skipped.len(), 1);
    assert_eq!(out.skipped[0].path, "b");
    assert_eq!(out.skipped[0].reason, "denied");
}

#[test]
fn failing_file_does_not_suppress_siblings() {
    // A file that became unreadable contributes only a skipped entry; the
    // records of every other file survive unchanged.
    let with_failure = vec![
        FileOutcome::Matches { path: "a".to_string(), records: vec![rec("a", 2, "hit a")] },
        FileOutcome::Inaccessible { path: "b".to_string(), reason: "denied".to_string() },
        FileOutcome::Matches { path: "c".to_string(), records: vec![rec("c", 5, "hit c")] },
    ];
    let out = gather(with_failure);
    assert_eq!(out.records.len(), 2);
    assert_eq!(out.records[0].file, "a");
    assert_eq!(out.records[0].line, "hit a");
    assert_eq!(out.records[1].file, "c");
    assert_eq!(out.records[1].line_number, 5);
    assert_eq!(out.skipped.len(), 1);
    assert_eq!(out.skipped[0].path, "b");
}

#[test]
fn aggregator_accumulates_in_arrival_order() {
    let mut agg = ResultAggregator::new();
    agg.add_outcome(FileOutcome::Matches {
        path: "x".to_string(),
        records: vec![rec("x", 1, "first")],
    });
    agg.add_outcome(FileOutcome::Inaccessible {
        path: "y".to_string(),
        reason: "gone".to_string(),
    });
    agg.add_outcome(FileOutcome::Matches {
        path: "z".to_string(),
        records: vec![rec("z", 9, "last")],
    });
    let out = agg.finish();
    assert_eq!(out.records.len(), 2);
    assert_eq!(out.records[0].line, "first");
    assert_eq!(out.records[1].line, "last");
    assert_eq!(out.skipped.len(), 1);
    assert_eq!(out.skipped[0].reason, "gone");
}

#[test]
fn default_policy_flags() {
    let p = WalkPolicy::new();
    assert!(p.skip_hidden);
    assert!(!p.follow_symlinks);
    let d = WalkPolicy::default();
    assert!(d.skip_hidden);
    assert!(!d.follow_symlinks);
}

#[test]
fn policy_can_include_hidden_entries() {
    let dir = tempfile::tempdir().unwrap();
    fs::write(dir.path().join(".hidden.txt"), "ERROR hidden\n").unwrap();
    let target = dir.path().to_str().unwrap().to_string();
    let policy = WalkPolicy { skip_hidden: false, follow_symlinks: false };
    let out = search_with_policy(&"ERROR".to_string(), &target, &policy).unwrap();
    assert_eq!(out.records.len(), 1);
    assert_eq!(out.records[0].line, "ERROR hidden");
}

#[test]
fn symlink_following_terminates_on_plain_trees() {
    let dir = tempfile::tempdir().unwrap();
    fs::write(dir.path().join("a.txt"), "ERROR one\n").unwrap();
    let target = dir.path().to_str().unwrap().to_string();
    let policy = WalkPolicy { skip_hidden: true, follow_symlinks: true };
    let out = search_with_policy(&"ERROR".to_string(), &target, &policy).unwrap();
    assert_eq!(out.records.len(), 1);
    assert_eq!(out.records[0].line, "ERROR one");
}

#[test]
fn scan_events_skips_non_files_and_keeps_failures() {
    let pat = Pattern::compile(&"x".to_string()).unwrap();
    let events = vec![
        WalkEvent::Entry { path: "somedir".to_string(), is_file: false },
        WalkEvent::Failure { path: "p".to_string(), reason: "denied".to_string() },
        WalkEvent::Entry { path: "/no/such/file/here".to_string(), is_file: true },
    ];
    let outs = scan_events(&pat, events);
    assert_eq!(outs.len(), 2);
    match &outs[0] {
        FileOutcome::Inaccessible { path, reason } => {
            assert_eq!(path, "p");
            assert_eq!(reason, "denied");
        }
        _ => panic!("a failure event must yield its skip outcome"),
    }
    match &outs[1] {
        FileOutcome::Inaccessible { path, .. } => assert_eq!(path, "/no/such/file/here"),
        _ => panic!("an unreadable file must yield a skip outcome"),
    }
}
