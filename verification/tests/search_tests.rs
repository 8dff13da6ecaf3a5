//! End-to-end tests of the search engine on real files and directories.

use fs_err as fs;
use linegrep::engine::search;

fn write_file(dir: &tempfile::TempDir, name: &str, content: &str) -> String {
    let path = dir.path().join(name);
    fs::write(&path, content).unwrap();
    path.to_str().unwrap().to_string()
}

#[test]
fn invalid_pattern_fails_immediately() {
    let dir = tempfile::tempdir().unwrap();
    let target = dir.path().to_str().unwrap().to_string();
    let r = search(&"(".to_string(), &target);
    match r {
        Err(e) => {
            assert!(e.is_invalid_pattern());
            assert!(!e.message().is_empty());
        }
        Ok(_) => panic!("an unclosed group must be rejected"),
    }
}

#[test]
fn invalid_pattern_beats_missing_target() {
    // The pattern is validated before the target is even looked at.
    let r = search(&"[".to_string(), &"/no/such/path/anywhere".to_string());
    assert!(r.unwrap_err().is_invalid_pattern());
}

#[test]
fn missing_target_is_inaccessible() {
    let r = search(&"ERROR".to_string(), &"/no/such/path/anywhere".to_string());
    let e = r.unwrap_err();
    assert!(!e.is_invalid_pattern());
}

#[test]
fn single_file_matches_with_line_numbers() {
    let dir = tempfile::tempdir().unwrap();
    let file = write_file(&dir, "a.txt", "foo\nERROR: bad\nok\nERROR again\n");
    let out = search(&"ERROR".to_string(), &file).unwrap();
    assert_eq!(out.skipped.len(), 0);
    assert_eq!(out.records.len(), 2);
    assert_eq!(out.records[0].file, file);
    assert_eq!(out.records[0].line_number, 2);
    assert_eq!(out.records[0].line, "ERROR: bad");
    assert_eq!(out.records[1].line_number, 4);
    assert_eq!(out.records[1].line, "ERROR again");
    assert!(out.records[0].line_number < out.records[1].line_number);
}

#[test]
fn every_line_matching_is_counted_once_in_order() {
    let dir = tempfile::tempdir().unwrap();
    let file = write_file(&dir, "a.txt", "x1\nx2\nx3\n");
    let out = search(&"x".to_string(), &file).unwrap();
    assert_eq!(out.records.len(), 3);
    for (i, rec) in out.records.iter().enumerate() {
        assert_eq!(rec.line_number, (i as u64) + 1);
    }
    assert_eq!(out.records[2].line, "x3");
}

#[test]
fn terminators_are_stripped() {
    let dir = tempfile::tempdir().unwrap();
    let file = write_file(&dir, "a.txt", "ERROR one\r\nERROR two");
    let out = search(&"ERROR".to_string(), &file).unwrap();
    assert_eq!(out.records.len(), 2);
    assert_eq!(out.records[0].line, "ERROR one");
    assert_eq!(out.records[1].line, "ERROR two");
}

#[test]
fn ignored_files_never_appear() {
    // The concrete scenario: an ignore rule excludes *.log, so a matching
    // line in b.log must not be reported.
    let dir = tempfile::tempdir().unwrap();
    let a = write_file(&dir, "a.txt", "foo\nERROR: bad\n");
    write_file(&dir, "b.log", "ERROR here\n");
    write_file(&dir, ".ignore", "*.log\n");
    let target = dir.path().to_str().unwrap().to_string();
    let out = search(&"ERROR".to_string(), &target).unwrap();
    assert_eq!(out.records.len(), 1);
    assert_eq!(out.records[0].file, a);
    assert_eq!(out.records[0].line_number, 2);
    assert_eq!(out.records[0].line, "ERROR: bad");
}

#[test]
fn hidden_files_are_skipped_by_default() {
    let dir = tempfile::tempdir().unwrap();
    write_file(&dir, ".hidden.txt", "ERROR hidden\n");
    let visible = write_file(&dir, "seen.txt", "ERROR seen\n");
    let target = dir.path().to_str().unwrap().to_string();
    let out = search(&"ERROR".to_string(), &target).unwrap();
    assert_eq!(out.records.len(), 1);
    assert_eq!(out.records[0].file, visible);
}

#[test]
fn file_and_directory_of_one_file_agree() {
    let dir = tempfile::tempdir().unwrap();
    let file = write_file(&dir, "only.txt", "nothing\nERROR: here\n");
    let target = dir.path().to_str().unwrap().to_string();
    let by_file = search(&"ERROR".to_string(), &file).unwrap();
    let by_dir = search(&"ERROR".to_string(), &target).unwrap();
    assert_eq!(by_file.records.len(), by_dir.records.len());
    for (a, b) in by_file.records.iter().zip(by_dir.records.iter()) {
        assert_eq!(a.file, b.file);
        assert_eq!(a.line_number, b.line_number);
        assert_eq!(a.line, b.line);
    }
}

#[test]
fn subdirectories_are_searched() {
    let dir = tempfile::tempdir().unwrap();
    fs::create_dir(dir.path().join("sub")).unwrap();
    let nested = write_file(&dir, "sub/in.txt", "deep ERROR\n");
    let target = dir.path().to_str().unwrap().to_string();
    let out = search(&"ERROR".to_string(), &target).unwrap();
    assert_eq!(out.records.len(), 1);
    assert_eq!(out.records[0].file, nested);
    assert_eq!(out.records[0].line, "deep ERROR");
}

#[test]
fn invalid_utf8_is_decoded_leniently() {
    let dir = tempfile::tempdir().unwrap();
    let path = dir.path().join("raw.bin");
    fs::write(&path, b"ERROR \xff\xfe tail\nclean\n".to_vec()).unwrap();
    let file = path.to_str().unwrap().to_string();
    let out = search(&"ERROR".to_string(), &file).unwrap();
    assert_eq!(out.records.len(), 1);
    assert_eq!(out.records[0].line_number, 1);
    assert!(out.records[0].line.starts_with("ERROR "));
}

#[test]
fn empty_file_yields_no_records() {
    let dir = tempfile::tempdir().unwrap();
    let file = write_file(&dir, "empty.txt", "");
    let out = search(&"ERROR".to_string(), &file).unwrap();
    assert_eq!(out.records.len(), 0);
    assert_eq!(out.skipped.len(), 0);
}

#[test]
fn directory_results_come_in_name_order() {
    let dir = tempfile::tempdir().unwrap();
    let c = write_file(&dir, "c.txt", "ERROR c\n");
    let a = write_file(&dir, "a.txt", "ERROR a\n");
    let b = write_file(&dir, "b.txt", "ERROR b\n");
    let target = dir.path().to_str().unwrap().to_string();
    let out = search(&"ERROR".to_string(), &target).unwrap();
    assert_eq!(out.records.len(), 3);
    assert_eq!(out.records[0].file, a);
    assert_eq!(out.records[1].file, b);
    assert_eq!(out.records[2].file, c);
}
