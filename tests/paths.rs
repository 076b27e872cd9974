use std::path::PathBuf;

use influxrpc_compare::dump::{Dump, DumpCalls, DumpEntries};
use influxrpc_compare::headers::Headers;
use influxrpc_compare::paths::{is_log_extension, LogIterator, RecursiveDirectoryIterator};

#[test]
fn worklist_is_breadth_first_with_sorted_entries() {
    let mut walk = RecursiveDirectoryIterator::new(PathBuf::from("root"));
    assert_eq!(walk.next_pending(), Some(PathBuf::from("root")));
    walk.push_entries(vec![PathBuf::from("root/b"), PathBuf::from("root/a")]);
    assert_eq!(walk.next_pending(), Some(PathBuf::from("root/a")));
    walk.push_entries(vec![PathBuf::from("root/a/z"), PathBuf::from("root/a/y")]);
    assert_eq!(walk.next_pending(), Some(PathBuf::from("root/b")));
    assert_eq!(walk.next_pending(), Some(PathBuf::from("root/a/y")));
    assert_eq!(walk.next_pending(), Some(PathBuf::from("root/a/z")));
    assert_eq!(walk.next_pending(), None);
}

#[test]
fn log_search_starts_at_its_path() {
    let mut logs = LogIterator::new(PathBuf::from("dumps"));
    assert_eq!(logs.inner.next_pending(), Some(PathBuf::from("dumps")));
    assert_eq!(logs.inner.next_pending(), None);
}

#[test]
fn only_txt_files_are_logs() {
    assert!(is_log_extension("txt"));
    assert!(!is_log_extension("TXT"));
    assert!(!is_log_extension("txt.gz"));
    assert!(!is_log_extension(""));
}

#[test]
fn dump_commands_keep_their_start_path() {
    assert_eq!(Dump::new(PathBuf::from("a")).start_path, PathBuf::from("a"));
    assert_eq!(DumpEntries::new(PathBuf::from("b")).start_path, PathBuf::from("b"));
    assert_eq!(DumpCalls::new(PathBuf::from("c")).start_path, PathBuf::from("c"));
}

#[test]
fn headers_merge_only_disjoint_keys() {
    let mut a = Headers::new();
    a.insert("x".to_string(), "1".to_string());
    let mut b = Headers::new();
    b.insert("y".to_string(), "2".to_string());
    assert_eq!(a.merge_disjoint(b), Ok(()));
    assert_eq!(a.len(), 2);
    let mut c = Headers::new();
    c.insert("y".to_string(), "3".to_string());
    assert_eq!(a.merge_disjoint(c), Err(()));
    assert_eq!(a.get(&"y".to_string()).map(|s| s.as_str()), Some("2"));
    assert!(a.contains_key(&"x".to_string()));
    a.insert("x".to_string(), "9".to_string());
    assert_eq!(a.get(&"x".to_string()).map(|s| s.as_str()), Some("9"));
    assert_eq!(a.len(), 2);
}
