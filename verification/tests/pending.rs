use std::path::PathBuf;
use write_local::{Pending, WriteData, WriteRequest};

fn append(path: &str, bytes: &[u8]) -> WriteRequest {
    WriteRequest { path: PathBuf::from(path), data: WriteData::Append(bytes.to_vec()) }
}

fn replace(path: &str, bytes: &[u8]) -> WriteRequest {
    WriteRequest { path: PathBuf::from(path), data: WriteData::Override(bytes.to_vec()) }
}

fn is_append(request: &WriteRequest, path: &str, bytes: &[u8]) -> bool {
    request.path == PathBuf::from(path)
        && matches!(&request.data, WriteData::Append(held) if held.as_slice() == bytes)
}

fn is_override(request: &WriteRequest, path: &str, bytes: &[u8]) -> bool {
    request.path == PathBuf::from(path)
        && matches!(&request.data, WriteData::Override(held) if held.as_slice() == bytes)
}

#[test]
fn new_table_is_empty_and_flushes_nothing() {
    let mut table = Pending::new();
    assert_eq!(table.len(), 0);
    assert!(table.flush().is_empty());
}

#[test]
fn two_appends_make_one_write_of_helloworld() {
    let mut table = Pending::new();
    let skipped = table.merge_all(vec![append("/tmp/p", b"hello"), append("/tmp/p", b"world")]);
    assert!(skipped.is_empty());
    assert_eq!(table.len(), 1);
    let writes = table.flush();
    assert_eq!(writes.len(), 1);
    assert!(is_append(&writes[0], "/tmp/p", b"helloworld"));
}

#[test]
fn two_overrides_write_bbb_not_aaabbb() {
    let mut table = Pending::new();
    let skipped = table.merge_all(vec![replace("/tmp/p", b"AAA"), replace("/tmp/p", b"BBB")]);
    assert!(skipped.is_empty());
    let writes = table.flush();
    assert_eq!(writes.len(), 1);
    assert!(is_override(&writes[0], "/tmp/p", b"BBB"));
}

#[test]
fn append_and_override_to_two_paths_are_both_written() {
    let mut table = Pending::new();
    table.merge_all(vec![append("/tmp/p", b"x"), replace("/tmp/q", b"y")]);
    assert_eq!(table.len(), 2);
    let writes = table.flush();
    assert_eq!(writes.len(), 2);
    assert!(is_append(&writes[0], "/tmp/p", b"x"));
    assert!(is_override(&writes[1], "/tmp/q", b"y"));
}

#[test]
fn blank_fragments_are_passed_over() {
    let mut table = Pending::new();
    assert_eq!(table.merge(append("/tmp/a", b"")), Some(PathBuf::from("/tmp/a")));
    assert_eq!(table.merge(replace("/tmp/b", b"")), Some(PathBuf::from("/tmp/b")));
    assert_eq!(table.len(), 0);
    assert!(table.flush().is_empty());

    assert_eq!(table.merge(append("/tmp/a", b"abc")), None);
    assert_eq!(table.merge(append("/tmp/a", b"")), Some(PathBuf::from("/tmp/a")));
    assert_eq!(table.merge(replace("/tmp/a", b"")), Some(PathBuf::from("/tmp/a")));
    let writes = table.flush();
    assert_eq!(writes.len(), 1);
    assert!(is_append(&writes[0], "/tmp/a", b"abc"));
}

#[test]
fn merge_all_reports_blank_requests_in_order() {
    let mut table = Pending::new();
    let skipped = table.merge_all(vec![
        append("/tmp/one", b""),
        append("/tmp/two", b"2"),
        replace("/tmp/three", b""),
        append("/tmp/one", b""),
    ]);
    assert_eq!(
        skipped,
        vec![PathBuf::from("/tmp/one"), PathBuf::from("/tmp/three"), PathBuf::from("/tmp/one")]
    );
    assert_eq!(table.len(), 1);
}

#[test]
fn blank_override_does_not_wipe_an_earlier_override() {
    let mut table = Pending::new();
    table.merge_all(vec![replace("/tmp/p", b"AAA"), replace("/tmp/p", b"")]);
    let writes = table.flush();
    assert_eq!(writes.len(), 1);
    assert!(is_override(&writes[0], "/tmp/p", b"AAA"));
}

#[test]
fn second_flush_writes_nothing_and_entries_stay() {
    let mut table = Pending::new();
    table.merge_all(vec![append("/tmp/p", b"x"), replace("/tmp/q", b"y")]);
    assert_eq!(table.flush().len(), 2);
    assert_eq!(table.len(), 2);
    assert!(table.flush().is_empty());
    assert_eq!(table.len(), 2);
    table.merge_all(Vec::new());
    assert!(table.flush().is_empty());
}

#[test]
fn only_paths_with_new_bytes_are_written_in_a_later_cycle() {
    let mut table = Pending::new();
    table.merge_all(vec![append("/tmp/p", b"1"), append("/tmp/q", b"2"), append("/tmp/r", b"3")]);
    assert_eq!(table.flush().len(), 3);
    table.merge_all(vec![append("/tmp/q", b"more")]);
    let writes = table.flush();
    assert_eq!(writes.len(), 1);
    assert!(is_append(&writes[0], "/tmp/q", b"more"));
}

#[test]
fn entry_keeps_the_kind_it_was_made_with() {
    let mut table = Pending::new();
    table.merge(replace("/tmp/p", b"first"));
    table.flush();
    table.merge_all(vec![append("/tmp/p", b"hello"), append("/tmp/p", b"world")]);
    let writes = table.flush();
    assert_eq!(writes.len(), 1);
    assert!(is_override(&writes[0], "/tmp/p", b"world"));

    let mut table = Pending::new();
    table.merge(append("/tmp/p", b"first"));
    table.flush();
    table.merge_all(vec![replace("/tmp/p", b"AAA"), replace("/tmp/p", b"BBB")]);
    let writes = table.flush();
    assert_eq!(writes.len(), 1);
    assert!(is_append(&writes[0], "/tmp/p", b"AAABBB"));
}

#[test]
fn fragments_for_different_paths_do_not_mix() {
    let mut table = Pending::new();
    table.merge_all(vec![
        append("/tmp/a", b"a1"),
        replace("/tmp/b", b"b1"),
        append("/tmp/a", b"a2"),
        replace("/tmp/b", b"b2"),
        append("/tmp/c", b"c1"),
    ]);
    let writes = table.flush();
    assert_eq!(writes.len(), 3);
    assert!(is_append(&writes[0], "/tmp/a", b"a1a2"));
    assert!(is_override(&writes[1], "/tmp/b", b"b2"));
    assert!(is_append(&writes[2], "/tmp/c", b"c1"));
}

#[test]
fn what_is_written_to_one_path_does_not_depend_on_the_others() {
    let mut alone = Pending::new();
    alone.merge_all(vec![append("/tmp/b", b"one"), append("/tmp/b", b"two")]);
    let alone = alone.flush();

    let mut crowded = Pending::new();
    crowded.merge_all(vec![
        replace("/no/such/dir/a", b"fails"),
        append("/tmp/b", b"one"),
        replace("/no/such/dir/a", b"fails again"),
        append("/tmp/b", b"two"),
    ]);
    let crowded = crowded.flush();

    assert_eq!(alone.len(), 1);
    assert_eq!(crowded.len(), 2);
    assert!(is_append(&alone[0], "/tmp/b", b"onetwo"));
    assert!(is_append(&crowded[1], "/tmp/b", b"onetwo"));
}

#[test]
fn paths_that_compare_equal_share_an_entry() {
    let mut table = Pending::new();
    table.merge_all(vec![append("/tmp/dir/f", b"1"), append("/tmp/dir//f", b"2"), append("/tmp/dir/g", b"3")]);
    assert_eq!(table.len(), 2);
    let writes = table.flush();
    assert_eq!(writes.len(), 2);
    assert!(is_append(&writes[0], "/tmp/dir/f", b"12"));
    assert!(is_append(&writes[1], "/tmp/dir/g", b"3"));
}

#[test]
fn flush_hands_out_the_path_of_the_entry() {
    let mut table = Pending::new();
    table.merge(append("/var/log/app.log", b"line"));
    let writes = table.flush();
    assert_eq!(writes[0].path, PathBuf::from("/var/log/app.log"));
    assert_ne!(writes[0].path, PathBuf::from("/var/log/other.log"));
}
