use prune::models::{CleanupStatus, DeleteMode, OperationRecord};
use prune::ops::{compact_text, needs_compaction, newest_first, OperationLog, KEEP_RECORDS, MAX_BYTES};

fn record(id: usize) -> OperationRecord {
    OperationRecord {
        id: format!("op{id}"),
        at: 1_700_000_000_000 + id as i64,
        title: "Clean".into(),
        mode: DeleteMode::Trash,
        status: CleanupStatus::Success,
        removed_targets: 1,
        removed_files: 1,
        removed_bytes: id as u64,
        failed_count: 0,
        providers: vec![],
    }
}

#[test]
fn append_and_list_newest_first() {
    let records: Vec<OperationRecord> = (0..3).map(record).collect();
    let list = newest_first(records, 2);
    assert_eq!(list.len(), 2);
    assert_eq!(list[0].id, "op2");
    assert_eq!(list[1].id, "op1");
}

#[test]
fn a_short_log_is_left_exactly_as_it_is() {
    let text: String = (0..5).map(|i| format!("{{\"id\":\"op{i}\"}}\n")).collect();
    assert_eq!(compact_text(&text), None);
    let listed = newest_first((0..5).map(record).collect(), 10);
    assert_eq!(listed.len(), 5);
    assert_eq!(listed[0].id, "op4");
    assert_eq!(listed[4].id, "op0");
}

#[test]
fn the_log_stops_growing_and_keeps_the_newest_entries() {
    let total = KEEP_RECORDS + 400;
    let text: String = (0..total).map(|i| format!("line {i}\n")).collect();
    let kept = compact_text(&text).expect("a long log is shortened");
    let lines: Vec<&str> = kept.lines().collect();
    assert_eq!(lines.len(), KEEP_RECORDS);
    assert_eq!(lines[0], "line 400");
    assert_eq!(*lines.last().unwrap(), format!("line {}", total - 1));
    assert!(kept.ends_with('\n'));
    assert!(!kept.contains("line 0\n"));
}

#[test]
fn blank_lines_do_not_count_towards_the_limit() {
    let mut text: String = (0..KEEP_RECORDS).map(|i| format!("line {i}\n")).collect();
    text.push_str("\n\n   \n");
    assert_eq!(compact_text(&text), None);
}

#[test]
fn only_a_log_over_the_size_limit_is_shortened() {
    assert!(!needs_compaction(None));
    assert!(!needs_compaction(Some(MAX_BYTES)));
    assert!(needs_compaction(Some(MAX_BYTES + 1)));
}

#[test]
fn the_log_lives_in_its_directory() {
    let log = OperationLog::open("/data/app.bonjin.prune");
    assert_eq!(log.path(), "/data/app.bonjin.prune/operations.jsonl");
    assert_eq!(log.dir(), "/data/app.bonjin.prune");
    assert_eq!(log.temp_path(), "/data/app.bonjin.prune/operations.jsonl.writing");
}
