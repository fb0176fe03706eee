use dirsum::events::ReadOutcome;
use dirsum::summary::checksum_of;
use dirsum::summary::scan_events;
use dirsum::summary::ScanSummary;

#[test]
fn new_summary_is_all_zero() {
    let s = ScanSummary::new();
    assert_eq!(s.file_count, 0);
    assert_eq!(s.skipped_files, 0);
    assert_eq!(s.bytes_read, 0);
    assert_eq!(s.checksum, 0);
}

#[test]
fn empty_scan_yields_zero_summary() {
    let events: Vec<ReadOutcome> = Vec::new();
    let s = scan_events(&events);
    assert_eq!(s.file_count, 0);
    assert_eq!(s.skipped_files, 0);
    assert_eq!(s.bytes_read, 0);
    assert_eq!(s.checksum, 0);
}

#[test]
fn one_file_one_two_three() {
    let events = vec![ReadOutcome::Content(vec![1u8, 2, 3])];
    let s = scan_events(&events);
    assert_eq!(s.file_count, 1);
    assert_eq!(s.skipped_files, 0);
    assert_eq!(s.bytes_read, 3);
    assert_eq!(s.checksum, 6);
}

#[test]
fn one_readable_one_unreadable() {
    let events = vec![ReadOutcome::Content(vec![1u8, 2, 3]), ReadOutcome::Unreadable];
    let s = scan_events(&events);
    assert_eq!(s.file_count, 2);
    assert_eq!(s.skipped_files, 1);
    assert_eq!(s.bytes_read, 3);
    assert_eq!(s.checksum, 6);
}

#[test]
fn summary_is_order_independent() {
    let forward = vec![
        ReadOutcome::Content(vec![10u8, 20]),
        ReadOutcome::Unreadable,
        ReadOutcome::Content(vec![255u8]),
    ];
    let backward = vec![
        ReadOutcome::Content(vec![255u8]),
        ReadOutcome::Unreadable,
        ReadOutcome::Content(vec![10u8, 20]),
    ];
    let a = scan_events(&forward);
    let b = scan_events(&backward);
    assert_eq!(a.file_count, b.file_count);
    assert_eq!(a.skipped_files, b.skipped_files);
    assert_eq!(a.bytes_read, b.bytes_read);
    assert_eq!(a.checksum, b.checksum);
    assert_eq!(a.file_count, 3);
    assert_eq!(a.skipped_files, 1);
    assert_eq!(a.bytes_read, 3);
    assert_eq!(a.checksum, 285);
}

#[test]
fn repeated_scan_is_deterministic() {
    let events = vec![
        ReadOutcome::Content(vec![7u8, 0, 9]),
        ReadOutcome::Content(vec![]),
        ReadOutcome::Unreadable,
    ];
    let a = scan_events(&events);
    let b = scan_events(&events);
    assert_eq!(a.file_count, b.file_count);
    assert_eq!(a.skipped_files, b.skipped_files);
    assert_eq!(a.bytes_read, b.bytes_read);
    assert_eq!(a.checksum, b.checksum);
}

#[test]
fn checksum_of_sums_byte_values() {
    assert_eq!(checksum_of(&vec![1u8, 2, 3]), 6);
    assert_eq!(checksum_of(&Vec::new()), 0);
    assert_eq!(checksum_of(&vec![255u8, 255, 255]), 765);
    assert_eq!(checksum_of(&vec![0u8, 0, 0]), 0);
}

#[test]
fn record_read_accumulates() {
    let mut s = ScanSummary::new();
    s.record_read(&vec![4u8, 5]);
    assert_eq!(s.file_count, 1);
    assert_eq!(s.skipped_files, 0);
    assert_eq!(s.bytes_read, 2);
    assert_eq!(s.checksum, 9);
    s.record_read(&vec![250u8]);
    assert_eq!(s.file_count, 2);
    assert_eq!(s.skipped_files, 0);
    assert_eq!(s.bytes_read, 3);
    assert_eq!(s.checksum, 259);
}

#[test]
fn record_skip_counts_but_reads_nothing() {
    let mut s = ScanSummary::new();
    s.record_read(&vec![1u8, 2, 3]);
    s.record_skip();
    assert_eq!(s.file_count, 2);
    assert_eq!(s.skipped_files, 1);
    assert_eq!(s.bytes_read, 3);
    assert_eq!(s.checksum, 6);
    s.record_skip();
    assert_eq!(s.file_count, 3);
    assert_eq!(s.skipped_files, 2);
    assert_eq!(s.bytes_read, 3);
    assert_eq!(s.checksum, 6);
}

#[test]
fn empty_file_counts_without_contributing() {
    let events = vec![ReadOutcome::Content(Vec::new())];
    let s = scan_events(&events);
    assert_eq!(s.file_count, 1);
    assert_eq!(s.skipped_files, 0);
    assert_eq!(s.bytes_read, 0);
    assert_eq!(s.checksum, 0);
}

#[test]
fn only_unreadable_files() {
    let events = vec![ReadOutcome::Unreadable, ReadOutcome::Unreadable];
    let s = scan_events(&events);
    assert_eq!(s.file_count, 2);
    assert_eq!(s.skipped_files, 2);
    assert_eq!(s.bytes_read, 0);
    assert_eq!(s.checksum, 0);
}
