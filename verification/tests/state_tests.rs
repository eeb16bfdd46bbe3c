use gallery_sorter::config::{ClassificationRule, MonthFormat};
use gallery_sorter::state::{extract_timestamp_from_path, parse_watermark,
    select_newest_classified, watermark_version, IncrementalWatermark, ProcessingState};
use gallery_sorter::time::datetime::DateTime;

fn dt(year: i32, month: u8, day: u8, hour: u8, minute: u8, second: u8) -> DateTime {
    DateTime { year, month, day, hour, minute, second }
}

#[test]
fn test_new_state() {
    let state = ProcessingState::new();
    assert_eq!(state.file_count(), 0);
    assert!(state.last_run().is_none());
}

#[test]
fn test_record_and_query() {
    let mut state = ProcessingState::new();

    let source = "/source/file.jpg";
    let dest = "/dest/2024/01/file.jpg";
    let content_hash = 12345u64;
    let metadata_hash = 67890u64;

    assert!(state.needs_processing(source, metadata_hash));
    assert!(state.has_content_hash(content_hash).is_none());

    state.record_processed(
        source.to_string(),
        dest.to_string(),
        content_hash,
        metadata_hash,
        0,
    );

    assert!(!state.needs_processing(source, metadata_hash));
    assert!(state.needs_processing(source, 99999)); // Different metadata hash
    assert_eq!(state.has_content_hash(content_hash), Some(dest.to_string()));
    assert_eq!(state.file_count(), 1);
}

#[test]
fn test_save_and_load() {
    let mut state = ProcessingState::new();
    state.record_processed(
        "/source/file.jpg".to_string(),
        "/dest/2024/01/file.jpg".to_string(),
        12345,
        67890,
        0,
    );
    state.mark_saved(1700000000);

    let loaded = ProcessingState::from_records(1, state.all_records().clone(), state.last_run());
    assert_eq!(loaded.file_count(), 1);
    assert!(!loaded.needs_processing("/source/file.jpg", 67890));

    // A version mismatch resets silently.
    let reset = ProcessingState::from_records(2, state.all_records().clone(), None);
    assert_eq!(reset.file_count(), 0);
}

#[test]
fn cleanup_missing_drops_gone_sources() {
    let mut state = ProcessingState::new();
    state.record_processed("/a.jpg".to_string(), "/out/a.jpg".to_string(), 1, 10, 0);
    state.record_processed("/b.jpg".to_string(), "/out/b.jpg".to_string(), 2, 20, 0);
    state.cleanup_missing(&vec!["/a.jpg".to_string()]);
    assert_eq!(state.file_count(), 1);
    assert!(state.needs_processing("/a.jpg", 10));
    assert!(!state.needs_processing("/b.jpg", 20));
}

#[test]
fn test_watermark_new() {
    let timestamp = dt(2024, 6, 15, 14, 30, 0);
    let wm = IncrementalWatermark::new(
        "2024/06/photo.jpg".to_string(),
        timestamp,
        12345,
        ClassificationRule::YearMonth,
        MonthFormat::Nested,
        0,
    );

    assert_eq!(wm.newest_timestamp, timestamp);
    assert_eq!(wm.newest_hash, 12345);
    assert_eq!(wm.classification, ClassificationRule::YearMonth);
}

#[test]
fn test_watermark_is_newer() {
    let timestamp = dt(2024, 6, 15, 14, 30, 0);
    let wm = IncrementalWatermark::new(
        "photo.jpg".to_string(),
        timestamp,
        12345,
        ClassificationRule::NoClassification,
        MonthFormat::Nested,
        0,
    );

    // Older timestamp - should not be newer
    let older = dt(2024, 5, 1, 10, 0, 0);
    assert!(!wm.is_newer(&older));

    // Same timestamp - should not be newer
    assert!(!wm.is_newer(&timestamp));

    // Newer timestamp - should be newer
    let newer = dt(2024, 7, 1, 10, 0, 0);
    assert!(wm.is_newer(&newer));
}

#[test]
fn test_watermark_update_if_newer() {
    let timestamp1 = dt(2024, 6, 15, 14, 30, 0);
    let mut wm = IncrementalWatermark::new(
        "2024/06/photo1.jpg".to_string(),
        timestamp1,
        12345,
        ClassificationRule::YearMonth,
        MonthFormat::Nested,
        0,
    );

    // Try to update with older timestamp - should not change
    let older = dt(2024, 5, 1, 10, 0, 0);
    wm.update_if_newer("2024/05/old.jpg".to_string(), older, 99999, 1);
    assert_eq!(wm.newest_timestamp, timestamp1);
    assert_eq!(wm.newest_hash, 12345);

    // Update with newer timestamp - should change
    let newer = dt(2024, 7, 20, 18, 0, 0);
    wm.update_if_newer("2024/07/new.jpg".to_string(), newer, 67890, 2);
    assert_eq!(wm.newest_timestamp, newer);
    assert_eq!(wm.newest_hash, 67890);
    assert_eq!(wm.newest_file_path, "2024/07/new.jpg".to_string());
}

#[test]
fn test_watermark_save_and_load() {
    let timestamp = dt(2024, 6, 15, 14, 30, 0);
    let wm = IncrementalWatermark::new(
        "2024/06/photo.jpg".to_string(),
        timestamp,
        12345,
        ClassificationRule::YearMonth,
        MonthFormat::Nested,
        1700000000,
    );

    let text = wm.emit();
    let loaded = parse_watermark(&text).unwrap();
    assert_eq!(loaded.newest_timestamp, timestamp);
    assert_eq!(loaded.newest_hash, 12345);
    assert_eq!(loaded.classification, ClassificationRule::YearMonth);
    assert_eq!(loaded.month_format, MonthFormat::Nested);
    assert_eq!(loaded.newest_file_path, "2024/06/photo.jpg".to_string());
}

#[test]
fn watermark_rejects_mangled_text() {
    assert!(parse_watermark("not a watermark").is_none());
    assert!(parse_watermark("").is_none());
}

#[test]
fn watermark_version_is_readable_alone() {
    let wm = IncrementalWatermark::new(
        "a.jpg".to_string(),
        dt(2024, 6, 15, 14, 30, 0),
        1,
        ClassificationRule::Year,
        MonthFormat::Nested,
        0,
    );
    assert_eq!(watermark_version(&wm.emit()), Some(1));
    assert_eq!(watermark_version("version = 2\nrest"), Some(2));
    assert_eq!(watermark_version("garbled"), None);
}

#[test]
fn newest_classified_entry_wins_strictly() {
    let entries = vec![
        ("2023/a.jpg".to_string(), dt(2023, 1, 1, 0, 0, 0)),
        ("2024/b.jpg".to_string(), dt(2024, 1, 1, 0, 0, 0)),
        ("2024/c.jpg".to_string(), dt(2024, 1, 1, 0, 0, 0)),
    ];
    // The strict maximum; ties keep the earliest.
    assert_eq!(select_newest_classified(&entries), Some(1));
    assert_eq!(select_newest_classified(&Vec::new()), None);
}

#[test]
fn reload_replays_the_last_record_per_source() {
    let mut state = ProcessingState::new();
    state.record_processed("/a.jpg".to_string(), "/out/a1.jpg".to_string(), 1, 10, 0);
    state.record_processed("/a.jpg".to_string(), "/out/a2.jpg".to_string(), 2, 20, 5);
    let loaded = ProcessingState::from_records(1, state.all_records().clone(), Some(99));
    assert_eq!(loaded.file_count(), 1);
    assert!(!loaded.needs_processing("/a.jpg", 20));
    assert_eq!(loaded.has_content_hash(2), Some("/out/a2.jpg".to_string()));
    assert_eq!(loaded.last_run(), Some(99));
}

#[test]
fn test_watermark_extract_timestamp_nested() {
    let ts = extract_timestamp_from_path(
        "2024/06/photo.jpg",
        ClassificationRule::YearMonth,
        MonthFormat::Nested,
        None,
    );

    assert!(ts.is_some());
    let ts = ts.unwrap();
    assert_eq!(ts.year, 2024);
    assert_eq!(ts.month, 6);
}

#[test]
fn test_watermark_extract_timestamp_combined() {
    let ts = extract_timestamp_from_path(
        "2024-06/photo.jpg",
        ClassificationRule::YearMonth,
        MonthFormat::Combined,
        None,
    );

    assert!(ts.is_some());
    let ts = ts.unwrap();
    assert_eq!(ts.year, 2024);
    assert_eq!(ts.month, 6);
}

#[test]
fn test_watermark_extract_timestamp_year_only() {
    let ts = extract_timestamp_from_path(
        "2024/photo.jpg",
        ClassificationRule::Year,
        MonthFormat::Nested,
        None,
    );

    assert!(ts.is_some());
    let ts = ts.unwrap();
    assert_eq!(ts.year, 2024);
    assert_eq!(ts.month, 1); // Defaults to January
}
