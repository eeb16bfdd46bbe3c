use gallery_sorter::config::{ClassificationRule, Config, MonthFormat, ProcessingMode};
use gallery_sorter::hash::compute_full_hash;
use gallery_sorter::process::{build_base_destination_path, resolve_conflict_policy,
    resolve_filename_conflict, select_survivors, survivor_of, ConflictAction};
use gallery_sorter::state::{parse_watermark, IncrementalWatermark};
use gallery_sorter::time::datetime::DateTime;
use gallery_sorter::time::video::extract_video_time;
use gallery_sorter::time::filename::parse_filename_time;

#[test]
fn duplicate_pair_keeps_clean_name_and_places_it() {
    // Two byte-identical files; the clean name survives, the copy points
    // at it; year-month nested classification places the survivor.
    let bytes = b"the very same image bytes".to_vec();
    let h = compute_full_hash(&bytes);
    let files = vec![
        "source/IMG_20240115_143000 - Copy.jpg".to_string(),
        "source/IMG_20240115_143000.jpg".to_string(),
    ];
    let hashes = vec![Some(h), Some(h)];
    let keep = select_survivors(&files, &hashes);
    assert_eq!(keep, vec![false, true]);
    let survivor = survivor_of(&files, &hashes, 0);
    assert_eq!(files[survivor], "source/IMG_20240115_143000.jpg");

    let mut config = Config::default();
    config.output_dir = "output".to_string();
    config.classification = ClassificationRule::YearMonth;
    config.month_format = MonthFormat::Nested;
    let ts = parse_filename_time("IMG_20240115_143000.jpg").unwrap();
    let dest = build_base_destination_path(&files[survivor], &ts, &config).unwrap();
    assert_eq!(dest, "output/2024/01/IMG_20240115_143000.jpg");
}

#[test]
fn video_time_follows_filename_offset() {
    // Tagged 10:00 universal, named 18:00 local: the eight-hour offset is
    // inside the plausible window, so local time wins.
    let format_tags = vec![(
        "creation_time".to_string(),
        "2024-06-01T10:00:00Z".to_string(),
    )];
    let streams: Vec<Vec<(String, String)>> = Vec::new();
    let dt = extract_video_time("VID_20240601_180000.mp4", &format_tags, &streams, 0).unwrap();
    assert_eq!(
        dt,
        DateTime { year: 2024, month: 6, day: 1, hour: 18, minute: 0, second: 0 }
    );
}

#[test]
fn video_time_falls_back_to_local_offset() {
    // No usable filename timestamp: the process-local offset applies.
    let format_tags = vec![(
        "creation_time".to_string(),
        "2024-06-01T10:00:00Z".to_string(),
    )];
    let streams: Vec<Vec<(String, String)>> = Vec::new();
    let dt = extract_video_time("holiday_clip.mp4", &format_tags, &streams, 3600).unwrap();
    assert_eq!(dt.hour, 11);
}

#[test]
fn video_time_reads_stream_tags_and_uppercase_keys() {
    let format_tags: Vec<(String, String)> = Vec::new();
    let streams = vec![vec![(
        "CREATION_TIME".to_string(),
        "2024-06-01T10:00:00Z".to_string(),
    )]];
    let dt = extract_video_time("clip.mp4", &format_tags, &streams, 0).unwrap();
    assert_eq!(dt.hour, 10);
}

#[test]
fn video_time_errors_without_tags() {
    let format_tags: Vec<(String, String)> = Vec::new();
    let streams: Vec<Vec<(String, String)>> = Vec::new();
    assert!(extract_video_time("clip.mp4", &format_tags, &streams, 0).is_err());
}

#[test]
fn supplement_mode_writes_numbered_neighbor() {
    // Destination occupied by different content: the new file gets the
    // first numbered name.
    let action = resolve_conflict_policy(ProcessingMode::Supplement, true, Some(1), Some(2));
    assert_eq!(action, ConflictAction::Disambiguate);
    let existing = vec!["output/2024/01/name.ext".to_string()];
    let resolved = resolve_filename_conflict("output/2024/01/name.ext", &existing).unwrap();
    assert_eq!(resolved, "output/2024/01/name_1.ext");
}

#[test]
fn full_mode_rerun_writes_nothing_new() {
    // Second full-mode run over an unchanged pair: every file reads as
    // identical content and counts as processed without a write.
    let action = resolve_conflict_policy(ProcessingMode::Full, true, Some(42), Some(42));
    assert_eq!(action, ConflictAction::CountAsProcessed);
}

#[test]
fn watermark_round_trip_preserves_the_cutoff() {
    let ts = DateTime { year: 2031, month: 12, day: 31, hour: 1, minute: 2, second: 3 };
    let mut wm = IncrementalWatermark::new(
        "2031/12/last.jpg".to_string(),
        ts,
        0xfeedbeefcafef00d,
        ClassificationRule::YearMonth,
        MonthFormat::Combined,
        1700000000,
    );
    wm.set_files_processed(12345);
    let reloaded = parse_watermark(&wm.emit()).unwrap();
    assert_eq!(reloaded.newest_timestamp, ts);
    assert_eq!(reloaded.newest_hash, 0xfeedbeefcafef00d);
    assert_eq!(reloaded.classification, ClassificationRule::YearMonth);
    assert_eq!(reloaded.month_format, MonthFormat::Combined);
    assert_eq!(reloaded.files_processed, 12345);
}
