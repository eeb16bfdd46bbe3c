use gallery_sorter::config::{ClassificationRule, Config, MonthFormat, ProcessingMode};
use gallery_sorter::process::{build_base_destination_path, content_already_present,
    duplicate_pointer, filename_priority_score, is_excluded_dir, resolve_conflict_policy,
    resolve_filename_conflict, select_survivors, stats_of_results, survivor_of, ConflictAction,
    FileResult, ProcessingStats, ProcessingStatus};
use gallery_sorter::time::datetime::DateTime;

#[test]
fn test_processing_stats() {
    let mut stats = ProcessingStats::new();
    stats.processed += 5;
    stats.skipped += 2;
    stats.duplicates += 1;
    stats.failed += 1;

    let summary = stats.summary();
    assert!(summary.contains("Processed: 5"));
    assert!(summary.contains("Skipped: 2"));
    assert!(summary.contains("Duplicates: 1"));
    assert!(summary.contains("Failed: 1"));
}

#[test]
fn test_filename_priority_score() {
    // Clean filenames (shorter) should have lower scores than copies (longer)
    let clean = "IMG_20251006_180519.jpg";
    let copy_cn = "IMG_20251006_180519 - 副本.jpg";
    let copy_suffix1 = "IMG_20251006_180519_1.jpg";
    let copy_suffix2 = "IMG_20251006_180527_2.jpg";
    let copy_space = "IMG_20251007_151359 1.jpg";
    let copy_paren = "IMG_20251006_180519(1).jpg";

    let score_clean = filename_priority_score(clean);
    let score_copy_cn = filename_priority_score(copy_cn);
    let score_suffix1 = filename_priority_score(copy_suffix1);
    let score_suffix2 = filename_priority_score(copy_suffix2);
    let score_space = filename_priority_score(copy_space);
    let score_paren = filename_priority_score(copy_paren);

    assert!(
        score_clean < score_copy_cn,
        "Clean ({}) < Chinese copy ({})",
        score_clean,
        score_copy_cn
    );
    assert!(
        score_clean < score_suffix1,
        "Clean ({}) < _1 suffix ({})",
        score_clean,
        score_suffix1
    );
    assert!(
        score_clean < score_suffix2,
        "Clean ({}) < _2 suffix ({})",
        score_clean,
        score_suffix2
    );
    assert!(
        score_clean < score_space,
        "Clean ({}) < space suffix ({})",
        score_clean,
        score_space
    );
    assert!(
        score_clean < score_paren,
        "Clean ({}) < parentheses ({})",
        score_clean,
        score_paren
    );
}

#[test]
fn score_counts_characters_not_bytes() {
    // A two-character multibyte stem scores two, not its byte length.
    assert_eq!(filename_priority_score("副本.jpg"), 2);
    assert_eq!(filename_priority_score("ab.jpg"), 2);
}

#[test]
fn duplicates_point_at_the_placed_destination() {
    let placed = vec![(7u64, "out/2024/01/a.jpg".to_string())];
    let survivor = "src/a.jpg".to_string();
    // Once the survivor is placed, the duplicate points at its home.
    assert_eq!(duplicate_pointer(&placed, 7, &survivor), "out/2024/01/a.jpg");
    // Before that, the survivor's own path is the forward reference.
    assert_eq!(duplicate_pointer(&placed, 8, &survivor), "src/a.jpg");
}

#[test]
fn present_content_is_found_by_hash() {
    let existing = vec![1u64, 2, 3];
    assert!(content_already_present(&existing, Some(2)));
    assert!(!content_already_present(&existing, Some(9)));
    assert!(!content_already_present(&existing, None));
}

#[test]
fn test_filename_priority_sorting() {
    let mut files = vec![
        "IMG_20251006_180519 - 副本.jpg".to_string(),
        "IMG_20251006_180519.jpg".to_string(),
        "IMG_20251006_180527_2.jpg".to_string(),
        "IMG_20251006_180527.jpg".to_string(),
        "IMG_20251006_180527_1.jpg".to_string(),
    ];

    files.sort_by_cached_key(|path| filename_priority_score(path));

    // Clean filenames should come first
    assert_eq!(files[0], "IMG_20251006_180519.jpg");
    assert_eq!(files[1], "IMG_20251006_180527.jpg");
}

#[test]
fn survivor_selection_is_order_independent() {
    let score_order = [
        "a.jpg".to_string(),
        "a_copy1.jpg".to_string(),
        "a_copy_longer.jpg".to_string(),
    ];
    // Same group under every enumeration order: the cleanest name wins.
    let orders: [[usize; 3]; 3] = [[0, 1, 2], [2, 1, 0], [1, 2, 0]];
    for order in orders {
        let files: Vec<String> = order.iter().map(|&i| score_order[i].clone()).collect();
        let hashes = vec![Some(7u64), Some(7u64), Some(7u64)];
        let keep = select_survivors(&files, &hashes);
        for (i, kept) in keep.iter().enumerate() {
            assert_eq!(*kept, files[i] == "a.jpg", "order {:?}", order);
        }
        let anchor = files.iter().position(|f| f == "a_copy1.jpg").unwrap();
        let s = survivor_of(&files, &hashes, anchor);
        assert_eq!(files[s], "a.jpg");
    }
}

#[test]
fn unhashed_files_always_survive() {
    let files = vec!["x.jpg".to_string(), "y.jpg".to_string()];
    let hashes = vec![None, None];
    let keep = select_survivors(&files, &hashes);
    assert_eq!(keep, vec![true, true]);
}

#[test]
fn destination_path_follows_classification() {
    let mut config = Config::default();
    config.output_dir = "output".to_string();
    config.classification = ClassificationRule::YearMonth;
    config.month_format = MonthFormat::Nested;
    let ts = DateTime { year: 2024, month: 1, day: 15, hour: 14, minute: 30, second: 0 };
    let dest = build_base_destination_path("src/IMG_20240115_143000.jpg", &ts, &config).unwrap();
    assert_eq!(dest, "output/2024/01/IMG_20240115_143000.jpg");

    config.month_format = MonthFormat::Combined;
    let dest = build_base_destination_path("src/IMG_20240115_143000.jpg", &ts, &config).unwrap();
    assert_eq!(dest, "output/2024-01/IMG_20240115_143000.jpg");

    config.classification = ClassificationRule::Year;
    let dest = build_base_destination_path("a.jpg", &ts, &config).unwrap();
    assert_eq!(dest, "output/2024/a.jpg");

    config.classification = ClassificationRule::NoClassification;
    config.classify_by_type = true;
    let dest = build_base_destination_path("a.jpg", &ts, &config).unwrap();
    assert_eq!(dest, "output/Photos/a.jpg");
    let dest = build_base_destination_path("a.arw", &ts, &config).unwrap();
    assert_eq!(dest, "output/Photos/Raw/a.arw");
    let dest = build_base_destination_path("a.mp4", &ts, &config).unwrap();
    assert_eq!(dest, "output/Videos/a.mp4");
}

#[test]
fn destination_path_rejects_empty_name() {
    let config = Config::default();
    let ts = DateTime { year: 2024, month: 1, day: 15, hour: 0, minute: 0, second: 0 };
    assert!(build_base_destination_path("dir/", &ts, &config).is_err());
}

#[test]
fn conflict_policy_by_mode() {
    // Free destination: write.
    assert_eq!(
        resolve_conflict_policy(ProcessingMode::Full, false, Some(1), None),
        ConflictAction::Write
    );
    // Identical content in full mode: processed without writing.
    assert_eq!(
        resolve_conflict_policy(ProcessingMode::Full, true, Some(9), Some(9)),
        ConflictAction::CountAsProcessed
    );
    // Identical content in the appending modes: skipped.
    assert_eq!(
        resolve_conflict_policy(ProcessingMode::Supplement, true, Some(9), Some(9)),
        ConflictAction::SkipIdentical
    );
    assert_eq!(
        resolve_conflict_policy(ProcessingMode::Incremental, true, Some(9), Some(9)),
        ConflictAction::SkipIdentical
    );
    // Different content: full overwrites, the others disambiguate.
    assert_eq!(
        resolve_conflict_policy(ProcessingMode::Full, true, Some(1), Some(2)),
        ConflictAction::Overwrite
    );
    assert_eq!(
        resolve_conflict_policy(ProcessingMode::Supplement, true, Some(1), Some(2)),
        ConflictAction::Disambiguate
    );
    // Unverifiable content: same split.
    assert_eq!(
        resolve_conflict_policy(ProcessingMode::Full, true, None, None),
        ConflictAction::Overwrite
    );
    assert_eq!(
        resolve_conflict_policy(ProcessingMode::Incremental, true, Some(1), None),
        ConflictAction::Disambiguate
    );
}

#[test]
fn conflict_name_search_gives_up_past_the_bound() {
    // Every numbered variant taken: resolution fails.
    let mut existing = vec!["n.e".to_string()];
    for i in 1..10000 {
        existing.push(format!("n_{}.e", i));
    }
    assert!(resolve_filename_conflict("n.e", &existing).is_err());
}

#[test]
fn conflict_name_search_finds_first_free() {
    let existing = vec![
        "out/photo.jpg".to_string(),
        "out/photo_1.jpg".to_string(),
    ];
    let resolved = resolve_filename_conflict("out/photo.jpg", &existing).unwrap();
    assert_eq!(resolved, "out/photo_2.jpg");

    // A free base stays as it is.
    let resolved = resolve_filename_conflict("out/fresh.jpg", &existing).unwrap();
    assert_eq!(resolved, "out/fresh.jpg");

    // Without an extension the number lands at the end.
    let existing = vec!["out/notes".to_string()];
    let resolved = resolve_filename_conflict("out/notes", &existing).unwrap();
    assert_eq!(resolved, "out/notes_1");
}

#[test]
fn excluded_directories_match_by_name_or_prefix() {
    let excludes = vec![".sync".to_string(), "/abs/skip".to_string()];
    assert!(is_excluded_dir("photos/.sync/a.jpg", &excludes));
    assert!(is_excluded_dir("/abs/skip/deeper", &excludes));
    assert!(is_excluded_dir("/abs/skip", &excludes));
    assert!(!is_excluded_dir("photos/sync/a.jpg", &excludes));
    assert!(!is_excluded_dir("/abs/skipped", &excludes));
}

#[test]
fn stats_tally_results_by_status() {
    let mk = |status| FileResult {
        source: "s".to_string(),
        destination: None,
        time_info: None,
        status,
        error: None,
    };
    let results = vec![
        mk(ProcessingStatus::Success),
        mk(ProcessingStatus::DryRun),
        mk(ProcessingStatus::Skipped),
        mk(ProcessingStatus::Duplicate),
        mk(ProcessingStatus::Failed),
        mk(ProcessingStatus::Success),
    ];
    let stats = stats_of_results(&results);
    assert_eq!(stats.total_files, 6);
    assert_eq!(stats.processed, 3);
    assert_eq!(stats.skipped, 1);
    assert_eq!(stats.duplicates, 1);
    assert_eq!(stats.failed, 1);
}
