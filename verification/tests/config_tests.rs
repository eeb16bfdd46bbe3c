use gallery_sorter::cli::Cli;
use gallery_sorter::config::{ClassificationRule, Config, FileOperation, FileType, MonthFormat,
    ProcessingMode};
use gallery_sorter::error::Error;
use gallery_sorter::i18n::{get_language, Language, Strings};
use gallery_sorter::tui::input::InputState;
use gallery_sorter::tui::menu::MenuItem;
use gallery_sorter::tui::wizard::{split_paths, ConfigStep, ConfigWizardState, FormField};

#[test]
fn test_language_detection() {
    // Detection never fails, whatever the locale looks like.
    let _lang = get_language("en_US.UTF-8");
    assert_eq!(get_language("zh_CN.UTF-8"), Language::ChineseSimplified);
    assert_eq!(get_language("C"), Language::English);
}

#[test]
fn test_strings_exist() {
    // Ensure all string functions return non-empty strings
    assert!(!Strings::welcome_message(Language::English).is_empty());
    assert!(!Strings::goodbye(Language::English).is_empty());
    assert!(!Strings::processing_complete(Language::English).is_empty());
}

#[test]
fn extension_classes_follow_the_lists() {
    let config = Config::default();
    assert!(config.is_image("JPG"));
    assert!(config.is_image("arw"));
    assert!(config.is_video("MP4"));
    assert!(!config.is_video("jpg"));
    assert!(config.is_raw("cr2"));
    assert!(config.is_supported("heic"));
    assert!(!config.is_supported("txt"));
    assert!(config.is_heif_container("AVIF"));
    assert!(config.is_heif("heic"));
    assert!(!config.is_heif("avif"));
    assert!(config.is_avif("avif"));
    assert_eq!(config.get_file_type("arw"), Some(FileType::Raw));
    assert_eq!(config.get_file_type("mov"), Some(FileType::Videos));
    assert_eq!(config.get_file_type("png"), Some(FileType::Photos));
    assert_eq!(config.get_file_type("doc"), None);
    assert_eq!(FileType::Photos.folder_name(), "Photos");
    assert_eq!(FileType::Raw.folder_name(), "Raw");
}

#[test]
fn state_file_defaults_under_output() {
    let mut config = Config::default();
    config.output_dir = "out".to_string();
    assert_eq!(config.get_state_file(), "out/.gallery_sorter_state.json");
    config.state_file = Some("elsewhere.json".to_string());
    assert_eq!(config.get_state_file(), "elsewhere.json");
}

#[test]
fn sample_config_is_not_empty() {
    assert!(Config::sample_config().contains("processing_mode"));
}

fn empty_cli() -> Cli {
    Cli {
        config: None,
        input: None,
        output: None,
        mode: None,
        classify: None,
        month_format: None,
        operation: None,
        no_deduplicate: false,
        state_file: None,
        threads: None,
        large_file_mb: None,
        dry_run: false,
        verbose: false,
        json_log: false,
    }
}

#[test]
fn cli_flags_override_config() {
    let mut cli = empty_cli();
    cli.mode = Some(ProcessingMode::Supplement);
    cli.large_file_mb = Some(10);
    cli.no_deduplicate = true;
    let merged = cli.merge_with_config(Config::default());
    assert_eq!(merged.processing_mode, ProcessingMode::Supplement);
    assert_eq!(merged.large_file_threshold, 10 * 1024 * 1024);
    assert!(!merged.deduplicate);
    // Untouched settings keep the file's values.
    assert_eq!(merged.month_format, MonthFormat::Nested);
}

#[test]
fn cli_alone_defaults_to_full_mode() {
    let cli = empty_cli();
    let config = cli.to_config();
    assert_eq!(config.processing_mode, ProcessingMode::Full);
    assert_eq!(config.classification, ClassificationRule::YearMonth);
    assert_eq!(config.operation, FileOperation::Copy);
    assert!(config.deduplicate);
}

#[test]
fn cli_config_name_is_the_stem() {
    let mut cli = empty_cli();
    cli.config = Some("configs/vacation.toml".to_string());
    assert_eq!(cli.config_name(), Some("vacation".to_string()));
}

#[test]
fn error_messages_carry_their_parts() {
    let e = Error::HashComputation { path: "a.jpg".to_string(), message: "oops".to_string() };
    assert_eq!(e.message(), "File hash computation failed for a.jpg: oops");
    assert!(Error::FfprobeNotFound.message().contains("ffprobe"));
    let e = Error::Config("bad".to_string());
    assert_eq!(e.message(), "Configuration error: bad");
    assert_eq!(Error::Io("gone".to_string()).message(), "IO error: gone");
    assert_eq!(
        Error::StateFile("torn".to_string()).message(),
        "State file error: torn"
    );
    let e = Error::TimestampParse {
        source_info: "tag".to_string(),
        message: "odd".to_string(),
    };
    assert_eq!(e.message(), "Failed to parse timestamp from tag: odd");
    let e = Error::DuplicateFile {
        original: "a".to_string(),
        duplicate: "b".to_string(),
    };
    assert_eq!(e.message(), "Duplicate file detected: a and b");
    let e = Error::UnsupportedFormat { path: "x.bin".to_string() };
    assert_eq!(e.message(), "Unsupported file format: x.bin");
}

#[test]
fn counted_strings_embed_the_number() {
    let s = gallery_sorter::i18n::Strings::and_n_more(Language::English, 7);
    assert_eq!(s, "... and 7 more...");
}

#[test]
fn input_state_edits_at_the_cursor() {
    let mut input = InputState::with_value("abc");
    assert_eq!(input.cursor_position(), 3);
    input.insert_char('d');
    assert_eq!(input.value(), "abcd");
    input.move_cursor_left();
    input.move_cursor_left();
    input.delete_before_cursor();
    assert_eq!(input.value(), "acd");
    input.delete_after_cursor();
    assert_eq!(input.value(), "ad");
    input.move_cursor_to_start();
    assert_eq!(input.cursor_position(), 0);
    input.move_cursor_to_end();
    assert_eq!(input.cursor_position(), 2);
}

#[test]
fn visual_cursor_counts_wide_characters() {
    let mut input = InputState::with_value("你好");
    input.move_cursor_to_end();
    let width = input.visual_cursor_position();
    assert_eq!(width, unicode_width::UnicodeWidthStr::width("你好"));
    assert_eq!(width, 4);
}

#[test]
fn menu_has_four_entries() {
    let items = MenuItem::iter();
    assert_eq!(items.len(), 4);
    assert_eq!(items[0], MenuItem::RunDirect);
    assert!(!MenuItem::Exit.label(Language::English).is_empty());
}

#[test]
fn wizard_builds_config_from_form() {
    let mut wiz = ConfigWizardState::new();
    wiz.input_dirs = "a; b ;; ".to_string();
    wiz.output_dir = "out".to_string();
    let config = wiz.build_config();
    assert_eq!(config.input_dirs, vec!["a".to_string(), "b".to_string()]);
    assert_eq!(config.output_dir, "out");
    assert!(!config.verbose);
}

#[test]
fn wizard_validation_requires_directories() {
    let mut wiz = ConfigWizardState::new();
    wiz.config_name = "test".to_string();
    assert!(wiz.validate_form(Language::English).is_err());
    wiz.input_dirs = "in".to_string();
    wiz.output_dir = "out".to_string();
    assert!(wiz.validate_form(Language::English).is_ok());
    wiz.config_name = "bad.name".to_string();
    assert!(wiz.validate_form(Language::English).is_err());
}

#[test]
fn wizard_steps_advance_to_confirmation() {
    let step = ConfigStep::ConfigSelect;
    let step = step.next(ClassificationRule::YearMonth);
    assert_eq!(step, ConfigStep::ConfigForm);
    let step = step.next(ClassificationRule::YearMonth);
    assert_eq!(step, ConfigStep::Summary);
    let step = step.next(ClassificationRule::YearMonth);
    assert_eq!(step, ConfigStep::ConfirmRun);
    assert_eq!(step.next(ClassificationRule::YearMonth), ConfigStep::ConfirmRun);
}

#[test]
fn form_fields_know_their_kind() {
    assert!(FormField::InputDirs.is_input_field());
    assert!(!FormField::DryRun.is_input_field());
    assert!(FormField::DryRun.is_option_field());
    assert_eq!(FormField::all().len(), FormField::count());
}

#[test]
fn split_paths_trims_and_drops_empties() {
    assert_eq!(
        split_paths(" a ;; b;"),
        vec!["a".to_string(), "b".to_string()]
    );
    assert_eq!(split_paths("   "), Vec::<String>::new());
}
