//! Localized labels for option values, mapped through the string
//! table rather than through debug formatting.

use vstd::prelude::*;
use crate::config::{ClassificationRule, FileOperation, MonthFormat, ProcessingMode};
use crate::i18n::{Language, Strings};

verus! {

/// The label of a processing mode.
pub fn processing_mode_label(mode: ProcessingMode, lang: Language) -> (r: &'static str)
    ensures
        r@ == match mode {
            ProcessingMode::Full => (if lang == Language::English {
                "Full - Process all files, overwrite existing"@
            } else {
                "\u{5b8c}\u{6574}\u{6a21}\u{5f0f} - \u{5904}\u{7406}\u{6240}\u{6709}\u{6587}\u{4ef6}\u{ff0c}\u{8986}\u{76d6}\u{5df2}\u{5b58}\u{5728}\u{7684}\u{6587}\u{4ef6}"@
            }),
            ProcessingMode::Supplement => (if lang == Language::English {
                "Supplement - Skip files that already exist in target"@
            } else {
                "\u{8865}\u{5145}\u{6a21}\u{5f0f} - \u{8df3}\u{8fc7}\u{76ee}\u{6807}\u{76ee}\u{5f55}\u{4e2d}\u{5df2}\u{5b58}\u{5728}\u{7684}\u{6587}\u{4ef6}"@
            }),
            ProcessingMode::Incremental => (if lang == Language::English {
                "Incremental - Only process new/modified files"@
            } else {
                "\u{589e}\u{91cf}\u{6a21}\u{5f0f} - \u{4ec5}\u{5904}\u{7406}\u{65b0}\u{589e}/\u{4fee}\u{6539}\u{7684}\u{6587}\u{4ef6}"@
            }),
        },
{
    match mode {
        ProcessingMode::Full => Strings::mode_full(lang),
        ProcessingMode::Supplement => Strings::mode_supplement(lang),
        ProcessingMode::Incremental => Strings::mode_incremental(lang),
    }
}

/// The label of a classification rule.
pub fn classification_label(rule: ClassificationRule, lang: Language) -> (r: &'static str)
    ensures
        lang == Language::English ==> r@ == match rule {
            ClassificationRule::NoClassification => "None - All files in root"@,
            ClassificationRule::Year => "Year - Organize by YYYY/"@,
            ClassificationRule::YearMonth => "Year-Month - Organize by YYYY/MM/"@,
        },
{
    match rule {
        ClassificationRule::NoClassification => Strings::classify_none(lang),
        ClassificationRule::Year => Strings::classify_year(lang),
        ClassificationRule::YearMonth => Strings::classify_year_month(lang),
    }
}

/// The label of a month format.
pub fn month_format_label(format: MonthFormat, lang: Language) -> (r: &'static str)
    ensures
        lang == Language::English ==> r@ == match format {
            MonthFormat::Nested => "Nested - YYYY/MM/"@,
            MonthFormat::Combined => "Combined - YYYY-MM/"@,
        },
{
    match format {
        MonthFormat::Nested => Strings::month_format_nested(lang),
        MonthFormat::Combined => Strings::month_format_combined(lang),
    }
}

/// The label of a file operation. The symbolic-link choice reuses the
/// copy text's family: it has no dedicated entry in the string table,
/// so it reads as its own short name.
pub fn file_operation_label(operation: FileOperation, lang: Language) -> (r: &'static str)
    ensures
        lang == Language::English ==> r@ == match operation {
            FileOperation::Copy => "Copy - Copy files to destination"@,
            FileOperation::Move => "Move - Move files to destination"@,
            FileOperation::Symlink => "Symlink - Create symbolic links"@,
            FileOperation::Hardlink => "Hardlink - Create hard links"@,
        },
{
    match operation {
        FileOperation::Copy => Strings::operation_copy(lang),
        FileOperation::Move => Strings::operation_move(lang),
        FileOperation::Symlink => match lang {
            Language::English => "Symlink - Create symbolic links",
            Language::ChineseSimplified => "\u{8f6f}\u{94fe}\u{63a5} - \u{521b}\u{5efa}\u{7b26}\u{53f7}\u{94fe}\u{63a5}",
        },
        FileOperation::Hardlink => Strings::operation_hardlink(lang),
    }
}

/// The label of a yes-or-no value.
pub fn bool_label(value: bool, lang: Language) -> (r: &'static str)
    ensures
        lang == Language::English ==> r@ == (if value {
            "Yes"@
        } else {
            "No"@
        }),
{
    match lang {
        Language::English => if value {
            "Yes"
        } else {
            "No"
        },
        Language::ChineseSimplified => if value {
            "\u{662f}"
        } else {
            "\u{5426}"
        },
    }
}

} // verus!
