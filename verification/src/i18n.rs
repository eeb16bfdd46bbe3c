//! Localized strings for the command-line surface.
//!
//! The language is detected from a locale name once, outside; every
//! string is then a pure function of that language. Log text stays in
//! English elsewhere.

use vstd::prelude::*;
use crate::text;

verus! {

/// Supported languages.
#[derive(Debug, Clone, Copy, PartialEq, Eq, Structural)]
pub enum Language {
    English,
    ChineseSimplified,
}

/// The substring `w` occurs in `s`.
pub open spec fn contains_seq(s: Seq<char>, w: Seq<char>) -> bool {
    exists|i: int|
        0 <= i && i + w.len() <= s.len() && #[trigger] s.subrange(i, i + w.len()) == w
}

/// Scan for the substring `w`.
fn contains_exec(s: &Vec<char>, w: &Vec<char>) -> (r: bool)
    requires
        w@.len() >= 1,
    ensures
        r == contains_seq(s@, w@),
{
    let n = s.len();
    let wl = w.len();
    let mut i: usize = 0;
    while i < n
        invariant
            i <= n,
            n == s@.len(),
            wl == w@.len(),
            wl >= 1,
            forall|b: int|
                0 <= b < i ==> !(b + w@.len() <= s@.len() && #[trigger] s@.subrange(
                    b,
                    b + w@.len(),
                ) == w@),
        decreases n - i,
    {
        if wl <= n - i {
            let mut k: usize = 0;
            let mut eq = true;
            while k < wl
                invariant
                    k <= wl,
                    i + wl <= n,
                    n == s@.len(),
                    wl == w@.len(),
                    eq == (forall|j: int| 0 <= j < k ==> s@[i + j] == #[trigger] w@[j]),
                decreases wl - k,
            {
                eq = eq && s[i + k] == w[k];
                k += 1;
            }
            if eq {
                proof {
                    assert(s@.subrange(i as int, i as int + w@.len() as int) =~= w@);
                    assert(contains_seq(s@, w@));
                }
                return true;
            }
            proof {
                if i as int + w@.len() <= s@.len() && s@.subrange(
                    i as int,
                    i as int + w@.len(),
                ) == w@ {
                    assert(forall|j: int|
                        0 <= j < wl ==> #[trigger] s@.subrange(
                            i as int,
                            i as int + w@.len(),
                        )[j] == s@[i + j]);
                    assert(false);
                }
            }
        } else {
            proof {
                assert(!(i as int + w@.len() <= s@.len()));
            }
        }
        i += 1;
    }
    proof {
        if contains_seq(s@, w@) {
            let b = choose|b: int|
                0 <= b && b + w@.len() <= s@.len() && #[trigger] s@.subrange(b, b + w@.len())
                    == w@;
            assert(0 <= b < n);
            assert(false);
        }
    }
    false
}

/// Which language a locale name selects: anything that reads as
/// Chinese picks Simplified Chinese; everything else reads as English.
pub open spec fn language_for_locale_spec(locale: Seq<char>) -> Language {
    let lower = text::to_lower_seq(locale);
    if (lower.len() >= 2 && lower.subrange(0, 2) == "zh"@) || contains_seq(lower, "chinese"@)
        || contains_seq(lower, "cn"@) || contains_seq(lower, "hans"@) {
        Language::ChineseSimplified
    } else {
        Language::English
    }
}

/// Detect the interface language from a locale name.
pub fn get_language(locale: &str) -> (r: Language)
    ensures
        r == language_for_locale_spec(locale@),
{
    let lower = text::to_lower_chars(&text::str_to_chars(locale));
    let zh = text::str_to_chars("zh");
    let chinese = text::str_to_chars("chinese");
    let cn = text::str_to_chars("cn");
    let hans = text::str_to_chars("hans");
    proof {
        reveal_strlit("zh");
        reveal_strlit("chinese");
        reveal_strlit("cn");
        reveal_strlit("hans");
    }
    let starts_zh = if lower.len() >= 2 {
        let hit = lower[0] == zh[0] && lower[1] == zh[1];
        proof {
            if hit {
                assert(lower@.subrange(0, 2) =~= "zh"@);
            } else {
                if lower@.subrange(0, 2) == "zh"@ {
                    assert(lower@.subrange(0, 2)[0] == lower@[0]);
                    assert(lower@.subrange(0, 2)[1] == lower@[1]);
                    assert(false);
                }
            }
        }
        hit
    } else {
        false
    };
    if starts_zh || contains_exec(&lower, &chinese) || contains_exec(&lower, &cn)
        || contains_exec(&lower, &hans) {
        Language::ChineseSimplified
    } else {
        Language::English
    }
}

/// Localized strings for the command-line surface.
pub struct Strings;

impl Strings {

    /// Localized text.
    pub fn welcome_message(lang: Language) -> (r: &'static str)
        ensures
            lang == Language::English ==> r@ == "Welcome to Gallery Sorter Interactive Mode!"@,
            lang == Language::ChineseSimplified ==> r@ == "欢迎使用 Gallery Sorter 交互模式！"@,
    {
        match lang {
            Language::English => "Welcome to Gallery Sorter Interactive Mode!",
            Language::ChineseSimplified => "欢迎使用 Gallery Sorter 交互模式！",
        }
    }

    /// Localized text.
    pub fn select_option_prompt(lang: Language) -> (r: &'static str)
        ensures
            lang == Language::English ==> r@ == "Please select an option to continue."@,
            lang == Language::ChineseSimplified ==> r@ == "请选择一个选项以继续。"@,
    {
        match lang {
            Language::English => "Please select an option to continue.",
            Language::ChineseSimplified => "请选择一个选项以继续。",
        }
    }

    /// Localized text.
    pub fn menu_option_run_direct(lang: Language) -> (r: &'static str)
        ensures
            lang == Language::English ==> r@ == "[1] Run with directly input parameters"@,
            lang == Language::ChineseSimplified ==> r@ == "[1] 直接输入参数运行"@,
    {
        match lang {
            Language::English => "[1] Run with directly input parameters",
            Language::ChineseSimplified => "[1] 直接输入参数运行",
        }
    }

    /// Localized text.
    pub fn menu_option_run_config(lang: Language) -> (r: &'static str)
        ensures
            lang == Language::English ==> r@ == "[2] Run with selected configuration"@,
            lang == Language::ChineseSimplified ==> r@ == "[2] 使用已有配置运行"@,
    {
        match lang {
            Language::English => "[2] Run with selected configuration",
            Language::ChineseSimplified => "[2] 使用已有配置运行",
        }
    }

    /// Localized text.
    pub fn menu_option_create_config(lang: Language) -> (r: &'static str)
        ensures
            lang == Language::English ==> r@ == "[3] Create configuration"@,
            lang == Language::ChineseSimplified ==> r@ == "[3] 创建配置文件"@,
    {
        match lang {
            Language::English => "[3] Create configuration",
            Language::ChineseSimplified => "[3] 创建配置文件",
        }
    }

    /// Localized text.
    pub fn menu_option_exit(lang: Language) -> (r: &'static str)
        ensures
            lang == Language::English ==> r@ == "[4] Exit program"@,
            lang == Language::ChineseSimplified ==> r@ == "[4] 退出程序"@,
    {
        match lang {
            Language::English => "[4] Exit program",
            Language::ChineseSimplified => "[4] 退出程序",
        }
    }

    /// Localized text.
    pub fn select_option(lang: Language) -> (r: &'static str)
        ensures
            lang == Language::English ==> r@ == "Select an option"@,
            lang == Language::ChineseSimplified ==> r@ == "选择选项"@,
    {
        match lang {
            Language::English => "Select an option",
            Language::ChineseSimplified => "选择选项",
        }
    }

    /// Localized text.
    pub fn goodbye(lang: Language) -> (r: &'static str)
        ensures
            lang == Language::English ==> r@ == "Goodbye!"@,
            lang == Language::ChineseSimplified ==> r@ == "再见！"@,
    {
        match lang {
            Language::English => "Goodbye!",
            Language::ChineseSimplified => "再见！",
        }
    }

    /// Localized text.
    pub fn no_configs_found(lang: Language) -> (r: &'static str)
        ensures
            lang == Language::English ==> r@ == "No configuration files found in Config directory."@,
            lang == Language::ChineseSimplified ==> r@ == "Config 目录中未找到配置文件。"@,
    {
        match lang {
            Language::English => "No configuration files found in Config directory.",
            Language::ChineseSimplified => "Config 目录中未找到配置文件。",
        }
    }

    /// Localized text.
    pub fn use_option_3_hint(lang: Language) -> (r: &'static str)
        ensures
            lang == Language::English ==> r@ == "Use option 3 to create a configuration first."@,
            lang == Language::ChineseSimplified ==> r@ == "请先使用选项 3 创建配置文件。"@,
    {
        match lang {
            Language::English => "Use option 3 to create a configuration first.",
            Language::ChineseSimplified => "请先使用选项 3 创建配置文件。",
        }
    }

    /// Localized text.
    pub fn available_configurations(lang: Language) -> (r: &'static str)
        ensures
            lang == Language::English ==> r@ == "Available Configurations:"@,
            lang == Language::ChineseSimplified ==> r@ == "可用配置："@,
    {
        match lang {
            Language::English => "Available Configurations:",
            Language::ChineseSimplified => "可用配置：",
        }
    }

    /// Localized text.
    pub fn select_configuration(lang: Language) -> (r: &'static str)
        ensures
            lang == Language::English ==> r@ == "Select a configuration"@,
            lang == Language::ChineseSimplified ==> r@ == "选择配置"@,
    {
        match lang {
            Language::English => "Select a configuration",
            Language::ChineseSimplified => "选择配置",
        }
    }

    /// Localized text.
    pub fn back_to_main_menu(lang: Language) -> (r: &'static str)
        ensures
            lang == Language::English ==> r@ == "← Back to main menu"@,
            lang == Language::ChineseSimplified ==> r@ == "← 返回主菜单"@,
    {
        match lang {
            Language::English => "← Back to main menu",
            Language::ChineseSimplified => "← 返回主菜单",
        }
    }

    /// Localized text.
    pub fn loading_configuration(lang: Language) -> (r: &'static str)
        ensures
            lang == Language::English ==> r@ == "Loading configuration:"@,
            lang == Language::ChineseSimplified ==> r@ == "正在加载配置："@,
    {
        match lang {
            Language::English => "Loading configuration:",
            Language::ChineseSimplified => "正在加载配置：",
        }
    }

    /// Localized text.
    pub fn proceed_with_config(lang: Language) -> (r: &'static str)
        ensures
            lang == Language::English ==> r@ == "Proceed with this configuration?"@,
            lang == Language::ChineseSimplified ==> r@ == "使用此配置继续？"@,
    {
        match lang {
            Language::English => "Proceed with this configuration?",
            Language::ChineseSimplified => "使用此配置继续？",
        }
    }

    /// Localized text.
    pub fn create_new_configuration(lang: Language) -> (r: &'static str)
        ensures
            lang == Language::English ==> r@ == "Create New Configuration"@,
            lang == Language::ChineseSimplified ==> r@ == "创建新配置"@,
    {
        match lang {
            Language::English => "Create New Configuration",
            Language::ChineseSimplified => "创建新配置",
        }
    }

    /// Localized text.
    pub fn enter_config_name(lang: Language) -> (r: &'static str)
        ensures
            lang == Language::English ==> r@ == "Enter configuration name (without .toml extension)"@,
            lang == Language::ChineseSimplified ==> r@ == "输入配置名称（不含 .toml 扩展名）"@,
    {
        match lang {
            Language::English => "Enter configuration name (without .toml extension)",
            Language::ChineseSimplified => "输入配置名称（不含 .toml 扩展名）",
        }
    }

    /// Localized text.
    pub fn config_name_empty_error(lang: Language) -> (r: &'static str)
        ensures
            lang == Language::English ==> r@ == "Configuration name cannot be empty"@,
            lang == Language::ChineseSimplified ==> r@ == "配置名称不能为空"@,
    {
        match lang {
            Language::English => "Configuration name cannot be empty",
            Language::ChineseSimplified => "配置名称不能为空",
        }
    }

    /// Localized text.
    pub fn config_name_invalid_chars_error(lang: Language) -> (r: &'static str)
        ensures
            lang == Language::English ==> r@ == "Configuration name cannot contain /, \\, or ."@,
            lang == Language::ChineseSimplified ==> r@ == "配置名称不能包含 /、\\ 或 ."@,
    {
        match lang {
            Language::English => "Configuration name cannot contain /, \\, or .",
            Language::ChineseSimplified => "配置名称不能包含 /、\\ 或 .",
        }
    }

    /// Localized text.
    pub fn config_exists_overwrite(lang: Language) -> (r: &'static str)
        ensures
            lang == Language::English ==> r@ == "already exists. Overwrite?"@,
            lang == Language::ChineseSimplified ==> r@ == "已存在。是否覆盖？"@,
    {
        match lang {
            Language::English => "already exists. Overwrite?",
            Language::ChineseSimplified => "已存在。是否覆盖？",
        }
    }

    /// Localized text.
    pub fn configuration_cancelled(lang: Language) -> (r: &'static str)
        ensures
            lang == Language::English ==> r@ == "Configuration creation cancelled."@,
            lang == Language::ChineseSimplified ==> r@ == "已取消创建配置。"@,
    {
        match lang {
            Language::English => "Configuration creation cancelled.",
            Language::ChineseSimplified => "已取消创建配置。",
        }
    }

    /// Localized text.
    pub fn save_configuration(lang: Language) -> (r: &'static str)
        ensures
            lang == Language::English ==> r@ == "Save this configuration?"@,
            lang == Language::ChineseSimplified ==> r@ == "保存此配置？"@,
    {
        match lang {
            Language::English => "Save this configuration?",
            Language::ChineseSimplified => "保存此配置？",
        }
    }

    /// Localized text.
    pub fn config_not_saved(lang: Language) -> (r: &'static str)
        ensures
            lang == Language::English ==> r@ == "Configuration not saved."@,
            lang == Language::ChineseSimplified ==> r@ == "配置未保存。"@,
    {
        match lang {
            Language::English => "Configuration not saved.",
            Language::ChineseSimplified => "配置未保存。",
        }
    }

    /// Localized text.
    pub fn config_saved_to(lang: Language) -> (r: &'static str)
        ensures
            lang == Language::English ==> r@ == "Configuration saved to:"@,
            lang == Language::ChineseSimplified ==> r@ == "配置已保存至："@,
    {
        match lang {
            Language::English => "Configuration saved to:",
            Language::ChineseSimplified => "配置已保存至：",
        }
    }

    /// Localized text.
    pub fn use_option_2_hint(lang: Language) -> (r: &'static str)
        ensures
            lang == Language::English ==> r@ == "You can now use option 2 to run with this configuration."@,
            lang == Language::ChineseSimplified ==> r@ == "您现在可以使用选项 2 来运行此配置。"@,
    {
        match lang {
            Language::English => "You can now use option 2 to run with this configuration.",
            Language::ChineseSimplified => "您现在可以使用选项 2 来运行此配置。",
        }
    }

    /// Localized text.
    pub fn configuration_parameters(lang: Language) -> (r: &'static str)
        ensures
            lang == Language::English ==> r@ == "Configuration Parameters"@,
            lang == Language::ChineseSimplified ==> r@ == "配置参数"@,
    {
        match lang {
            Language::English => "Configuration Parameters",
            Language::ChineseSimplified => "配置参数",
        }
    }

    /// Localized text.
    pub fn enter_input_directory(lang: Language) -> (r: &'static str)
        ensures
            lang == Language::English ==> r@ == "Enter input directory (or multiple separated by ;)"@,
            lang == Language::ChineseSimplified ==> r@ == "输入源目录（多个目录用 ; 分隔）"@,
    {
        match lang {
            Language::English => "Enter input directory (or multiple separated by ;)",
            Language::ChineseSimplified => "输入源目录（多个目录用 ; 分隔）",
        }
    }

    /// Localized text.
    pub fn no_input_dirs_specified(lang: Language) -> (r: &'static str)
        ensures
            lang == Language::English ==> r@ == "No input directories specified."@,
            lang == Language::ChineseSimplified ==> r@ == "未指定输入目录。"@,
    {
        match lang {
            Language::English => "No input directories specified.",
            Language::ChineseSimplified => "未指定输入目录。",
        }
    }

    /// Localized text.
    pub fn directory_not_exist(lang: Language) -> (r: &'static str)
        ensures
            lang == Language::English ==> r@ == "Directory does not exist:"@,
            lang == Language::ChineseSimplified ==> r@ == "目录不存在："@,
    {
        match lang {
            Language::English => "Directory does not exist:",
            Language::ChineseSimplified => "目录不存在：",
        }
    }

    /// Localized text.
    pub fn enter_output_directory(lang: Language) -> (r: &'static str)
        ensures
            lang == Language::English ==> r@ == "Enter output directory"@,
            lang == Language::ChineseSimplified ==> r@ == "输入目标目录"@,
    {
        match lang {
            Language::English => "Enter output directory",
            Language::ChineseSimplified => "输入目标目录",
        }
    }

    /// Localized text.
    pub fn enter_exclude_directories(lang: Language) -> (r: &'static str)
        ensures
            lang == Language::English ==> r@ == "Enter directories to exclude (folder names or paths, separated by ;, leave empty to skip)"@,
            lang == Language::ChineseSimplified ==> r@ == "输入要排除的目录（文件夹名或路径，用 ; 分隔，留空跳过）"@,
    {
        match lang {
            Language::English => "Enter directories to exclude (folder names or paths, separated by ;, leave empty to skip)",
            Language::ChineseSimplified => "输入要排除的目录（文件夹名或路径，用 ; 分隔，留空跳过）",
        }
    }

    /// Localized text.
    pub fn summary_exclude_dirs(lang: Language) -> (r: &'static str)
        ensures
            lang == Language::English ==> r@ == "Exclude:"@,
            lang == Language::ChineseSimplified ==> r@ == "排除："@,
    {
        match lang {
            Language::English => "Exclude:",
            Language::ChineseSimplified => "排除：",
        }
    }

    /// Localized text.
    pub fn select_processing_mode(lang: Language) -> (r: &'static str)
        ensures
            lang == Language::English ==> r@ == "Select processing mode"@,
            lang == Language::ChineseSimplified ==> r@ == "选择处理模式"@,
    {
        match lang {
            Language::English => "Select processing mode",
            Language::ChineseSimplified => "选择处理模式",
        }
    }

    /// Localized text.
    pub fn mode_full(lang: Language) -> (r: &'static str)
        ensures
            lang == Language::English ==> r@ == "Full - Process all files, overwrite existing"@,
            lang == Language::ChineseSimplified ==> r@ == "完整模式 - 处理所有文件，覆盖已存在的文件"@,
    {
        match lang {
            Language::English => "Full - Process all files, overwrite existing",
            Language::ChineseSimplified => "完整模式 - 处理所有文件，覆盖已存在的文件",
        }
    }

    /// Localized text.
    pub fn mode_supplement(lang: Language) -> (r: &'static str)
        ensures
            lang == Language::English ==> r@ == "Supplement - Skip files that already exist in target"@,
            lang == Language::ChineseSimplified ==> r@ == "补充模式 - 跳过目标目录中已存在的文件"@,
    {
        match lang {
            Language::English => "Supplement - Skip files that already exist in target",
            Language::ChineseSimplified => "补充模式 - 跳过目标目录中已存在的文件",
        }
    }

    /// Localized text.
    pub fn mode_incremental(lang: Language) -> (r: &'static str)
        ensures
            lang == Language::English ==> r@ == "Incremental - Only process new/modified files"@,
            lang == Language::ChineseSimplified ==> r@ == "增量模式 - 仅处理新增/修改的文件"@,
    {
        match lang {
            Language::English => "Incremental - Only process new/modified files",
            Language::ChineseSimplified => "增量模式 - 仅处理新增/修改的文件",
        }
    }

    /// Localized text.
    pub fn select_classification_rule(lang: Language) -> (r: &'static str)
        ensures
            lang == Language::English ==> r@ == "Select classification rule"@,
            lang == Language::ChineseSimplified ==> r@ == "选择分类规则"@,
    {
        match lang {
            Language::English => "Select classification rule",
            Language::ChineseSimplified => "选择分类规则",
        }
    }

    /// Localized text.
    pub fn classify_year_month(lang: Language) -> (r: &'static str)
        ensures
            lang == Language::English ==> r@ == "Year-Month - Organize by YYYY/MM/"@,
            lang == Language::ChineseSimplified ==> r@ == "年-月 - 按 YYYY/MM/ 整理"@,
    {
        match lang {
            Language::English => "Year-Month - Organize by YYYY/MM/",
            Language::ChineseSimplified => "年-月 - 按 YYYY/MM/ 整理",
        }
    }

    /// Localized text.
    pub fn classify_year(lang: Language) -> (r: &'static str)
        ensures
            lang == Language::English ==> r@ == "Year - Organize by YYYY/"@,
            lang == Language::ChineseSimplified ==> r@ == "年份 - 按 YYYY/ 整理"@,
    {
        match lang {
            Language::English => "Year - Organize by YYYY/",
            Language::ChineseSimplified => "年份 - 按 YYYY/ 整理",
        }
    }

    /// Localized text.
    pub fn classify_none(lang: Language) -> (r: &'static str)
        ensures
            lang == Language::English ==> r@ == "None - All files in root"@,
            lang == Language::ChineseSimplified ==> r@ == "无分类 - 所有文件放在根目录"@,
    {
        match lang {
            Language::English => "None - All files in root",
            Language::ChineseSimplified => "无分类 - 所有文件放在根目录",
        }
    }

    /// Localized text.
    pub fn select_month_format(lang: Language) -> (r: &'static str)
        ensures
            lang == Language::English ==> r@ == "Select month format"@,
            lang == Language::ChineseSimplified ==> r@ == "选择月份格式"@,
    {
        match lang {
            Language::English => "Select month format",
            Language::ChineseSimplified => "选择月份格式",
        }
    }

    /// Localized text.
    pub fn month_format_nested(lang: Language) -> (r: &'static str)
        ensures
            lang == Language::English ==> r@ == "Nested - YYYY/MM/"@,
            lang == Language::ChineseSimplified ==> r@ == "嵌套格式 - YYYY/MM/"@,
    {
        match lang {
            Language::English => "Nested - YYYY/MM/",
            Language::ChineseSimplified => "嵌套格式 - YYYY/MM/",
        }
    }

    /// Localized text.
    pub fn month_format_combined(lang: Language) -> (r: &'static str)
        ensures
            lang == Language::English ==> r@ == "Combined - YYYY-MM/"@,
            lang == Language::ChineseSimplified ==> r@ == "组合格式 - YYYY-MM/"@,
    {
        match lang {
            Language::English => "Combined - YYYY-MM/",
            Language::ChineseSimplified => "组合格式 - YYYY-MM/",
        }
    }

    /// Localized text.
    pub fn select_file_operation(lang: Language) -> (r: &'static str)
        ensures
            lang == Language::English ==> r@ == "Select file operation"@,
            lang == Language::ChineseSimplified ==> r@ == "选择文件操作"@,
    {
        match lang {
            Language::English => "Select file operation",
            Language::ChineseSimplified => "选择文件操作",
        }
    }

    /// Localized text.
    pub fn operation_copy(lang: Language) -> (r: &'static str)
        ensures
            lang == Language::English ==> r@ == "Copy - Copy files to destination"@,
            lang == Language::ChineseSimplified ==> r@ == "复制 - 复制文件到目标目录"@,
    {
        match lang {
            Language::English => "Copy - Copy files to destination",
            Language::ChineseSimplified => "复制 - 复制文件到目标目录",
        }
    }

    /// Localized text.
    pub fn operation_move(lang: Language) -> (r: &'static str)
        ensures
            lang == Language::English ==> r@ == "Move - Move files to destination"@,
            lang == Language::ChineseSimplified ==> r@ == "移动 - 移动文件到目标目录"@,
    {
        match lang {
            Language::English => "Move - Move files to destination",
            Language::ChineseSimplified => "移动 - 移动文件到目标目录",
        }
    }

    /// Localized text.
    pub fn operation_hardlink(lang: Language) -> (r: &'static str)
        ensures
            lang == Language::English ==> r@ == "Hardlink - Create hard links"@,
            lang == Language::ChineseSimplified ==> r@ == "硬链接 - 创建硬链接"@,
    {
        match lang {
            Language::English => "Hardlink - Create hard links",
            Language::ChineseSimplified => "硬链接 - 创建硬链接",
        }
    }

    /// Localized text.
    pub fn enable_deduplication(lang: Language) -> (r: &'static str)
        ensures
            lang == Language::English ==> r@ == "Enable file deduplication?"@,
            lang == Language::ChineseSimplified ==> r@ == "启用文件去重？"@,
    {
        match lang {
            Language::English => "Enable file deduplication?",
            Language::ChineseSimplified => "启用文件去重？",
        }
    }

    /// Localized text.
    pub fn dry_run_mode(lang: Language) -> (r: &'static str)
        ensures
            lang == Language::English ==> r@ == "Dry run mode (preview without making changes)?"@,
            lang == Language::ChineseSimplified ==> r@ == "试运行模式（预览而不实际修改）？"@,
    {
        match lang {
            Language::English => "Dry run mode (preview without making changes)?",
            Language::ChineseSimplified => "试运行模式（预览而不实际修改）？",
        }
    }

    /// Localized text.
    pub fn classify_by_file_type(lang: Language) -> (r: &'static str)
        ensures
            lang == Language::English ==> r@ == "Classify by file type (Photos/Videos/Raw)?"@,
            lang == Language::ChineseSimplified ==> r@ == "按文件类型分类（Photos/Videos/Raw）？"@,
    {
        match lang {
            Language::English => "Classify by file type (Photos/Videos/Raw)?",
            Language::ChineseSimplified => "按文件类型分类（Photos/Videos/Raw）？",
        }
    }

    /// Localized text.
    pub fn proceed_with_settings(lang: Language) -> (r: &'static str)
        ensures
            lang == Language::English ==> r@ == "Proceed with these settings?"@,
            lang == Language::ChineseSimplified ==> r@ == "使用这些设置继续？"@,
    {
        match lang {
            Language::English => "Proceed with these settings?",
            Language::ChineseSimplified => "使用这些设置继续？",
        }
    }

    /// Localized text.
    pub fn operation_cancelled(lang: Language) -> (r: &'static str)
        ensures
            lang == Language::English ==> r@ == "Operation cancelled."@,
            lang == Language::ChineseSimplified ==> r@ == "操作已取消。"@,
    {
        match lang {
            Language::English => "Operation cancelled.",
            Language::ChineseSimplified => "操作已取消。",
        }
    }

    /// Localized text.
    pub fn configuration_summary(lang: Language) -> (r: &'static str)
        ensures
            lang == Language::English ==> r@ == "Configuration Summary:"@,
            lang == Language::ChineseSimplified ==> r@ == "配置摘要："@,
    {
        match lang {
            Language::English => "Configuration Summary:",
            Language::ChineseSimplified => "配置摘要：",
        }
    }

    /// Localized text.
    pub fn summary_input(lang: Language) -> (r: &'static str)
        ensures
            lang == Language::English ==> r@ == "Input:"@,
            lang == Language::ChineseSimplified ==> r@ == "输入："@,
    {
        match lang {
            Language::English => "Input:",
            Language::ChineseSimplified => "输入：",
        }
    }

    /// Localized text.
    pub fn summary_output(lang: Language) -> (r: &'static str)
        ensures
            lang == Language::English ==> r@ == "Output:"@,
            lang == Language::ChineseSimplified ==> r@ == "输出："@,
    {
        match lang {
            Language::English => "Output:",
            Language::ChineseSimplified => "输出：",
        }
    }

    /// Localized text.
    pub fn summary_mode(lang: Language) -> (r: &'static str)
        ensures
            lang == Language::English ==> r@ == "Mode:"@,
            lang == Language::ChineseSimplified ==> r@ == "模式："@,
    {
        match lang {
            Language::English => "Mode:",
            Language::ChineseSimplified => "模式：",
        }
    }

    /// Localized text.
    pub fn summary_classify(lang: Language) -> (r: &'static str)
        ensures
            lang == Language::English ==> r@ == "Classify:"@,
            lang == Language::ChineseSimplified ==> r@ == "分类："@,
    {
        match lang {
            Language::English => "Classify:",
            Language::ChineseSimplified => "分类：",
        }
    }

    /// Localized text.
    pub fn summary_month_format(lang: Language) -> (r: &'static str)
        ensures
            lang == Language::English ==> r@ == "Month Format:"@,
            lang == Language::ChineseSimplified ==> r@ == "月份格式："@,
    {
        match lang {
            Language::English => "Month Format:",
            Language::ChineseSimplified => "月份格式：",
        }
    }

    /// Localized text.
    pub fn summary_operation(lang: Language) -> (r: &'static str)
        ensures
            lang == Language::English ==> r@ == "Operation:"@,
            lang == Language::ChineseSimplified ==> r@ == "操作："@,
    {
        match lang {
            Language::English => "Operation:",
            Language::ChineseSimplified => "操作：",
        }
    }

    /// Localized text.
    pub fn summary_deduplicate(lang: Language) -> (r: &'static str)
        ensures
            lang == Language::English ==> r@ == "Deduplicate:"@,
            lang == Language::ChineseSimplified ==> r@ == "去重："@,
    {
        match lang {
            Language::English => "Deduplicate:",
            Language::ChineseSimplified => "去重：",
        }
    }

    /// Localized text.
    pub fn summary_dry_run(lang: Language) -> (r: &'static str)
        ensures
            lang == Language::English ==> r@ == "Dry Run:"@,
            lang == Language::ChineseSimplified ==> r@ == "试运行："@,
    {
        match lang {
            Language::English => "Dry Run:",
            Language::ChineseSimplified => "试运行：",
        }
    }

    /// Localized text.
    pub fn summary_classify_by_type(lang: Language) -> (r: &'static str)
        ensures
            lang == Language::English ==> r@ == "File Type:"@,
            lang == Language::ChineseSimplified ==> r@ == "类型分类："@,
    {
        match lang {
            Language::English => "File Type:",
            Language::ChineseSimplified => "类型分类：",
        }
    }

    /// Localized text.
    pub fn starting_processing(lang: Language) -> (r: &'static str)
        ensures
            lang == Language::English ==> r@ == "Starting processing..."@,
            lang == Language::ChineseSimplified ==> r@ == "开始处理..."@,
    {
        match lang {
            Language::English => "Starting processing...",
            Language::ChineseSimplified => "开始处理...",
        }
    }

    /// Localized text.
    pub fn scanning_directories(lang: Language) -> (r: &'static str)
        ensures
            lang == Language::English ==> r@ == "Scanning input directories..."@,
            lang == Language::ChineseSimplified ==> r@ == "正在扫描输入目录..."@,
    {
        match lang {
            Language::English => "Scanning input directories...",
            Language::ChineseSimplified => "正在扫描输入目录...",
        }
    }

    /// Localized text.
    pub fn log_saved_to(lang: Language) -> (r: &'static str)
        ensures
            lang == Language::English ==> r@ == "Log saved to:"@,
            lang == Language::ChineseSimplified ==> r@ == "日志已保存至："@,
    {
        match lang {
            Language::English => "Log saved to:",
            Language::ChineseSimplified => "日志已保存至：",
        }
    }

    /// Localized text.
    pub fn processing_complete(lang: Language) -> (r: &'static str)
        ensures
            lang == Language::English ==> r@ == "PROCESSING COMPLETE"@,
            lang == Language::ChineseSimplified ==> r@ == "处理完成"@,
    {
        match lang {
            Language::English => "PROCESSING COMPLETE",
            Language::ChineseSimplified => "处理完成",
        }
    }

    /// Localized text.
    pub fn statistics(lang: Language) -> (r: &'static str)
        ensures
            lang == Language::English ==> r@ == "Statistics:"@,
            lang == Language::ChineseSimplified ==> r@ == "统计："@,
    {
        match lang {
            Language::English => "Statistics:",
            Language::ChineseSimplified => "统计：",
        }
    }

    /// Localized text.
    pub fn stat_total_files(lang: Language) -> (r: &'static str)
        ensures
            lang == Language::English ==> r@ == "Total files:"@,
            lang == Language::ChineseSimplified ==> r@ == "文件总数："@,
    {
        match lang {
            Language::English => "Total files:",
            Language::ChineseSimplified => "文件总数：",
        }
    }

    /// Localized text.
    pub fn stat_processed(lang: Language) -> (r: &'static str)
        ensures
            lang == Language::English ==> r@ == "Processed:"@,
            lang == Language::ChineseSimplified ==> r@ == "已处理："@,
    {
        match lang {
            Language::English => "Processed:",
            Language::ChineseSimplified => "已处理：",
        }
    }

    /// Localized text.
    pub fn stat_skipped(lang: Language) -> (r: &'static str)
        ensures
            lang == Language::English ==> r@ == "Skipped:"@,
            lang == Language::ChineseSimplified ==> r@ == "已跳过："@,
    {
        match lang {
            Language::English => "Skipped:",
            Language::ChineseSimplified => "已跳过：",
        }
    }

    /// Localized text.
    pub fn stat_duplicates(lang: Language) -> (r: &'static str)
        ensures
            lang == Language::English ==> r@ == "Duplicates:"@,
            lang == Language::ChineseSimplified ==> r@ == "重复文件："@,
    {
        match lang {
            Language::English => "Duplicates:",
            Language::ChineseSimplified => "重复文件：",
        }
    }

    /// Localized text.
    pub fn stat_failed(lang: Language) -> (r: &'static str)
        ensures
            lang == Language::English ==> r@ == "Failed:"@,
            lang == Language::ChineseSimplified ==> r@ == "失败："@,
    {
        match lang {
            Language::English => "Failed:",
            Language::ChineseSimplified => "失败：",
        }
    }

    /// Localized text.
    pub fn failed_files(lang: Language) -> (r: &'static str)
        ensures
            lang == Language::English ==> r@ == "Failed Files:"@,
            lang == Language::ChineseSimplified ==> r@ == "失败文件："@,
    {
        match lang {
            Language::English => "Failed Files:",
            Language::ChineseSimplified => "失败文件：",
        }
    }

    /// Localized text.
    pub fn dry_run_notice(lang: Language) -> (r: &'static str)
        ensures
            lang == Language::English ==> r@ == "DRY RUN - No files were actually modified"@,
            lang == Language::ChineseSimplified ==> r@ == "试运行 - 没有实际修改任何文件"@,
    {
        match lang {
            Language::English => "DRY RUN - No files were actually modified",
            Language::ChineseSimplified => "试运行 - 没有实际修改任何文件",
        }
    }

    /// Localized text.
    pub fn cli_processing_complete(lang: Language) -> (r: &'static str)
        ensures
            lang == Language::English ==> r@ == "Processing Complete!"@,
            lang == Language::ChineseSimplified ==> r@ == "处理完成！"@,
    {
        match lang {
            Language::English => "Processing Complete!",
            Language::ChineseSimplified => "处理完成！",
        }
    }

    /// Localized text.
    pub fn cli_detailed_results(lang: Language) -> (r: &'static str)
        ensures
            lang == Language::English ==> r@ == "Detailed Results:"@,
            lang == Language::ChineseSimplified ==> r@ == "详细结果："@,
    {
        match lang {
            Language::English => "Detailed Results:",
            Language::ChineseSimplified => "详细结果：",
        }
    }

    /// Localized text.
    pub fn cli_failed_files(lang: Language) -> (r: &'static str)
        ensures
            lang == Language::English ==> r@ == "Failed files:"@,
            lang == Language::ChineseSimplified ==> r@ == "失败的文件："@,
    {
        match lang {
            Language::English => "Failed files:",
            Language::ChineseSimplified => "失败的文件：",
        }
    }

    /// Localized text.
    pub fn cli_dry_run_notice(lang: Language) -> (r: &'static str)
        ensures
            lang == Language::English ==> r@ == "[DRY RUN] No files were actually modified."@,
            lang == Language::ChineseSimplified ==> r@ == "[试运行] 没有实际修改任何文件。"@,
    {
        match lang {
            Language::English => "[DRY RUN] No files were actually modified.",
            Language::ChineseSimplified => "[试运行] 没有实际修改任何文件。",
        }
    }

    /// Localized text.
    pub fn cli_no_input_dirs_error(lang: Language) -> (r: &'static str)
        ensures
            lang == Language::English ==> r@ == "No input directories specified. Use -i/--input or specify in config file."@,
            lang == Language::ChineseSimplified ==> r@ == "未指定输入目录。请使用 -i/--input 参数或在配置文件中指定。"@,
    {
        match lang {
            Language::English => "No input directories specified. Use -i/--input or specify in config file.",
            Language::ChineseSimplified => "未指定输入目录。请使用 -i/--input 参数或在配置文件中指定。",
        }
    }

    /// Localized text.
    pub fn cli_input_dir_not_exist(lang: Language) -> (r: &'static str)
        ensures
            lang == Language::English ==> r@ == "Warning: Input directory does not exist:"@,
            lang == Language::ChineseSimplified ==> r@ == "警告：输入目录不存在："@,
    {
        match lang {
            Language::English => "Warning: Input directory does not exist:",
            Language::ChineseSimplified => "警告：输入目录不存在：",
        }
    }

    /// Localized text.
    pub fn cli_output_inside_input_error(lang: Language) -> (r: &'static str)
        ensures
            lang == Language::English ==> r@ == "Output directory cannot be inside input directory:"@,
            lang == Language::ChineseSimplified ==> r@ == "输出目录不能在输入目录内："@,
    {
        match lang {
            Language::English => "Output directory cannot be inside input directory:",
            Language::ChineseSimplified => "输出目录不能在输入目录内：",
        }
    }

    /// Localized text.
    pub fn cli_is_inside(lang: Language) -> (r: &'static str)
        ensures
            lang == Language::English ==> r@ == "is inside"@,
            lang == Language::ChineseSimplified ==> r@ == "在"@,
    {
        match lang {
            Language::English => "is inside",
            Language::ChineseSimplified => "在",
        }
    }

    /// Localized text.
    pub fn status_ok(lang: Language) -> (r: &'static str)
        ensures
            lang == Language::English ==> r@ == "[OK]"@,
            lang == Language::ChineseSimplified ==> r@ == "[成功]"@,
    {
        match lang {
            Language::English => "[OK]",
            Language::ChineseSimplified => "[成功]",
        }
    }

    /// Localized text.
    pub fn status_skip(lang: Language) -> (r: &'static str)
        ensures
            lang == Language::English ==> r@ == "[SKIP]"@,
            lang == Language::ChineseSimplified ==> r@ == "[跳过]"@,
    {
        match lang {
            Language::English => "[SKIP]",
            Language::ChineseSimplified => "[跳过]",
        }
    }

    /// Localized text.
    pub fn status_dup(lang: Language) -> (r: &'static str)
        ensures
            lang == Language::English ==> r@ == "[DUP]"@,
            lang == Language::ChineseSimplified ==> r@ == "[重复]"@,
    {
        match lang {
            Language::English => "[DUP]",
            Language::ChineseSimplified => "[重复]",
        }
    }

    /// Localized text.
    pub fn status_fail(lang: Language) -> (r: &'static str)
        ensures
            lang == Language::English ==> r@ == "[FAIL]"@,
            lang == Language::ChineseSimplified ==> r@ == "[失败]"@,
    {
        match lang {
            Language::English => "[FAIL]",
            Language::ChineseSimplified => "[失败]",
        }
    }

    /// Localized text.
    pub fn status_dry(lang: Language) -> (r: &'static str)
        ensures
            lang == Language::English ==> r@ == "[DRY]"@,
            lang == Language::ChineseSimplified ==> r@ == "[试运行]"@,
    {
        match lang {
            Language::English => "[DRY]",
            Language::ChineseSimplified => "[试运行]",
        }
    }

    /// Localized text.
    pub fn already_processed(lang: Language) -> (r: &'static str)
        ensures
            lang == Language::English ==> r@ == "(already processed)"@,
            lang == Language::ChineseSimplified ==> r@ == "（已处理）"@,
    {
        match lang {
            Language::English => "(already processed)",
            Language::ChineseSimplified => "（已处理）",
        }
    }

    /// Localized text.
    pub fn duplicate_of(lang: Language) -> (r: &'static str)
        ensures
            lang == Language::English ==> r@ == "(duplicate of"@,
            lang == Language::ChineseSimplified ==> r@ == "（与此重复："@,
    {
        match lang {
            Language::English => "(duplicate of",
            Language::ChineseSimplified => "（与此重复：",
        }
    }

    /// Localized text.
    pub fn unknown_error(lang: Language) -> (r: &'static str)
        ensures
            lang == Language::English ==> r@ == "Unknown error"@,
            lang == Language::ChineseSimplified ==> r@ == "未知错误"@,
    {
        match lang {
            Language::English => "Unknown error",
            Language::ChineseSimplified => "未知错误",
        }
    }

    /// Localized text carrying a count.
    pub fn and_n_more(lang: Language, n: usize) -> (r: String)
        ensures
            lang == Language::English ==> r@ == "... and "@ + text::dec_str(n as u64)
                + " more..."@,
            lang == Language::ChineseSimplified ==> r@ == "... \u{8fd8}\u{6709} "@
                + text::dec_str(n as u64) + " \u{4e2a}..."@,
    {
        let mut digits: Vec<char> = Vec::new();
        text::push_dec_u64(&mut digits, n as u64);
        let num = text::chars_to_string(&digits);
        proof {
            assert(digits@ =~= text::dec_str(n as u64));
        }
        match lang {
            Language::English => String::from_str("... and ").concat(num.as_str()).concat(
                " more...",
            ),
            Language::ChineseSimplified => String::from_str("... \u{8fd8}\u{6709} ").concat(
                num.as_str(),
            ).concat(" \u{4e2a}..."),
        }
    }
}

} // verus!
