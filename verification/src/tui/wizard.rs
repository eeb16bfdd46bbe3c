//! Configuration-wizard state: the step machine, the form fields and
//! the collected values.

use vstd::prelude::*;
use crate::config::{ClassificationRule, Config, FileOperation, MonthFormat, ProcessingMode};
use crate::i18n::{Language, Strings};
use crate::text;
use crate::time::datetime::{trim_spec, trim_chars};
use crate::state::find_char;
use crate::tui::input::InputState;
use crate::tui::labels::{bool_label, classification_label, file_operation_label,
    month_format_label, processing_mode_label};
use crate::tui::state::{BoolSelection, EnumOption, EnumSelection};

verus! {

/// The wizard's steps.
#[derive(Debug, Clone, Copy, PartialEq, Eq, Structural)]
pub enum ConfigStep {
    /// Choosing an existing configuration.
    ConfigSelect,
    /// Naming a new configuration.
    ConfigName,
    /// Filling the configuration form.
    ConfigForm,
    /// Reviewing the summary.
    Summary,
    /// Confirming the run.
    ConfirmRun,
}

impl ConfigStep {
    /// The step's title. The form labels are not localized.
    pub fn title(&self, lang: Language) -> (r: String)
        ensures
            r@.len() > 0,
    {
        let s = match self {
            ConfigStep::ConfigSelect => Strings::available_configurations(lang),
            ConfigStep::ConfigName => Strings::enter_config_name(lang),
            ConfigStep::ConfigForm => Strings::configuration_parameters(lang),
            ConfigStep::Summary => Strings::configuration_summary(lang),
            ConfigStep::ConfirmRun => Strings::proceed_with_settings(lang),
        };
        proof {
            reveal_strlit("Available Configurations:");
            reveal_strlit("Enter configuration name (without .toml extension)");
            reveal_strlit("Configuration Parameters");
            reveal_strlit("Configuration Summary:");
            reveal_strlit("Proceed with these settings?");
            reveal_strlit("\u{53ef}\u{7528}\u{914d}\u{7f6e}\u{ff1a}");
            reveal_strlit(
                "\u{8f93}\u{5165}\u{914d}\u{7f6e}\u{540d}\u{79f0}\u{ff08}\u{4e0d}\u{542b} .toml \u{6269}\u{5c55}\u{540d}\u{ff09}",
            );
            reveal_strlit("\u{914d}\u{7f6e}\u{53c2}\u{6570}");
            reveal_strlit("\u{914d}\u{7f6e}\u{6458}\u{8981}\u{ff1a}");
            reveal_strlit("\u{4f7f}\u{7528}\u{8fd9}\u{4e9b}\u{8bbe}\u{7f6e}\u{7ee7}\u{7eed}\u{ff1f}");
        }
        String::from_str(s)
    }

    /// The number of selectable options at this step.
    pub fn option_count(&self) -> (r: usize)
        ensures
            r == match self {
                ConfigStep::ConfigSelect => 1int,
                ConfigStep::ConfirmRun => 2int,
                _ => 0int,
            },
    {
        match self {
            ConfigStep::ConfigSelect => 1,
            ConfigStep::ConfirmRun => 2,
            _ => 0,
        }
    }

    /// The options offered at this step: yes and no on the final
    /// confirmation, nothing elsewhere.
    pub fn options(&self, lang: Language) -> (r: Vec<String>)
        ensures
            match self {
                ConfigStep::ConfirmRun => r@.len() == 2,
                _ => r@.len() == 0,
            },
    {
        match self {
            ConfigStep::ConfirmRun => {
                let v: Vec<String> = vec![
                    String::from_str(bool_label(true, lang)),
                    String::from_str(bool_label(false, lang)),
                ];
                v
            },
            _ => Vec::new(),
        }
    }

    /// The step that follows this one.
    pub fn next(&self, _classification: ClassificationRule) -> (r: ConfigStep)
        ensures
            r == match self {
                ConfigStep::ConfigSelect => ConfigStep::ConfigForm,
                ConfigStep::ConfigName => ConfigStep::ConfigForm,
                ConfigStep::ConfigForm => ConfigStep::Summary,
                ConfigStep::Summary => ConfigStep::ConfirmRun,
                ConfigStep::ConfirmRun => ConfigStep::ConfirmRun,
            },
    {
        match self {
            ConfigStep::ConfigSelect => ConfigStep::ConfigForm,
            ConfigStep::ConfigName => ConfigStep::ConfigForm,
            ConfigStep::ConfigForm => ConfigStep::Summary,
            ConfigStep::Summary => ConfigStep::ConfirmRun,
            ConfigStep::ConfirmRun => ConfigStep::ConfirmRun,
        }
    }
}

/// The form's fields.
#[derive(Debug, Clone, Copy, PartialEq, Eq, Structural)]
pub enum FormField {
    /// The configuration's name.
    ConfigName,
    /// Input directories, separated by semicolons.
    InputDirs,
    /// The output directory.
    OutputDir,
    /// Excluded directories, separated by semicolons.
    ExcludeDirs,
    /// The processing mode.
    ProcessingMode,
    /// The classification rule.
    Classification,
    /// The month format.
    MonthFormat,
    /// Whether to add type folders.
    ClassifyByType,
    /// The file operation.
    FileOperation,
    /// Whether to deduplicate.
    Deduplication,
    /// Dry-run mode.
    DryRun,
}

impl FormField {
    /// The number of fields.
    pub fn count() -> (r: usize)
        ensures
            r == 11,
    {
        11
    }

    /// All fields, in form order.
    pub fn all() -> (r: Vec<FormField>)
        ensures
            r@ == seq![
                FormField::ConfigName,
                FormField::InputDirs,
                FormField::OutputDir,
                FormField::ExcludeDirs,
                FormField::ProcessingMode,
                FormField::Classification,
                FormField::MonthFormat,
                FormField::ClassifyByType,
                FormField::FileOperation,
                FormField::Deduplication,
                FormField::DryRun,
            ],
    {
        let v: Vec<FormField> = vec![
            FormField::ConfigName,
            FormField::InputDirs,
            FormField::OutputDir,
            FormField::ExcludeDirs,
            FormField::ProcessingMode,
            FormField::Classification,
            FormField::MonthFormat,
            FormField::ClassifyByType,
            FormField::FileOperation,
            FormField::Deduplication,
            FormField::DryRun,
        ];
        proof {
            assert(v@ =~= seq![
                FormField::ConfigName,
                FormField::InputDirs,
                FormField::OutputDir,
                FormField::ExcludeDirs,
                FormField::ProcessingMode,
                FormField::Classification,
                FormField::MonthFormat,
                FormField::ClassifyByType,
                FormField::FileOperation,
                FormField::Deduplication,
                FormField::DryRun,
            ]);
        }
        v
    }

    /// Whether the field takes typed input.
    pub open spec fn is_input_field_spec(self) -> bool {
        self == FormField::ConfigName || self == FormField::InputDirs || self
            == FormField::OutputDir || self == FormField::ExcludeDirs
    }

    /// Whether the field takes typed input.
    pub fn is_input_field(&self) -> (r: bool)
        ensures
            r == self.is_input_field_spec(),
    {
        match self {
            FormField::ConfigName => true,
            FormField::InputDirs => true,
            FormField::OutputDir => true,
            FormField::ExcludeDirs => true,
            _ => false,
        }
    }

    /// Whether the field is a toggled option.
    pub fn is_option_field(&self) -> (r: bool)
        ensures
            r == !self.is_input_field_spec(),
    {
        !self.is_input_field()
    }

    /// The field's label. Labels are not localized.
    pub fn label(&self, _lang: Language) -> (r: &'static str)
        ensures
            r@ == match self {
                FormField::ConfigName => "Config Name"@,
                FormField::InputDirs => "Input Directories"@,
                FormField::OutputDir => "Output Directory"@,
                FormField::ExcludeDirs => "Exclude Directories"@,
                FormField::ProcessingMode => "Processing Mode"@,
                FormField::Classification => "Classification"@,
                FormField::MonthFormat => "Month Format"@,
                FormField::ClassifyByType => "Classify by Type"@,
                FormField::FileOperation => "File Operation"@,
                FormField::Deduplication => "Deduplication"@,
                FormField::DryRun => "Dry Run"@,
            },
    {
        match self {
            FormField::ConfigName => "Config Name",
            FormField::InputDirs => "Input Directories",
            FormField::OutputDir => "Output Directory",
            FormField::ExcludeDirs => "Exclude Directories",
            FormField::ProcessingMode => "Processing Mode",
            FormField::Classification => "Classification",
            FormField::MonthFormat => "Month Format",
            FormField::ClassifyByType => "Classify by Type",
            FormField::FileOperation => "File Operation",
            FormField::Deduplication => "Deduplication",
            FormField::DryRun => "Dry Run",
        }
    }

    /// The field's displayed value in the wizard.
    pub fn get_value_string(&self, state: &ConfigWizardState, lang: Language) -> (r: String)
        ensures
            self == FormField::ConfigName ==> r@ == state.config_name@,
            self == FormField::InputDirs ==> r@ == state.input_dirs@,
            self == FormField::OutputDir ==> r@ == state.output_dir@,
            self == FormField::ExcludeDirs ==> r@ == state.exclude_dirs@,
    {
        match self {
            FormField::ConfigName => state.config_name.clone(),
            FormField::InputDirs => state.input_dirs.clone(),
            FormField::OutputDir => state.output_dir.clone(),
            FormField::ExcludeDirs => state.exclude_dirs.clone(),
            FormField::ProcessingMode => String::from_str(
                processing_mode_label(state.processing_mode.selected(), lang),
            ),
            FormField::Classification => String::from_str(
                classification_label(state.classification.selected(), lang),
            ),
            FormField::MonthFormat => String::from_str(
                month_format_label(state.month_format.selected(), lang),
            ),
            FormField::ClassifyByType => String::from_str(
                bool_label(state.classify_by_type.value(), lang),
            ),
            FormField::FileOperation => String::from_str(
                file_operation_label(state.operation.selected(), lang),
            ),
            FormField::Deduplication => String::from_str(
                bool_label(state.deduplicate.value(), lang),
            ),
            FormField::DryRun => String::from_str(bool_label(state.dry_run.value(), lang)),
        }
    }

    /// Whether the field shows at all: the name only in the creation
    /// flow, the month format only under year-month classification.
    pub open spec fn is_visible_spec(self, state: ConfigWizardState) -> bool {
        match self {
            FormField::ConfigName => !state.skip_confirm_run,
            FormField::MonthFormat => state.classification.selected_spec()
                == ClassificationRule::YearMonth,
            _ => true,
        }
    }

    /// Whether the field shows at all.
    pub fn is_visible(&self, state: &ConfigWizardState) -> (r: bool)
        ensures
            r == self.is_visible_spec(*state),
    {
        match self {
            FormField::ConfigName => !state.skip_confirm_run,
            FormField::MonthFormat => state.classification.selected()
                == ClassificationRule::YearMonth,
            _ => true,
        }
    }
}

/// The form's navigation state.
#[derive(Debug)]
pub struct ConfigFormState {
    /// Index of the selected visible field.
    pub selected_field: usize,
    /// Whether typed input is being collected.
    pub in_input_mode: bool,
    /// The input buffer.
    pub input: InputState,
    /// The form's scroll offset.
    pub scroll_offset: usize,
}

/// Rows visible in the form at once.
pub const FORM_VISIBLE_ROWS: usize = 8;

impl ConfigFormState {
    /// Fresh form state.
    pub fn new() -> (r: Self)
        ensures
            r.selected_field == 0,
            !r.in_input_mode,
            r.scroll_offset == 0,
            r.input.wf(),
    {
        ConfigFormState {
            selected_field: 0,
            in_input_mode: false,
            input: InputState::new(),
            scroll_offset: 0,
        }
    }

    /// The field at the selected index in form order, the first when
    /// the index runs past the table.
    pub fn selected(&self) -> (r: FormField)
        ensures
            r == (if self.selected_field < 11 {
                FormField::all_spec()[self.selected_field as int]
            } else {
                FormField::ConfigName
            }),
    {
        let all = FormField::all();
        if self.selected_field < all.len() {
            all[self.selected_field]
        } else {
            FormField::ConfigName
        }
    }

    /// Step to the next field, wrapping within the visible count.
    pub fn next_field(&mut self, visible_count: usize)
        requires
            visible_count >= 1,
            old(self).selected_field < visible_count,
        ensures
            final(self).selected_field == (old(self).selected_field + 1) % (
            visible_count as int),
            final(self).in_input_mode == old(self).in_input_mode,
            final(self).input == old(self).input,
    {
        self.selected_field = (self.selected_field + 1) % visible_count;
        self.auto_scroll();
    }

    /// Step to the previous field, wrapping within the visible count.
    pub fn prev_field(&mut self, visible_count: usize)
        requires
            visible_count >= 1,
            old(self).selected_field < visible_count,
        ensures
            final(self).selected_field == (if old(self).selected_field == 0 {
                visible_count - 1
            } else {
                old(self).selected_field - 1
            }),
            final(self).in_input_mode == old(self).in_input_mode,
            final(self).input == old(self).input,
    {
        self.selected_field = if self.selected_field == 0 {
            visible_count - 1
        } else {
            self.selected_field - 1
        };
        self.auto_scroll();
    }

    /// Keep the selected row inside the visible window.
    fn auto_scroll(&mut self)
        ensures
            final(self).selected_field == old(self).selected_field,
            final(self).in_input_mode == old(self).in_input_mode,
            final(self).input == old(self).input,
            final(self).scroll_offset <= final(self).selected_field,
            final(self).selected_field < final(self).scroll_offset + FORM_VISIBLE_ROWS,
    {
        if self.selected_field >= FORM_VISIBLE_ROWS && self.scroll_offset < self.selected_field
            - (FORM_VISIBLE_ROWS - 1) {
            self.scroll_offset = self.selected_field - (FORM_VISIBLE_ROWS - 1);
        } else if self.selected_field < self.scroll_offset {
            self.scroll_offset = self.selected_field;
        }
    }

    /// Enter input mode seeded with a value.
    pub fn enter_input_mode(&mut self, value: &str)
        ensures
            final(self).in_input_mode,
            final(self).input.buffer_spec() == value@,
            final(self).input.wf(),
            final(self).selected_field == old(self).selected_field,
            final(self).scroll_offset == old(self).scroll_offset,
    {
        self.in_input_mode = true;
        self.input = InputState::with_value(value);
    }

    /// Leave input mode, discarding the buffer.
    pub fn exit_input_mode(&mut self)
        ensures
            !final(self).in_input_mode,
            final(self).input.buffer_spec().len() == 0,
            final(self).input.wf(),
            final(self).selected_field == old(self).selected_field,
            final(self).scroll_offset == old(self).scroll_offset,
    {
        self.in_input_mode = false;
        self.input.clear();
    }

    /// The buffered input text.
    pub fn input_value(&self) -> (r: String)
        ensures
            r@ == self.input.buffer_spec(),
    {
        self.input.value()
    }

    /// The input cursor, as a character index.
    pub fn input_cursor(&self) -> (r: usize)
        ensures
            r == self.input.cursor_spec(),
    {
        self.input.cursor_position()
    }

    /// Empty the input buffer.
    pub fn clear_input(&mut self)
        ensures
            final(self).input.buffer_spec().len() == 0,
            final(self).input.wf(),
            final(self).in_input_mode == old(self).in_input_mode,
            final(self).selected_field == old(self).selected_field,
            final(self).scroll_offset == old(self).scroll_offset,
    {
        self.input.clear();
    }

    /// How many fields show for a wizard state.
    pub fn visible_fields_count(&self, state: &ConfigWizardState) -> (r: usize)
        ensures
            r <= 11,
    {
        let all = FormField::all();
        let n = all.len();
        let mut count: usize = 0;
        let mut i: usize = 0;
        while i < n
            invariant
                i <= n,
                n == 11,
                n == all@.len(),
                count <= i,
            decreases n - i,
        {
            if all[i].is_visible(state) {
                count += 1;
            }
            i += 1;
        }
        count
    }
}

impl FormField {
    /// All fields, in form order.
    pub open spec fn all_spec() -> Seq<FormField> {
        seq![
            FormField::ConfigName,
            FormField::InputDirs,
            FormField::OutputDir,
            FormField::ExcludeDirs,
            FormField::ProcessingMode,
            FormField::Classification,
            FormField::MonthFormat,
            FormField::ClassifyByType,
            FormField::FileOperation,
            FormField::Deduplication,
            FormField::DryRun,
        ]
    }
}

/// The wizard's collected values and flow flags.
#[derive(Debug)]
pub struct ConfigWizardState {
    /// The current step.
    pub step: ConfigStep,
    /// Input directories, separated by semicolons.
    pub input_dirs: String,
    /// The output directory.
    pub output_dir: String,
    /// Excluded directories, separated by semicolons.
    pub exclude_dirs: String,
    /// The processing mode.
    pub processing_mode: EnumSelection<ProcessingMode>,
    /// The classification rule.
    pub classification: EnumSelection<ClassificationRule>,
    /// The month format.
    pub month_format: EnumSelection<MonthFormat>,
    /// The file operation.
    pub operation: EnumSelection<FileOperation>,
    /// Whether to deduplicate.
    pub deduplicate: BoolSelection,
    /// Dry-run mode.
    pub dry_run: BoolSelection,
    /// Whether to add type folders.
    pub classify_by_type: BoolSelection,
    /// The configuration's name.
    pub config_name: String,
    /// Configurations on offer.
    pub available_configs: Vec<String>,
    /// Index of the chosen configuration.
    pub selected_config: Option<usize>,
    /// The last validation failure.
    pub error_message: Option<String>,
    /// Whether the configuration was saved.
    pub config_saved: bool,
    /// Where it was saved.
    pub config_path: Option<String>,
    /// Whether the confirmation step is skipped.
    pub skip_confirm_run: bool,
    /// Whether the flow came from configuration selection.
    pub from_config_select: bool,
    /// Whether a modification needs confirming.
    pub need_modify_confirm: bool,
    /// The form's navigation state.
    pub form_state: ConfigFormState,
}

/// Split a semicolon-separated list into trimmed, non-empty entries.
pub open spec fn split_paths_spec(s: Seq<char>) -> Seq<Seq<char>>
    decreases s.len(),
{
    match find_char(s, 0, ';') {
        Some(k) => if 0 <= k < s.len() {
            let piece = trim_spec(s.take(k));
            let rest = split_paths_spec(s.skip(k + 1));
            if piece.len() > 0 {
                seq![piece] + rest
            } else {
                rest
            }
        } else {
            Seq::empty()
        },
        None => {
            let piece = trim_spec(s);
            if piece.len() > 0 {
                seq![piece]
            } else {
                Seq::empty()
            }
        },
    }
}

/// Split a semicolon-separated list into trimmed, non-empty entries.
pub fn split_paths(s: &str) -> (r: Vec<String>)
    ensures
        r.deep_view() == split_paths_spec(s@),
{
    let mut rest = text::str_to_chars(s);
    let mut out: Vec<String> = Vec::new();
    let ghost full = s@;
    proof {
        assert(out.deep_view() + split_paths_spec(rest@) =~~= split_paths_spec(full));
    }
    loop
        invariant
            full == s@,
            out.deep_view() + split_paths_spec(rest@) == split_paths_spec(full),
        decreases rest@.len(),
    {
        let n = rest.len();
        let mut k: usize = 0;
        while k < n && rest[k] != ';'
            invariant
                k <= n,
                n == rest@.len(),
                find_char(rest@, 0, ';') == find_char(rest@, k as int, ';'),
            decreases n - k,
        {
            k += 1;
        }
        if k >= n {
            proof {
                assert(find_char(rest@, k as int, ';') is None);
            }
            let piece = trim_chars(&rest);
            if piece.len() > 0 {
                let ghost pre = out.deep_view();
                out.push(text::chars_to_string(&piece));
                proof {
                    assert(out.deep_view() =~~= pre + seq![trim_spec(rest@)]);
                    assert(split_paths_spec(rest@) == seq![trim_spec(rest@)]);
                    assert(out.deep_view() =~~= split_paths_spec(full));
                }
            } else {
                proof {
                    assert(split_paths_spec(rest@) == Seq::<Seq<char>>::empty());
                    assert(out.deep_view() =~~= split_paths_spec(full));
                }
            }
            return out;
        }
        proof {
            assert(find_char(rest@, k as int, ';') == Some(k as int));
        }
        let mut piece: Vec<char> = Vec::new();
        let mut i: usize = 0;
        while i < k
            invariant
                i <= k < n,
                n == rest@.len(),
                piece@ == rest@.subrange(0, i as int),
            decreases k - i,
        {
            piece.push(rest[i]);
            i += 1;
            assert(piece@ =~= rest@.subrange(0, i as int));
        }
        proof {
            assert(piece@ =~= rest@.take(k as int));
        }
        let trimmed = trim_chars(&piece);
        let mut tail: Vec<char> = Vec::new();
        let mut j: usize = k + 1;
        while j < n
            invariant
                k + 1 <= j <= n,
                n == rest@.len(),
                tail@ == rest@.subrange(k as int + 1, j as int),
            decreases n - j,
        {
            tail.push(rest[j]);
            j += 1;
            assert(tail@ =~= rest@.subrange(k as int + 1, j as int));
        }
        proof {
            assert(tail@ =~= rest@.skip(k as int + 1));
        }
        let ghost old_rest = rest@;
        let ghost pre = out.deep_view();
        if trimmed.len() > 0 {
            out.push(text::chars_to_string(&trimmed));
            proof {
                assert(out.deep_view() =~~= pre + seq![trim_spec(old_rest.take(k as int))]);
            }
        }
        rest = tail;
        proof {
            assert(split_paths_spec(old_rest) == (if trim_spec(old_rest.take(k as int)).len()
                > 0 {
                seq![trim_spec(old_rest.take(k as int))] + split_paths_spec(rest@)
            } else {
                split_paths_spec(rest@)
            }));
            assert(out.deep_view() + split_paths_spec(rest@) =~~= split_paths_spec(full));
        }
    }
}

impl ConfigWizardState {
    /// Fresh wizard state.
    pub fn new() -> (r: Self)
        ensures
            r.step == ConfigStep::ConfigSelect,
            r.input_dirs@.len() == 0,
            r.output_dir@.len() == 0,
            r.exclude_dirs@.len() == 0,
            r.config_name@.len() == 0,
            r.available_configs@.len() == 0,
            r.selected_config is None,
            r.error_message is None,
            !r.config_saved,
            r.config_path is None,
            !r.skip_confirm_run,
            !r.from_config_select,
            !r.need_modify_confirm,
    {
        ConfigWizardState {
            step: ConfigStep::ConfigSelect,
            input_dirs: String::new(),
            output_dir: String::new(),
            exclude_dirs: String::new(),
            processing_mode: EnumSelection::new(),
            classification: EnumSelection::new(),
            month_format: EnumSelection::new(),
            operation: EnumSelection::new(),
            deduplicate: BoolSelection::new(true),
            dry_run: BoolSelection::new(false),
            classify_by_type: BoolSelection::new(false),
            config_name: String::new(),
            available_configs: Vec::new(),
            selected_config: None,
            error_message: None,
            config_saved: false,
            config_path: None,
            skip_confirm_run: false,
            from_config_select: false,
            need_modify_confirm: false,
            form_state: ConfigFormState::new(),
        }
    }

    /// Whether the wizard is creating a configuration.
    pub fn is_create_config_flow(&self) -> (r: bool)
        ensures
            r == (!self.skip_confirm_run && !self.from_config_select),
    {
        !self.skip_confirm_run && !self.from_config_select
    }

    /// Whether the wizard is choosing a configuration.
    pub fn is_select_config_flow(&self) -> (r: bool)
        ensures
            r == self.from_config_select,
    {
        self.from_config_select
    }

    /// Whether confirming is allowed at the selection step: only with
    /// something to select.
    pub fn can_confirm_config_select(&self) -> (r: bool)
        ensures
            r == (if self.step == ConfigStep::ConfigSelect {
                self.available_configs@.len() > 0
            } else {
                true
            }),
    {
        if self.step == ConfigStep::ConfigSelect {
            self.available_configs.len() > 0
        } else {
            true
        }
    }

    /// Build the configuration the form describes.
    pub fn build_config(&self) -> (r: Config)
        ensures
            r.input_dirs.deep_view() == split_paths_spec(self.input_dirs@),
            r.exclude_dirs.deep_view() == split_paths_spec(self.exclude_dirs@),
            r.output_dir@ == self.output_dir@,
            r.processing_mode == self.processing_mode.selected_spec(),
            r.classification == self.classification.selected_spec(),
            r.month_format == self.month_format.selected_spec(),
            r.classify_by_type == self.classify_by_type.value_spec(),
            r.operation == self.operation.selected_spec(),
            r.deduplicate == self.deduplicate.value_spec(),
            r.dry_run == self.dry_run.value_spec(),
            !r.verbose,
    {
        let stock = Config::default();
        Config {
            input_dirs: split_paths(self.input_dirs.as_str()),
            output_dir: self.output_dir.clone(),
            exclude_dirs: split_paths(self.exclude_dirs.as_str()),
            processing_mode: self.processing_mode.selected(),
            classification: self.classification.selected(),
            month_format: self.month_format.selected(),
            classify_by_type: self.classify_by_type.value(),
            operation: self.operation.selected(),
            deduplicate: self.deduplicate.value(),
            dry_run: self.dry_run.value(),
            verbose: false,
            state_file: None,
            threads: stock.threads,
            large_file_threshold: stock.large_file_threshold,
            image_extensions: stock.image_extensions,
            video_extensions: stock.video_extensions,
            raw_extensions: stock.raw_extensions,
        }
    }

    /// Whether a character disqualifies a configuration name.
    pub open spec fn bad_name_char(c: char) -> bool {
        c == '/' || c == '\\' || c == '.'
    }

    /// Validate the form: the name must be present and clean in the
    /// creation flow, and both directories must be given. The result
    /// is accepted exactly when nothing is wrong.
    pub fn validate_form(&self, lang: Language) -> (r: Result<(), String>)
        ensures
            r is Ok <==> ((self.skip_confirm_run || (trim_spec(self.config_name@).len() > 0 && !(
            exists|i: int|
                0 <= i < self.config_name@.len() && Self::bad_name_char(
                    #[trigger] self.config_name@[i],
                ))) ) && trim_spec(self.input_dirs@).len() > 0 && trim_spec(
                self.output_dir@,
            ).len() > 0),
            r matches Err(m) ==> m@.len() > 0,
    {
        proof {
            reveal_strlit("Configuration name cannot be empty");
            reveal_strlit("配置名称不能为空");
            reveal_strlit("Configuration name cannot contain /, \\, or .");
            reveal_strlit("配置名称不能包含 /、\\ 或 .");
            reveal_strlit("No input directories specified.");
            reveal_strlit("未指定输入目录。");
            reveal_strlit("Enter output directory");
            reveal_strlit("输入目标目录");
        }
        let mut errors: Vec<String> = Vec::new();
        if !self.skip_confirm_run {
            let name_trim = trim_chars(&text::str_to_chars(self.config_name.as_str()));
            if name_trim.len() == 0 {
                errors.push(String::from_str(Strings::config_name_empty_error(lang)));
                proof {
                    assert((errors@.last())@.len() > 0);
                }
            } else {
                let chars = text::str_to_chars(self.config_name.as_str());
                let n = chars.len();
                let mut bad = false;
                let mut i: usize = 0;
                while i < n
                    invariant
                        i <= n,
                        n == chars@.len(),
                        chars@ == self.config_name@,
                        bad == (exists|j: int|
                            0 <= j < i && Self::bad_name_char(#[trigger] chars@[j])),
                    decreases n - i,
                {
                    if chars[i] == '/' || chars[i] == '\\' || chars[i] == '.' {
                        bad = true;
                    }
                    i += 1;
                }
                if bad {
                    errors.push(
                        String::from_str(Strings::config_name_invalid_chars_error(lang)),
                    );
                    proof {
                        assert((errors@.last())@.len() > 0);
                    }
                }
            }
        }
        if trim_chars(&text::str_to_chars(self.input_dirs.as_str())).len() == 0 {
            errors.push(String::from_str(Strings::no_input_dirs_specified(lang)));
            proof {
                assert((errors@.last())@.len() > 0);
            }
        }
        if trim_chars(&text::str_to_chars(self.output_dir.as_str())).len() == 0 {
            errors.push(String::from_str(Strings::enter_output_directory(lang)));
            proof {
                assert((errors@.last())@.len() > 0);
            }
        }
        proof {
            assert(forall|j: int| 0 <= j < errors@.len() ==> (#[trigger] errors@[j]@).len() > 0);
        }
        if errors.len() == 0 {
            Ok(())
        } else {
            let mut msg = String::new();
            let n = errors.len();
            let mut i: usize = 0;
            while i < n
                invariant
                    i <= n,
                    n == errors@.len(),
                    i > 0 ==> msg@.len() > 0,
                    forall|j: int| 0 <= j < n ==> (#[trigger] errors@[j]@).len() > 0,
                decreases n - i,
            {
                if i > 0 {
                    msg.append("\n");
                }
                msg.append(errors[i].as_str());
                i += 1;
            }
            proof {
                assert(n > 0);
            }
            Err(msg)
        }
    }

    /// The file path a configuration of this name saves to.
    pub fn config_file_path(&self, config_dir: &str) -> (r: String)
        ensures
            r@ == config_dir@ + "/"@ + self.config_name@ + ".toml"@,
    {
        String::from_str(config_dir).concat("/").concat(self.config_name.as_str()).concat(
            ".toml",
        )
    }

    /// Note a completed save.
    pub fn mark_saved(&mut self, path: String)
        ensures
            final(self).config_saved,
            final(self).config_path matches Some(p) && p@ == path@,
    {
        self.config_saved = true;
        self.config_path = Some(path);
    }

    /// Replace the offered configurations and keep the selection in
    /// range: nothing selectable leaves nothing selected.
    pub fn refresh_configs(&mut self, configs: Vec<String>)
        ensures
            final(self).available_configs@ == configs@,
            configs@.len() == 0 ==> final(self).selected_config is None,
            configs@.len() > 0 ==> (final(self).selected_config matches Some(i) && i
                < configs@.len()),
    {
        self.available_configs = configs;
        if self.available_configs.len() == 0 {
            self.selected_config = None;
        } else {
            let max_index = self.available_configs.len() - 1;
            let index = match self.selected_config {
                Some(i) => if i < max_index {
                    i
                } else {
                    max_index
                },
                None => 0,
            };
            self.selected_config = Some(index);
        }
    }

    /// The selected option index at the current step.
    pub fn selected_value(&self) -> (r: usize)
        ensures
            r == (if self.step == ConfigStep::ConfirmRun || self.step
                == ConfigStep::ConfigSelect {
                match self.selected_config {
                    Some(i) => i as int,
                    None => 0int,
                }
            } else {
                0int
            }),
    {
        match self.step {
            ConfigStep::ConfirmRun | ConfigStep::ConfigSelect => match self.selected_config {
                Some(i) => i,
                None => 0,
            },
            _ => 0,
        }
    }

    /// The number of options at the current step.
    pub fn option_count(&self) -> (r: usize)
        ensures
            r == match self.step {
                ConfigStep::ConfigSelect => if self.available_configs@.len() >= 1 {
                    self.available_configs@.len() as int
                } else {
                    1int
                },
                ConfigStep::ConfirmRun => 2int,
                _ => 0int,
            },
    {
        match self.step {
            ConfigStep::ConfigSelect => {
                let n = self.available_configs.len();
                if n >= 1 {
                    n
                } else {
                    1
                }
            },
            ConfigStep::ConfirmRun => 2,
            _ => 0,
        }
    }

    /// Set the selected option index, on the steps that have options.
    pub fn set_selected(&mut self, index: usize)
        ensures
            (old(self).step == ConfigStep::ConfirmRun || old(self).step
                == ConfigStep::ConfigSelect) ==> final(self).selected_config == Some(index),
            !(old(self).step == ConfigStep::ConfirmRun || old(self).step
                == ConfigStep::ConfigSelect) ==> final(self).selected_config == old(
                self,
            ).selected_config,
            final(self).step == old(self).step,
    {
        match self.step {
            ConfigStep::ConfirmRun | ConfigStep::ConfigSelect => {
                self.selected_config = Some(index);
            },
            _ => {},
        }
    }

    /// Bring the selection into range for the current step.
    pub fn ensure_selection(&mut self)
        ensures
            final(self).step == old(self).step,
            old(self).step == ConfigStep::ConfirmRun ==> (final(self).selected_config matches Some(
                i,
            ) && i <= 1),
            old(self).step == ConfigStep::ConfigSelect && old(self).available_configs@.len() == 0
                ==> final(self).selected_config is None,
            old(self).step == ConfigStep::ConfigSelect && old(self).available_configs@.len() > 0
                ==> (final(self).selected_config matches Some(i) && i < old(
                self,
            ).available_configs@.len()),
            final(self).available_configs@ == old(self).available_configs@,
    {
        match self.step {
            ConfigStep::ConfirmRun => {
                let index = match self.selected_config {
                    Some(index) => if index <= 1 {
                        index
                    } else {
                        0
                    },
                    None => 0,
                };
                self.selected_config = Some(index);
            },
            ConfigStep::ConfigSelect => {
                if self.available_configs.len() == 0 {
                    self.selected_config = None;
                } else {
                    let max_index = self.available_configs.len() - 1;
                    let index = match self.selected_config {
                        Some(i) => if i < max_index {
                            i
                        } else {
                            max_index
                        },
                        None => 0,
                    };
                    self.selected_config = Some(index);
                }
            },
            _ => {},
        }
    }

    /// Step to the next option, wrapping.
    pub fn navigate_next(&mut self)
        ensures
            final(self).step == old(self).step,
            final(self).available_configs@ == old(self).available_configs@,
    {
        match self.step {
            ConfigStep::ConfirmRun | ConfigStep::ConfigSelect => {
                self.ensure_selection();
                if let Some(idx) = self.selected_config {
                    let count = self.option_count();
                    if count > 0 && idx < count {
                        self.selected_config = Some((idx + 1) % count);
                    } else {
                        self.selected_config = Some(0);
                    }
                }
            },
            _ => {},
        }
    }

    /// Step to the previous option, wrapping.
    pub fn navigate_prev(&mut self)
        ensures
            final(self).step == old(self).step,
            final(self).available_configs@ == old(self).available_configs@,
    {
        match self.step {
            ConfigStep::ConfirmRun | ConfigStep::ConfigSelect => {
                self.ensure_selection();
                if let Some(idx) = self.selected_config {
                    let count = self.option_count();
                    if count > 0 {
                        if idx == 0 {
                            self.selected_config = Some(count - 1);
                        } else if idx < count {
                            self.selected_config = Some(idx - 1);
                        } else {
                            self.selected_config = Some(0);
                        }
                    }
                }
            },
            _ => {},
        }
    }

    /// Step the form to the next row, counting the trailing action row.
    pub fn navigate_form_next(&mut self)
        ensures
            final(self).step == old(self).step,
    {
        let visible_count = self.form_state.visible_fields_count(self) + 1;
        if self.form_state.selected_field >= visible_count {
            self.form_state.selected_field = visible_count - 1;
        }
        self.form_state.next_field(visible_count);
    }

    /// Step the form to the previous row, counting the trailing action
    /// row.
    pub fn navigate_form_prev(&mut self)
        ensures
            final(self).step == old(self).step,
    {
        let visible_count = self.form_state.visible_fields_count(self) + 1;
        if self.form_state.selected_field >= visible_count {
            self.form_state.selected_field = visible_count - 1;
        }
        self.form_state.prev_field(visible_count);
    }

    /// Whether the trailing action row is selected.
    pub fn is_next_selected(&self) -> (r: bool)
    {
        let visible_count = self.form_state.visible_fields_count(self);
        self.form_state.selected_field >= visible_count
    }

    /// The visible fields, in form order.
    pub fn get_visible_fields(&self) -> (r: Vec<FormField>)
        ensures
            forall|i: int|
                0 <= i < r@.len() ==> (#[trigger] r@[i]).is_visible_spec(*self),
    {
        let all = FormField::all();
        let n = all.len();
        let mut out: Vec<FormField> = Vec::new();
        let mut i: usize = 0;
        while i < n
            invariant
                i <= n,
                n == 11,
                n == all@.len(),
                all@ == FormField::all_spec(),
                forall|k: int|
                    0 <= k < out@.len() ==> (#[trigger] out@[k]).is_visible_spec(*self),
            decreases n - i,
        {
            if all[i].is_visible(self) {
                out.push(all[i]);
            }
            i += 1;
        }
        out
    }

    /// The currently selected visible field, when one is selected.
    pub fn selected_form_field(&self) -> (r: Option<FormField>)
        ensures
            r matches Some(f) ==> f.is_visible_spec(*self),
    {
        let visible = self.get_visible_fields();
        if self.form_state.selected_field < visible.len() {
            Some(visible[self.form_state.selected_field])
        } else {
            None
        }
    }

    /// Cycle the selected option field forward.
    pub fn toggle_current_field_next(&mut self)
        ensures
            final(self).step == old(self).step,
    {
        match self.selected_form_field() {
            Some(FormField::ProcessingMode) => self.processing_mode.next(),
            Some(FormField::Classification) => self.classification.next(),
            Some(FormField::MonthFormat) => self.month_format.next(),
            Some(FormField::FileOperation) => self.operation.next(),
            Some(FormField::Deduplication) => self.deduplicate.next(),
            Some(FormField::DryRun) => self.dry_run.next(),
            Some(FormField::ClassifyByType) => self.classify_by_type.next(),
            _ => {},
        }
    }

    /// Cycle the selected option field backward.
    pub fn toggle_current_field_prev(&mut self)
        ensures
            final(self).step == old(self).step,
    {
        match self.selected_form_field() {
            Some(FormField::ProcessingMode) => self.processing_mode.prev(),
            Some(FormField::Classification) => self.classification.prev(),
            Some(FormField::MonthFormat) => self.month_format.prev(),
            Some(FormField::FileOperation) => self.operation.prev(),
            Some(FormField::Deduplication) => self.deduplicate.prev(),
            Some(FormField::DryRun) => self.dry_run.prev(),
            Some(FormField::ClassifyByType) => self.classify_by_type.prev(),
            _ => {},
        }
    }

    /// Write a typed value into the selected input field.
    pub fn update_field_from_input(&mut self, value: String)
        ensures
            final(self).step == old(self).step,
    {
        match self.selected_form_field() {
            Some(FormField::ConfigName) => {
                self.config_name = value;
            },
            Some(FormField::InputDirs) => {
                self.input_dirs = value;
            },
            Some(FormField::OutputDir) => {
                self.output_dir = value;
            },
            Some(FormField::ExcludeDirs) => {
                self.exclude_dirs = value;
            },
            _ => {},
        }
    }

    /// Enter input mode seeded with the selected field's value.
    pub fn enter_input_mode_for_field(&mut self)
        ensures
            final(self).step == old(self).step,
    {
        let value = match self.selected_form_field() {
            Some(FormField::ConfigName) => self.config_name.clone(),
            Some(FormField::InputDirs) => self.input_dirs.clone(),
            Some(FormField::OutputDir) => self.output_dir.clone(),
            Some(FormField::ExcludeDirs) => self.exclude_dirs.clone(),
            _ => {
                return ;
            },
        };
        self.form_state.enter_input_mode(value.as_str());
    }

    /// The input buffer's text.
    pub fn input_buffer(&self) -> (r: String)
        ensures
            r@ == self.form_state.input.buffer_spec(),
    {
        self.form_state.input_value()
    }

    /// The input cursor, as a character index.
    pub fn input_cursor(&self) -> (r: usize)
        ensures
            r == self.form_state.input.cursor_spec(),
    {
        self.form_state.input_cursor()
    }

    /// Replace the input buffer and cursor.
    pub fn set_input_buffer(&mut self, buffer: String, cursor: usize)
        ensures
            final(self).form_state.input.buffer_spec() == buffer@,
            final(self).form_state.input.wf(),
            final(self).step == old(self).step,
    {
        self.form_state.input.set_buffer(buffer, cursor);
    }

    /// Leave input mode, writing the buffer into the selected field.
    pub fn exit_input_mode_apply(&mut self)
        ensures
            !final(self).form_state.in_input_mode,
    {
        let value = self.form_state.input_value();
        self.update_field_from_input(value);
        self.form_state.exit_input_mode();
    }

    /// Leave input mode, discarding the buffer.
    pub fn exit_input_mode_cancel(&mut self)
        ensures
            !final(self).form_state.in_input_mode,
    {
        self.form_state.exit_input_mode();
    }

    /// Whether typed input is being collected.
    pub fn is_in_input_mode(&self) -> (r: bool)
        ensures
            r == self.form_state.in_input_mode,
    {
        self.form_state.in_input_mode
    }

    /// Type a character into the input buffer.
    pub fn input_insert_char(&mut self, c: char)
        requires
            old(self).form_state.input.wf(),
            old(self).form_state.input.buffer_spec().len() < usize::MAX,
        ensures
            final(self).form_state.input.wf(),
    {
        self.form_state.input.insert_char(c);
    }

    /// Erase the character before the cursor.
    pub fn input_backspace(&mut self)
        requires
            old(self).form_state.input.wf(),
        ensures
            final(self).form_state.input.wf(),
    {
        self.form_state.input.delete_before_cursor();
    }

    /// Erase the character after the cursor.
    pub fn input_delete(&mut self)
        requires
            old(self).form_state.input.wf(),
        ensures
            final(self).form_state.input.wf(),
    {
        self.form_state.input.delete_after_cursor();
    }

    /// Step the input cursor left.
    pub fn input_move_left(&mut self)
        requires
            old(self).form_state.input.wf(),
        ensures
            final(self).form_state.input.wf(),
    {
        self.form_state.input.move_cursor_left();
    }

    /// Step the input cursor right.
    pub fn input_move_right(&mut self)
        requires
            old(self).form_state.input.wf(),
        ensures
            final(self).form_state.input.wf(),
    {
        self.form_state.input.move_cursor_right();
    }

    /// Jump the input cursor to the start.
    pub fn input_move_to_start(&mut self)
        ensures
            final(self).form_state.input.wf(),
    {
        self.form_state.input.move_cursor_to_start();
    }

    /// Jump the input cursor to the end.
    pub fn input_move_to_end(&mut self)
        ensures
            final(self).form_state.input.wf(),
    {
        self.form_state.input.move_cursor_to_end();
    }

    /// Seed the form from a loaded configuration: directory lists are
    /// joined with semicolons, the name comes from the file's stem.
    pub fn init_from_config(&mut self, config: &Config, config_path: &str)
        ensures
            final(self).output_dir@ == config.output_dir@,
            final(self).processing_mode.selected_spec() == config.processing_mode,
            final(self).classification.selected_spec() == config.classification,
            final(self).month_format.selected_spec() == config.month_format,
            final(self).operation.selected_spec() == config.operation,
            final(self).deduplicate.value_spec() == config.deduplicate,
            final(self).dry_run.value_spec() == config.dry_run,
            final(self).classify_by_type.value_spec() == config.classify_by_type,
            final(self).config_name@ == crate::time::filename::strip_ext_spec(
                crate::process::file_name_of(config_path@),
            ),
    {
        self.input_dirs = join_paths(&config.input_dirs);
        self.output_dir = config.output_dir.clone();
        self.exclude_dirs = join_paths(&config.exclude_dirs);
        self.processing_mode.select(config.processing_mode);
        self.classification.select(config.classification);
        self.month_format.select(config.month_format);
        self.operation.select(config.operation);
        self.deduplicate.select_by_index(
            if config.deduplicate {
                1
            } else {
                0
            },
        );
        self.dry_run.select_by_index(
            if config.dry_run {
                1
            } else {
                0
            },
        );
        self.classify_by_type.select_by_index(
            if config.classify_by_type {
                1
            } else {
                0
            },
        );
        let fname = crate::process::file_name_part(config_path);
        let stem = crate::time::filename::strip_extension(&fname);
        self.config_name = text::chars_to_string(&stem);
    }
}

/// Join a path list with `"; "` separators.
pub open spec fn join_paths_spec(paths: Seq<String>) -> Seq<char>
    decreases paths.len(),
{
    if paths.len() == 0 {
        Seq::empty()
    } else if paths.len() == 1 {
        paths[0]@
    } else {
        join_paths_spec(paths.drop_last()) + "; "@ + paths.last()@
    }
}

/// Join a path list with `"; "` separators.
pub fn join_paths(paths: &Vec<String>) -> (r: String)
    ensures
        r@ == join_paths_spec(paths@),
{
    let n = paths.len();
    let mut out: Vec<char> = Vec::new();
    let mut i: usize = 0;
    while i < n
        invariant
            i <= n,
            n == paths@.len(),
            out@ == join_paths_spec(paths@.take(i as int)),
        decreases n - i,
    {
        if i > 0 {
            text::push_str_seq(&mut out, "; ");
        }
        text::push_str_seq(&mut out, paths[i].as_str());
        i += 1;
        proof {
            assert(paths@.take(i as int).drop_last() =~= paths@.take(i as int - 1));
            assert(paths@.take(i as int).last() == paths@[i as int - 1]);
            if i == 1 {
                assert(out@ =~= join_paths_spec(paths@.take(1)));
            } else {
                assert(out@ =~= join_paths_spec(paths@.take(i as int)));
            }
        }
    }
    proof {
        assert(paths@.take(n as int) =~= paths@);
    }
    text::chars_to_string(&out)
}

} // verus!
