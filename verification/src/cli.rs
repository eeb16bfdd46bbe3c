//! Command-line argument merging.
//!
//! The parsed flags live here as plain optional values; reading them
//! from the real command line happens outside. Merging follows one
//! rule: a given flag overrides the configuration file.

use vstd::prelude::*;
use crate::config::{ClassificationRule, Config, FileOperation, MonthFormat, ProcessingMode};

verus! {

/// The command-line flags, each optional where the configuration file
/// may supply it instead.
#[derive(Debug, Clone)]
pub struct Cli {
    /// Path to a configuration file.
    pub config: Option<String>,
    /// Input directories.
    pub input: Option<Vec<String>>,
    /// Output directory.
    pub output: Option<String>,
    /// Processing mode.
    pub mode: Option<ProcessingMode>,
    /// Classification rule.
    pub classify: Option<ClassificationRule>,
    /// Month format.
    pub month_format: Option<MonthFormat>,
    /// File operation.
    pub operation: Option<FileOperation>,
    /// Disable deduplication.
    pub no_deduplicate: bool,
    /// State file path.
    pub state_file: Option<String>,
    /// Worker count.
    pub threads: Option<usize>,
    /// Large-file threshold in whole mebibytes.
    pub large_file_mb: Option<u64>,
    /// Dry-run mode.
    pub dry_run: bool,
    /// Verbose output.
    pub verbose: bool,
    /// Emit the log as structured records.
    pub json_log: bool,
}

impl Cli {
    /// The configuration file's stem, for log naming.
    pub fn config_name(&self) -> (r: Option<String>)
        ensures
            match self.config {
                Some(p) => r matches Some(name) && name@ == crate::time::filename::strip_ext_spec(
                    crate::process::file_name_of(p@),
                ),
                None => r is None,
            },
    {
        match &self.config {
            Some(p) => {
                let fname = crate::process::file_name_part(p.as_str());
                let stem = crate::time::filename::strip_extension(&fname);
                Some(crate::text::chars_to_string(&stem))
            },
            None => None,
        }
    }

    /// Overlay these flags onto a loaded configuration: every given
    /// flag wins, every absent one leaves the file's value standing.
    #[verifier::rlimit(100)]
    #[verifier::spinoff_prover]
    pub fn merge_with_config(&self, config: Config) -> (r: Config)
        requires
            self.large_file_mb matches Some(mb) ==> mb < 0x100000000000,
        ensures
            r.input_dirs@ == (if self.input is Some {
                self.input->0@
            } else {
                config.input_dirs@
            }),
            r.output_dir@ == (if self.output is Some {
                self.output->0@
            } else {
                config.output_dir@
            }),
            r.processing_mode == (if self.mode is Some {
                self.mode->0
            } else {
                config.processing_mode
            }),
            r.classification == (if self.classify is Some {
                self.classify->0
            } else {
                config.classification
            }),
            r.month_format == (if self.month_format is Some {
                self.month_format->0
            } else {
                config.month_format
            }),
            r.operation == (if self.operation is Some {
                self.operation->0
            } else {
                config.operation
            }),
            r.deduplicate == (if self.no_deduplicate {
                false
            } else {
                config.deduplicate
            }),
            r.state_file == (if self.state_file is Some {
                self.state_file
            } else {
                config.state_file
            }),
            r.threads == (if self.threads is Some {
                self.threads->0
            } else {
                config.threads
            }),
            r.large_file_threshold == (if self.large_file_mb is Some {
                self.large_file_mb->0 * 1048576
            } else {
                config.large_file_threshold as int
            }),
            r.dry_run == (config.dry_run || self.dry_run),
            r.verbose == (config.verbose || self.verbose),
            r.exclude_dirs@ == config.exclude_dirs@,
            r.classify_by_type == config.classify_by_type,
            r.image_extensions@ == config.image_extensions@,
            r.video_extensions@ == config.video_extensions@,
            r.raw_extensions@ == config.raw_extensions@,
    {
        let input_dirs = match &self.input {
            Some(inputs) => {
                let c = inputs.clone();
                proof {
                    assert forall|i: int| 0 <= i < inputs@.len() implies c@[i] == inputs@[i] by {
                        assert(vstd::pervasive::cloned::<String>(inputs[i], c[i]));
                    }
                    assert(c@ =~= inputs@);
                }
                c
            },
            None => config.input_dirs,
        };
        let output_dir = match &self.output {
            Some(o) => o.clone(),
            None => config.output_dir,
        };
        let state_file = match &self.state_file {
            Some(s) => Some(s.clone()),
            None => config.state_file,
        };
        Config {
            input_dirs,
            output_dir,
            exclude_dirs: config.exclude_dirs,
            processing_mode: match self.mode {
                Some(m) => m,
                None => config.processing_mode,
            },
            classification: match self.classify {
                Some(c) => c,
                None => config.classification,
            },
            month_format: match self.month_format {
                Some(m) => m,
                None => config.month_format,
            },
            classify_by_type: config.classify_by_type,
            operation: match self.operation {
                Some(o) => o,
                None => config.operation,
            },
            deduplicate: if self.no_deduplicate {
                false
            } else {
                config.deduplicate
            },
            state_file,
            threads: match self.threads {
                Some(n) => n,
                None => config.threads,
            },
            large_file_threshold: match self.large_file_mb {
                Some(mb) => mb * 1024 * 1024,
                None => config.large_file_threshold,
            },
            dry_run: config.dry_run || self.dry_run,
            verbose: config.verbose || self.verbose,
            image_extensions: config.image_extensions,
            video_extensions: config.video_extensions,
            raw_extensions: config.raw_extensions,
        }
    }

    /// Build a configuration from the flags alone: like merging onto
    /// the stock configuration, except that the mode defaults to full
    /// and the classification to year-month.
    #[verifier::rlimit(100)]
    #[verifier::spinoff_prover]
    pub fn to_config(&self) -> (r: Config)
        requires
            self.large_file_mb matches Some(mb) ==> mb < 0x100000000000,
        ensures
            r.processing_mode == (if self.mode is Some {
                self.mode->0
            } else {
                ProcessingMode::Full
            }),
            r.classification == (if self.classify is Some {
                self.classify->0
            } else {
                ClassificationRule::YearMonth
            }),
            r.month_format == (if self.month_format is Some {
                self.month_format->0
            } else {
                MonthFormat::Nested
            }),
            r.operation == (if self.operation is Some {
                self.operation->0
            } else {
                FileOperation::Copy
            }),
            r.deduplicate == !self.no_deduplicate,
            r.state_file == self.state_file,
            r.threads == (if self.threads is Some {
                self.threads->0
            } else {
                0usize
            }),
            r.large_file_threshold == (if self.large_file_mb is Some {
                self.large_file_mb->0 * 1048576
            } else {
                104857600int
            }),
            r.dry_run == self.dry_run,
            r.verbose == self.verbose,
            r.input_dirs@ == (if self.input is Some {
                self.input->0@
            } else {
                Seq::<String>::empty()
            }),
            r.output_dir@ == (if self.output is Some {
                self.output->0@
            } else {
                "output"@
            }),
            r.image_extensions.deep_view() == crate::config::default_image_extensions(),
            r.video_extensions.deep_view() == crate::config::default_video_extensions(),
            r.raw_extensions.deep_view() == crate::config::default_raw_extensions(),
    {
        let stock = Config::default();
        let input_dirs = match &self.input {
            Some(inputs) => {
                let c = inputs.clone();
                proof {
                    assert forall|i: int| 0 <= i < inputs@.len() implies c@[i] == inputs@[i] by {
                        assert(vstd::pervasive::cloned::<String>(inputs[i], c[i]));
                    }
                    assert(c@ =~= inputs@);
                }
                c
            },
            None => Vec::new(),
        };
        let output_dir = match &self.output {
            Some(o) => o.clone(),
            None => stock.output_dir,
        };
        let state_file = match &self.state_file {
            Some(s) => Some(s.clone()),
            None => None,
        };
        Config {
            input_dirs,
            output_dir,
            exclude_dirs: Vec::new(),
            processing_mode: match self.mode {
                Some(m) => m,
                None => ProcessingMode::Full,
            },
            classification: match self.classify {
                Some(c) => c,
                None => ClassificationRule::YearMonth,
            },
            month_format: match self.month_format {
                Some(m) => m,
                None => MonthFormat::Nested,
            },
            classify_by_type: false,
            operation: match self.operation {
                Some(o) => o,
                None => FileOperation::Copy,
            },
            deduplicate: !self.no_deduplicate,
            state_file,
            threads: match self.threads {
                Some(n) => n,
                None => 0,
            },
            large_file_threshold: match self.large_file_mb {
                Some(mb) => mb * 1024 * 1024,
                None => 104857600,
            },
            dry_run: self.dry_run,
            verbose: self.verbose,
            image_extensions: stock.image_extensions,
            video_extensions: stock.video_extensions,
            raw_extensions: stock.raw_extensions,
        }
    }
}

} // verus!
