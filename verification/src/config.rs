//! Configuration types: processing modes, classification rules, file
//! operations, recognized extension sets and the run configuration.
//!
//! Paths are carried as plain strings with `/` separators.

use vstd::prelude::*;
use crate::text;

verus! {

/// Processing mode for handling files.
#[derive(Debug, Clone, Copy, PartialEq, Eq, Structural)]
pub enum ProcessingMode {
    /// Process all files, overwriting existing files in the target.
    Full,
    /// Process all files, but skip any whose content already exists in
    /// the target.
    Supplement,
    /// Only process source files newer than the newest file in the
    /// target, by timestamp.
    Incremental,
}

/// Classification rule for organizing files.
#[derive(Debug, Clone, Copy, PartialEq, Eq, Structural)]
pub enum ClassificationRule {
    /// No classification: files go to the output root.
    NoClassification,
    /// Classify by year: `YYYY/`.
    Year,
    /// Classify by year and month.
    YearMonth,
}

/// Month format for year-month classification.
#[derive(Debug, Clone, Copy, PartialEq, Eq, Structural)]
pub enum MonthFormat {
    /// Nested `YYYY/MM/`.
    Nested,
    /// Combined `YYYY-MM/`.
    Combined,
}

/// File type for type classification.
#[derive(Debug, Clone, Copy, PartialEq, Eq, Structural)]
pub enum FileType {
    /// Photo files.
    Photos,
    /// Video files.
    Videos,
    /// RAW image files, nested under the photo folder.
    Raw,
}

impl FileType {
    /// The folder name for this file type.
    pub fn folder_name(&self) -> (r: &'static str)
        ensures
            r@ == self.folder_name_spec(),
    {
        match self {
            FileType::Photos => "Photos",
            FileType::Videos => "Videos",
            FileType::Raw => "Raw",
        }
    }

    /// The folder name for this file type.
    pub open spec fn folder_name_spec(self) -> Seq<char> {
        match self {
            FileType::Photos => "Photos"@,
            FileType::Videos => "Videos"@,
            FileType::Raw => "Raw"@,
        }
    }
}

/// File operation mode.
#[derive(Debug, Clone, Copy, PartialEq, Eq, Structural)]
pub enum FileOperation {
    /// Copy files to the destination.
    Copy,
    /// Move files to the destination.
    Move,
    /// Create symbolic links.
    Symlink,
    /// Create hard links.
    Hardlink,
}

/// A string list holds the given word.
pub open spec fn list_contains(list: Seq<String>, w: Seq<char>) -> bool {
    exists|i: int| 0 <= i < list.len() && #[trigger] list[i]@ == w
}

/// Membership of a word in a string list.
fn vec_contains_str(list: &Vec<String>, w: &String) -> (r: bool)
    ensures
        r == list_contains(list@, w@),
{
    let n = list.len();
    let mut i: usize = 0;
    while i < n
        invariant
            i <= n,
            n == list@.len(),
            forall|k: int| 0 <= k < i ==> #[trigger] list@[k]@ != w@,
        decreases n - i,
    {
        if list[i].eq(w) {
            return true;
        }
        i += 1;
    }
    false
}

/// Configuration for a run of the organizer.
#[derive(Debug, Clone)]
pub struct Config {
    /// Input directories to scan for media files.
    pub input_dirs: Vec<String>,
    /// Output directory for organized files.
    pub output_dir: String,
    /// Directories excluded from scanning: absolute paths or folder
    /// names.
    pub exclude_dirs: Vec<String>,
    /// Processing mode.
    pub processing_mode: ProcessingMode,
    /// Classification rule.
    pub classification: ClassificationRule,
    /// Month format for year-month classification.
    pub month_format: MonthFormat,
    /// Add a type folder after the time segments.
    pub classify_by_type: bool,
    /// File operation mode.
    pub operation: FileOperation,
    /// Enable content deduplication.
    pub deduplicate: bool,
    /// State file path for incremental processing.
    pub state_file: Option<String>,
    /// Worker count; zero means automatic.
    pub threads: usize,
    /// Size above which files are sample-hashed.
    pub large_file_threshold: u64,
    /// Report what would happen without touching files.
    pub dry_run: bool,
    /// Verbose output.
    pub verbose: bool,
    /// Recognized image extensions.
    pub image_extensions: Vec<String>,
    /// Recognized video extensions.
    pub video_extensions: Vec<String>,
    /// Recognized RAW extensions.
    pub raw_extensions: Vec<String>,
}

/// The default image extension list.
pub open spec fn default_image_extensions() -> Seq<Seq<char>> {
    seq![
        "jpg"@,
        "jpeg"@,
        "png"@,
        "gif"@,
        "bmp"@,
        "webp"@,
        "heic"@,
        "heif"@,
        "avif"@,
        "tiff"@,
        "tif"@,
    ]
}

/// The default video extension list.
pub open spec fn default_video_extensions() -> Seq<Seq<char>> {
    seq!["mp4"@, "mov"@, "avi"@, "mkv"@, "wmv"@, "flv"@, "m4v"@, "3gp"@]
}

/// The default RAW extension list.
pub open spec fn default_raw_extensions() -> Seq<Seq<char>> {
    seq![
        "raw"@,
        "arw"@,
        "cr2"@,
        "cr3"@,
        "nef"@,
        "orf"@,
        "rw2"@,
        "dng"@,
        "raf"@,
        "srw"@,
        "pef"@,
    ]
}

impl Default for Config {
    /// The stock configuration: incremental mode, no classification,
    /// copying, deduplication on, a 100 MiB sampling threshold, and the
    /// stock extension sets.
    fn default() -> (r: Self)
        ensures
            r.input_dirs@.len() == 0,
            r.output_dir@ == "output"@,
            r.exclude_dirs@.len() == 0,
            r.processing_mode == ProcessingMode::Incremental,
            r.classification == ClassificationRule::NoClassification,
            r.month_format == MonthFormat::Nested,
            r.classify_by_type == false,
            r.operation == FileOperation::Copy,
            r.deduplicate == true,
            r.state_file is None,
            r.threads == 0,
            r.large_file_threshold == 104857600,
            r.dry_run == false,
            r.verbose == false,
            r.image_extensions.deep_view() == default_image_extensions(),
            r.video_extensions.deep_view() == default_video_extensions(),
            r.raw_extensions.deep_view() == default_raw_extensions(),
    {
        let image_extensions: Vec<String> = vec![
            String::from_str("jpg"),
            String::from_str("jpeg"),
            String::from_str("png"),
            String::from_str("gif"),
            String::from_str("bmp"),
            String::from_str("webp"),
            String::from_str("heic"),
            String::from_str("heif"),
            String::from_str("avif"),
            String::from_str("tiff"),
            String::from_str("tif"),
        ];
        let video_extensions: Vec<String> = vec![
            String::from_str("mp4"),
            String::from_str("mov"),
            String::from_str("avi"),
            String::from_str("mkv"),
            String::from_str("wmv"),
            String::from_str("flv"),
            String::from_str("m4v"),
            String::from_str("3gp"),
        ];
        let raw_extensions: Vec<String> = vec![
            String::from_str("raw"),
            String::from_str("arw"),
            String::from_str("cr2"),
            String::from_str("cr3"),
            String::from_str("nef"),
            String::from_str("orf"),
            String::from_str("rw2"),
            String::from_str("dng"),
            String::from_str("raf"),
            String::from_str("srw"),
            String::from_str("pef"),
        ];
        proof {
            assert(image_extensions.deep_view() =~= default_image_extensions());
            assert(video_extensions.deep_view() =~= default_video_extensions());
            assert(raw_extensions.deep_view() =~= default_raw_extensions());
        }
        Config {
            input_dirs: Vec::new(),
            output_dir: String::from_str("output"),
            exclude_dirs: Vec::new(),
            processing_mode: ProcessingMode::Incremental,
            classification: ClassificationRule::NoClassification,
            month_format: MonthFormat::Nested,
            classify_by_type: false,
            operation: FileOperation::Copy,
            deduplicate: true,
            state_file: None,
            threads: 0,
            large_file_threshold: 104857600,
            dry_run: false,
            verbose: false,
            image_extensions,
            video_extensions,
            raw_extensions,
        }
    }
}

impl Config {
    /// The lowercased extension is in the image or RAW list.
    pub open spec fn is_image_spec(self, ext: Seq<char>) -> bool {
        list_contains(self.image_extensions@, text::to_lower_seq(ext)) || list_contains(
            self.raw_extensions@,
            text::to_lower_seq(ext),
        )
    }

    /// The lowercased extension is in the video list.
    pub open spec fn is_video_spec(self, ext: Seq<char>) -> bool {
        list_contains(self.video_extensions@, text::to_lower_seq(ext))
    }

    /// The lowercased extension is in the RAW list.
    pub open spec fn is_raw_spec(self, ext: Seq<char>) -> bool {
        list_contains(self.raw_extensions@, text::to_lower_seq(ext))
    }

    /// Whether an extension names a supported image format, RAW
    /// included.
    pub fn is_image(&self, ext: &str) -> (r: bool)
        ensures
            r == self.is_image_spec(ext@),
    {
        let lower = text::chars_to_string(&text::to_lower_chars(&text::str_to_chars(ext)));
        vec_contains_str(&self.image_extensions, &lower) || vec_contains_str(
            &self.raw_extensions,
            &lower,
        )
    }

    /// Whether an extension names a supported video format.
    pub fn is_video(&self, ext: &str) -> (r: bool)
        ensures
            r == self.is_video_spec(ext@),
    {
        let lower = text::chars_to_string(&text::to_lower_chars(&text::str_to_chars(ext)));
        vec_contains_str(&self.video_extensions, &lower)
    }

    /// Whether an extension names a supported RAW format.
    pub fn is_raw(&self, ext: &str) -> (r: bool)
        ensures
            r == self.is_raw_spec(ext@),
    {
        let lower = text::chars_to_string(&text::to_lower_chars(&text::str_to_chars(ext)));
        vec_contains_str(&self.raw_extensions, &lower)
    }

    /// The HEIF-container formats, which share one metadata layout.
    pub fn is_heif_container(&self, ext: &str) -> (r: bool)
        ensures
            r == (text::to_lower_seq(ext@) == "heic"@ || text::to_lower_seq(ext@) == "heif"@
                || text::to_lower_seq(ext@) == "avif"@),
    {
        let lower = text::chars_to_string(&text::to_lower_chars(&text::str_to_chars(ext)));
        lower.eq(&String::from_str("heic")) || lower.eq(&String::from_str("heif")) || lower.eq(
            &String::from_str("avif"),
        )
    }

    /// The HEIF formats proper.
    pub fn is_heif(&self, ext: &str) -> (r: bool)
        ensures
            r == (text::to_lower_seq(ext@) == "heic"@ || text::to_lower_seq(ext@) == "heif"@),
    {
        let lower = text::chars_to_string(&text::to_lower_chars(&text::str_to_chars(ext)));
        lower.eq(&String::from_str("heic")) || lower.eq(&String::from_str("heif"))
    }

    /// The AVIF format.
    pub fn is_avif(&self, ext: &str) -> (r: bool)
        ensures
            r == (text::to_lower_seq(ext@) == "avif"@),
    {
        let lower = text::chars_to_string(&text::to_lower_chars(&text::str_to_chars(ext)));
        lower.eq(&String::from_str("avif"))
    }

    /// Whether an extension is supported at all.
    pub fn is_supported(&self, ext: &str) -> (r: bool)
        ensures
            r == (self.is_image_spec(ext@) || self.is_video_spec(ext@)),
    {
        self.is_image(ext) || self.is_video(ext)
    }

    /// The file type of an extension: RAW wins over video, video over
    /// image.
    pub open spec fn get_file_type_spec(self, ext: Seq<char>) -> Option<FileType> {
        if self.is_raw_spec(ext) {
            Some(FileType::Raw)
        } else if self.is_video_spec(ext) {
            Some(FileType::Videos)
        } else if list_contains(self.image_extensions@, text::to_lower_seq(ext)) {
            Some(FileType::Photos)
        } else {
            None
        }
    }

    /// The file type for a given extension.
    pub fn get_file_type(&self, ext: &str) -> (r: Option<FileType>)
        ensures
            r == self.get_file_type_spec(ext@),
    {
        let lower = text::chars_to_string(&text::to_lower_chars(&text::str_to_chars(ext)));
        if vec_contains_str(&self.raw_extensions, &lower) {
            Some(FileType::Raw)
        } else if vec_contains_str(&self.video_extensions, &lower) {
            Some(FileType::Videos)
        } else if vec_contains_str(&self.image_extensions, &lower) {
            Some(FileType::Photos)
        } else {
            None
        }
    }

    /// The state file path: the configured one, or the stock name under
    /// the output directory.
    pub fn get_state_file(&self) -> (r: String)
        ensures
            match self.state_file {
                Some(p) => r@ == p@,
                None => r@ == self.output_dir@ + "/.gallery_sorter_state.json"@,
            },
    {
        match &self.state_file {
            Some(p) => p.clone(),
            None => String::from_str(self.output_dir.as_str()).concat(
                "/.gallery_sorter_state.json",
            ),
        }
    }

    /// A commented sample configuration file.
    pub fn sample_config() -> (r: String)
        ensures
            r@.len() > 0,
    {
        let s = String::from_str(
            "# Gallery Sorter Configuration File\n# This file uses TOML format (https://toml.io)\n\n# Input directories to scan for media files\ninput_dirs = [\n    \"D:/Photos\",\n    \"D:/Videos\",\n]\n\n# Output directory for organized files\noutput_dir = \"D:/Sorted\"\n\n# Directories to exclude from scanning\nexclude_dirs = [\n    \".sync\",\n    \".thumbnails\",\n    \"@eaDir\",\n]\n\n# Processing mode: \"full\", \"supplement\", or \"incremental\"\nprocessing_mode = \"incremental\"\n\n# Classification rule: \"none\", \"year\", or \"year-month\"\nclassification = \"year-month\"\n\n# Month format: \"nested\" or \"combined\"\nmonth_format = \"nested\"\n\n# Classify by file type (Photos/Videos, RAW under Photos/Raw)\nclassify_by_type = false\n\n# File operation: \"copy\", \"move\", \"symlink\", or \"hardlink\"\noperation = \"copy\"\n\n# Enable file deduplication (skip duplicate files)\ndeduplicate = true\n\n# Number of threads for parallel processing (0 = auto-detect)\nthreads = 0\n\n# Large file threshold in bytes (files larger use sampled hashing)\nlarge_file_threshold = 104857600\n\n# Dry run mode - show what would be done without actually doing it\ndry_run = false\n\n# Verbose output - show detailed processing information\nverbose = false\n\n# Supported file extensions (customize as needed)\nimage_extensions = [\"jpg\", \"jpeg\", \"png\", \"gif\", \"bmp\", \"webp\", \"heic\", \"heif\", \"avif\", \"tiff\", \"tif\"]\nvideo_extensions = [\"mp4\", \"mov\", \"avi\", \"mkv\", \"wmv\", \"flv\", \"m4v\", \"3gp\"]\nraw_extensions = [\"raw\", \"arw\", \"cr2\", \"cr3\", \"nef\", \"orf\", \"rw2\", \"dng\", \"raf\", \"srw\", \"pef\"]\n",
        );
        proof {
            reveal_strlit(
                "# Gallery Sorter Configuration File\n# This file uses TOML format (https://toml.io)\n\n# Input directories to scan for media files\ninput_dirs = [\n    \"D:/Photos\",\n    \"D:/Videos\",\n]\n\n# Output directory for organized files\noutput_dir = \"D:/Sorted\"\n\n# Directories to exclude from scanning\nexclude_dirs = [\n    \".sync\",\n    \".thumbnails\",\n    \"@eaDir\",\n]\n\n# Processing mode: \"full\", \"supplement\", or \"incremental\"\nprocessing_mode = \"incremental\"\n\n# Classification rule: \"none\", \"year\", or \"year-month\"\nclassification = \"year-month\"\n\n# Month format: \"nested\" or \"combined\"\nmonth_format = \"nested\"\n\n# Classify by file type (Photos/Videos, RAW under Photos/Raw)\nclassify_by_type = false\n\n# File operation: \"copy\", \"move\", \"symlink\", or \"hardlink\"\noperation = \"copy\"\n\n# Enable file deduplication (skip duplicate files)\ndeduplicate = true\n\n# Number of threads for parallel processing (0 = auto-detect)\nthreads = 0\n\n# Large file threshold in bytes (files larger use sampled hashing)\nlarge_file_threshold = 104857600\n\n# Dry run mode - show what would be done without actually doing it\ndry_run = false\n\n# Verbose output - show detailed processing information\nverbose = false\n\n# Supported file extensions (customize as needed)\nimage_extensions = [\"jpg\", \"jpeg\", \"png\", \"gif\", \"bmp\", \"webp\", \"heic\", \"heif\", \"avif\", \"tiff\", \"tif\"]\nvideo_extensions = [\"mp4\", \"mov\", \"avi\", \"mkv\", \"wmv\", \"flv\", \"m4v\", \"3gp\"]\nraw_extensions = [\"raw\", \"arw\", \"cr2\", \"cr3\", \"nef\", \"orf\", \"rw2\", \"dng\", \"raf\", \"srw\", \"pef\"]\n",
            );
        }
        s
    }
}

} // verus!
