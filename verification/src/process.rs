//! The per-file decision pipeline: filename priority scoring, duplicate
//! collapse, destination resolution under the processing-mode policies,
//! exclusion rules, result records and run statistics.
//!
//! The surrounding I/O — directory walks, hashing reads, the file
//! operations themselves — happens outside; everything here decides,
//! over plain values, and is verified.

use vstd::prelude::*;
use crate::text;
use crate::time::ExtractedTime;
use crate::time::filename::{strip_ext_spec, strip_extension, last_dot_from};

verus! {

/// Index of the last path separator at or before `i`; both slash kinds
/// count.
pub open spec fn last_sep_from(s: Seq<char>, i: int) -> Option<int>
    decreases i + 1,
{
    if i < 0 || i >= s.len() {
        None
    } else if s[i] == '/' || s[i] == '\\' {
        Some(i)
    } else {
        last_sep_from(s, i - 1)
    }
}

/// The file-name component of a path: everything after the last
/// separator.
pub open spec fn file_name_of(p: Seq<char>) -> Seq<char> {
    match last_sep_from(p, p.len() - 1) {
        Some(i) => p.subrange(i + 1, p.len() as int),
        None => p,
    }
}

/// The file-name component of a path.
pub fn file_name_part(p: &str) -> (r: Vec<char>)
    ensures
        r@ == file_name_of(p@),
{
    let chars = text::str_to_chars(p);
    let n = chars.len();
    let mut j: usize = n;
    while j > 0
        invariant
            j <= n,
            n == chars@.len(),
            chars@ == p@,
            last_sep_from(chars@, n as int - 1) == last_sep_from(chars@, j as int - 1),
        decreases j,
    {
        if chars[j - 1] == '/' || chars[j - 1] == '\\' {
            proof {
                assert(last_sep_from(chars@, j as int - 1) == Some(j as int - 1));
            }
            let mut out: Vec<char> = Vec::new();
            let mut k: usize = j;
            while k < n
                invariant
                    j <= k <= n,
                    n == chars@.len(),
                    chars@ == p@,
                    out@ == chars@.subrange(j as int, k as int),
                decreases n - k,
            {
                out.push(chars[k]);
                k += 1;
                assert(out@ =~= chars@.subrange(j as int, k as int));
            }
            return out;
        }
        j -= 1;
    }
    proof {
        assert(last_sep_from(chars@, -1) == None::<int>);
    }
    chars
}

/// The shapes that mark a filename as a copy of another file. Each is
/// matched against the filename's stem.
#[derive(Debug, Clone, Copy, PartialEq, Eq, Structural)]
pub enum CopyPattern {
    /// Contains the localized copy marker `" - \u{526f}\u{672c}"`.
    CopySuffixCjk,
    /// Ends with an underscore and digits.
    TrailingUnderscoreNumber,
    /// Ends with a space and digits.
    TrailingSpaceNumber,
    /// Ends with a parenthesized number.
    TrailingParenNumber,
    /// Contains `-`, space or `_` followed by the word `copy`, any case.
    CopyWord,
    /// Contains `-`, space or `_` followed by the word
    /// `\u{43a}\u{43e}\u{43f}\u{438}\u{44f}`, any case.
    CopyWordCyrillic,
}

/// Case-insensitive match of one character against a lowercase letter,
/// for the ASCII and Cyrillic letters the copy words use, whose case
/// forms differ by one fixed bit.
pub open spec fn eq_ci(c: char, lower: char) -> bool {
    c == lower || c as u32 + 32 == lower as u32
}

/// The word `copy` occurs at `i`, any case, preceded by `-`, space or
/// `_`.
pub open spec fn copy_word_at(s: Seq<char>, i: int) -> bool {
    &&& 0 <= i
    &&& i + 5 <= s.len()
    &&& (s[i] == '-' || s[i] == ' ' || s[i] == '_')
    &&& eq_ci(s[i + 1], 'c')
    &&& eq_ci(s[i + 2], 'o')
    &&& eq_ci(s[i + 3], 'p')
    &&& eq_ci(s[i + 4], 'y')
}

/// The Cyrillic copy word occurs at `i`, any case, preceded by `-`,
/// space or `_`.
pub open spec fn copy_word_cyrillic_at(s: Seq<char>, i: int) -> bool {
    &&& 0 <= i
    &&& i + 6 <= s.len()
    &&& (s[i] == '-' || s[i] == ' ' || s[i] == '_')
    &&& eq_ci(s[i + 1], '\u{43a}')
    &&& eq_ci(s[i + 2], '\u{43e}')
    &&& eq_ci(s[i + 3], '\u{43f}')
    &&& eq_ci(s[i + 4], '\u{438}')
    &&& eq_ci(s[i + 5], '\u{44f}')
}

/// The CJK copy marker occurs at `i`.
pub open spec fn copy_cjk_at(s: Seq<char>, i: int) -> bool {
    &&& 0 <= i
    &&& i + 5 <= s.len()
    &&& s[i] == ' '
    &&& s[i + 1] == '-'
    &&& s[i + 2] == ' '
    &&& s[i + 3] == '\u{526f}'
    &&& s[i + 4] == '\u{672c}'
}

/// A trailing number marker at `i`: the lead character followed by one
/// or more digits reaching the end.
pub open spec fn trailing_number_at(s: Seq<char>, lead: char, i: int) -> bool {
    &&& 0 <= i
    &&& i + 2 <= s.len()
    &&& s[i] == lead
    &&& forall|k: int| i < k < s.len() ==> text::is_digit(#[trigger] s[k])
}

/// A trailing parenthesized number at `i`: `(`, one or more digits, and
/// a final `)`.
pub open spec fn trailing_paren_at(s: Seq<char>, i: int) -> bool {
    &&& 0 <= i
    &&& i + 3 <= s.len()
    &&& s[i] == '('
    &&& s[s.len() - 1] == ')'
    &&& forall|k: int| i < k < s.len() - 1 ==> text::is_digit(#[trigger] s[k])
}

/// Whether one copy pattern matches a stem.
pub open spec fn pattern_matches(p: CopyPattern, s: Seq<char>) -> bool {
    match p {
        CopyPattern::CopySuffixCjk => exists|i: int| copy_cjk_at(s, i),
        CopyPattern::TrailingUnderscoreNumber => exists|i: int| trailing_number_at(s, '_', i),
        CopyPattern::TrailingSpaceNumber => exists|i: int| trailing_number_at(s, ' ', i),
        CopyPattern::TrailingParenNumber => exists|i: int| trailing_paren_at(s, i),
        CopyPattern::CopyWord => exists|i: int| copy_word_at(s, i),
        CopyPattern::CopyWordCyrillic => exists|i: int| copy_word_cyrillic_at(s, i),
    }
}

/// The copy-indicator patterns, in the order they are charged.
pub open spec fn copy_patterns_seq() -> Seq<CopyPattern> {
    seq![
        CopyPattern::CopySuffixCjk,
        CopyPattern::TrailingUnderscoreNumber,
        CopyPattern::TrailingSpaceNumber,
        CopyPattern::TrailingParenNumber,
        CopyPattern::CopyWord,
        CopyPattern::CopyWordCyrillic,
    ]
}

/// The copy-indicator patterns, in the order they are charged.
pub fn get_copy_patterns() -> (r: Vec<CopyPattern>)
    ensures
        r@ == copy_patterns_seq(),
{
    let v: Vec<CopyPattern> = vec![
        CopyPattern::CopySuffixCjk,
        CopyPattern::TrailingUnderscoreNumber,
        CopyPattern::TrailingSpaceNumber,
        CopyPattern::TrailingParenNumber,
        CopyPattern::CopyWord,
        CopyPattern::CopyWordCyrillic,
    ];
    proof {
        assert(v@ =~= copy_patterns_seq());
    }
    v
}

/// Case-insensitive comparison against a lowercase letter.
fn eq_ci_exec(c: char, lower: char) -> (r: bool)
    ensures
        r == eq_ci(c, lower),
{
    c == lower || (c as u32) + 32 == lower as u32
}

/// All characters strictly between `i` and `end` are digits.
fn digits_between(s: &Vec<char>, i: usize, end: usize) -> (r: bool)
    requires
        i < end <= s@.len(),
    ensures
        r == (forall|k: int| i < k < end ==> text::is_digit(#[trigger] s@[k])),
{
    let mut k: usize = i + 1;
    let mut ok = true;
    while k < end
        invariant
            i + 1 <= k <= end <= s@.len(),
            ok == (forall|j: int| i < j < k ==> text::is_digit(#[trigger] s@[j])),
        decreases end - k,
    {
        ok = ok && text::char_is_digit(s[k]);
        k += 1;
    }
    ok
}

/// Whether one copy pattern matches a stem.
#[verifier::loop_isolation(false)]
pub fn pattern_is_match(p: &CopyPattern, s: &Vec<char>) -> (r: bool)
    ensures
        r == pattern_matches(*p, s@),
{
    let n = s.len();
    match *p {
        CopyPattern::CopySuffixCjk => {
            let mut i: usize = 0;
            while i < n
                invariant
                    i <= n,
                    n == s@.len(),
                    forall|j: int| 0 <= j < i ==> !copy_cjk_at(s@, j),
                decreases n - i,
            {
                if n >= 5 && i <= n - 5 && s[i] == ' ' && s[i + 1] == '-' && s[i + 2] == ' ' && s[i
                    + 3] == '\u{526f}' && s[i + 4] == '\u{672c}' {
                    proof {
                        assert(copy_cjk_at(s@, i as int));
                        assert(exists|j: int| copy_cjk_at(s@, j));
                    }
                    return true;
                }
                proof {
                    assert(!copy_cjk_at(s@, i as int));
                }
                i += 1;
            }
            proof {
                if pattern_matches(*p, s@) {
                    let j = choose|j: int| copy_cjk_at(s@, j);
                    assert(0 <= j < n);
                    assert(false);
                }
            }
            false
        },
        CopyPattern::TrailingUnderscoreNumber => trailing_number_check(s, '_'),
        CopyPattern::TrailingSpaceNumber => trailing_number_check(s, ' '),
        CopyPattern::TrailingParenNumber => {
            let mut i: usize = 0;
            while i < n
                invariant
                    i <= n,
                    n == s@.len(),
                    forall|j: int| 0 <= j < i ==> !trailing_paren_at(s@, j),
                decreases n - i,
            {
                if n >= 3 && i <= n - 3 && s[i] == '(' && s[n - 1] == ')' && digits_between(
                    s,
                    i,
                    n - 1,
                ) {
                    proof {
                        assert(trailing_paren_at(s@, i as int));
                        assert(exists|j: int| trailing_paren_at(s@, j));
                    }
                    return true;
                }
                proof {
                    assert(!trailing_paren_at(s@, i as int));
                }
                i += 1;
            }
            proof {
                if pattern_matches(*p, s@) {
                    let j = choose|j: int| trailing_paren_at(s@, j);
                    assert(0 <= j < n);
                    assert(false);
                }
            }
            false
        },
        CopyPattern::CopyWord => {
            let mut i: usize = 0;
            while i < n
                invariant
                    i <= n,
                    n == s@.len(),
                    forall|j: int| 0 <= j < i ==> !copy_word_at(s@, j),
                decreases n - i,
            {
                if n >= 5 && i <= n - 5 && (s[i] == '-' || s[i] == ' ' || s[i] == '_')
                    && eq_ci_exec(s[i + 1], 'c') && eq_ci_exec(s[i + 2], 'o') && eq_ci_exec(
                    s[i + 3],
                    'p',
                ) && eq_ci_exec(s[i + 4], 'y') {
                    proof {
                        assert(copy_word_at(s@, i as int));
                        assert(exists|j: int| copy_word_at(s@, j));
                    }
                    return true;
                }
                proof {
                    assert(!copy_word_at(s@, i as int));
                }
                i += 1;
            }
            proof {
                if pattern_matches(*p, s@) {
                    let j = choose|j: int| copy_word_at(s@, j);
                    assert(0 <= j < n);
                    assert(false);
                }
            }
            false
        },
        CopyPattern::CopyWordCyrillic => {
            let mut i: usize = 0;
            while i < n
                invariant
                    i <= n,
                    n == s@.len(),
                    forall|j: int| 0 <= j < i ==> !copy_word_cyrillic_at(s@, j),
                decreases n - i,
            {
                if n >= 6 && i <= n - 6 && (s[i] == '-' || s[i] == ' ' || s[i] == '_')
                    && eq_ci_exec(s[i + 1], '\u{43a}') && eq_ci_exec(s[i + 2], '\u{43e}')
                    && eq_ci_exec(s[i + 3], '\u{43f}') && eq_ci_exec(s[i + 4], '\u{438}')
                    && eq_ci_exec(s[i + 5], '\u{44f}') {
                    proof {
                        assert(copy_word_cyrillic_at(s@, i as int));
                        assert(exists|j: int| copy_word_cyrillic_at(s@, j));
                    }
                    return true;
                }
                proof {
                    assert(!copy_word_cyrillic_at(s@, i as int));
                }
                i += 1;
            }
            proof {
                if pattern_matches(*p, s@) {
                    let j = choose|j: int| copy_word_cyrillic_at(s@, j);
                    assert(0 <= j < n);
                    assert(false);
                }
            }
            false
        },
    }
}

/// The number of copy patterns, among the first `k`, that match.
pub open spec fn penalty_count(s: Seq<char>, k: int) -> int
    decreases k,
{
    if k <= 0 {
        0
    } else {
        penalty_count(s, k - 1) + if pattern_matches(copy_patterns_seq()[k - 1], s) {
            1int
        } else {
            0int
        }
    }
}

/// A filename's priority score, lower meaning cleaner: the stem's
/// character count, plus one thousand for every copy-indicator pattern
/// the stem matches, saturating at the highest 32-bit value.
pub open spec fn score_spec(name: Seq<char>) -> int {
    let stem = strip_ext_spec(name);
    let raw = stem.len() + 1000 * penalty_count(stem, 6);
    if raw >= 0xffffffff {
        0xffffffff
    } else {
        raw
    }
}

/// A path's priority score: the score of its file-name component.
pub open spec fn score_of_path_spec(p: Seq<char>) -> int {
    score_spec(file_name_of(p))
}

/// Score a filename's characters.
fn score_of_chars(name: &Vec<char>) -> (r: u32)
    ensures
        r == score_spec(name@),
{
    let stem = strip_extension(name);
    let clen: usize = stem.len();
    let patterns = get_copy_patterns();
    let pn = patterns.len();
    let mut count: u64 = 0;
    let mut i: usize = 0;
    while i < pn
        invariant
            i <= pn,
            pn == 6,
            patterns@ == copy_patterns_seq(),
            stem@ == strip_ext_spec(name@),
            count == penalty_count(stem@, i as int),
            count <= i,
        decreases pn - i,
    {
        if pattern_is_match(&patterns[i], &stem) {
            count = count + 1;
        }
        i += 1;
    }
    proof {
        lemma_penalty_nonneg(stem@, 6);
    }
    if clen >= 0xffffffff {
        proof {
            assert(score_spec(name@) == 0xffffffff);
        }
        return 0xffffffffu32;
    }
    let raw: u64 = clen as u64 + 1000 * count;
    if raw >= 0xffffffff {
        0xffffffffu32
    } else {
        raw as u32
    }
}

/// Matched-pattern counts are not negative.
proof fn lemma_penalty_nonneg(s: Seq<char>, k: int)
    requires
        0 <= k,
    ensures
        0 <= penalty_count(s, k) <= k,
    decreases k,
{
    if k > 0 {
        lemma_penalty_nonneg(s, k - 1);
    }
}

/// Priority score of a path's filename; lower is cleaner.
pub fn filename_priority_score(path: &str) -> (r: u32)
    ensures
        r == score_of_path_spec(path@),
{
    let name = file_name_part(path);
    score_of_chars(&name)
}

/// Status of one file's processing.
#[derive(Debug, Clone, Copy, PartialEq, Eq, Structural)]
pub enum ProcessingStatus {
    /// The file was successfully processed.
    Success,
    /// The file was skipped as already settled.
    Skipped,
    /// The file was skipped as a content duplicate.
    Duplicate,
    /// Processing failed for this file.
    Failed,
    /// A dry run would have processed the file.
    DryRun,
}

/// The outcome record emitted for every candidate file.
#[derive(Debug, Clone)]
pub struct FileResult {
    /// Source file path.
    pub source: String,
    /// Destination path, when one was determined.
    pub destination: Option<String>,
    /// Extracted time information, when extraction ran.
    pub time_info: Option<ExtractedTime>,
    /// Processing status.
    pub status: ProcessingStatus,
    /// Error message, when processing failed.
    pub error: Option<String>,
}

/// Count of results carrying one status among the first `k`.
pub open spec fn count_status(rs: Seq<FileResult>, st: ProcessingStatus, k: int) -> int
    decreases k,
{
    if k <= 0 {
        0
    } else {
        count_status(rs, st, k - 1) + if rs[k - 1].status == st {
            1int
        } else {
            0int
        }
    }
}

/// Aggregate counters for a run.
#[derive(Debug, Clone, PartialEq, Eq, Structural)]
pub struct ProcessingStats {
    /// Number of candidate files seen.
    pub total_files: u64,
    /// Files processed (including identical-content confirmations and
    /// dry-run placements).
    pub processed: u64,
    /// Files skipped as already settled.
    pub skipped: u64,
    /// Files skipped as content duplicates.
    pub duplicates: u64,
    /// Files that failed.
    pub failed: u64,
}

impl ProcessingStats {
    /// Fresh, zeroed counters.
    pub fn new() -> (r: Self)
        ensures
            r.total_files == 0 && r.processed == 0 && r.skipped == 0 && r.duplicates == 0
                && r.failed == 0,
    {
        ProcessingStats { total_files: 0, processed: 0, skipped: 0, duplicates: 0, failed: 0 }
    }

    /// One line of counter text.
    pub fn summary(&self) -> (r: String)
        ensures
            r@ == "Total: "@ + text::dec_str(self.total_files) + ", Processed: "@ + text::dec_str(
                self.processed,
            ) + ", Skipped: "@ + text::dec_str(self.skipped) + ", Duplicates: "@ + text::dec_str(
                self.duplicates,
            ) + ", Failed: "@ + text::dec_str(self.failed),
    {
        String::from_str("Total: ").concat(u64_text(self.total_files).as_str()).concat(
            ", Processed: ",
        ).concat(u64_text(self.processed).as_str()).concat(", Skipped: ").concat(
            u64_text(self.skipped).as_str(),
        ).concat(", Duplicates: ").concat(u64_text(self.duplicates).as_str()).concat(
            ", Failed: ",
        ).concat(u64_text(self.failed).as_str())
    }
}

/// Decimal text of a value.
fn u64_text(v: u64) -> (r: String)
    ensures
        r@ == text::dec_str(v),
{
    let mut chars: Vec<char> = Vec::new();
    text::push_dec_u64(&mut chars, v);
    proof {
        assert(chars@ =~= text::dec_str(v));
    }
    text::chars_to_string(&chars)
}

/// Tally the counters out of a run's results: every candidate counts
/// toward the total; successes and dry-run placements count as
/// processed; the other statuses feed their own counters.
pub fn stats_of_results(results: &Vec<FileResult>) -> (r: ProcessingStats)
    ensures
        r.total_files == results@.len(),
        r.processed == count_status(results@, ProcessingStatus::Success, results@.len() as int)
            + count_status(results@, ProcessingStatus::DryRun, results@.len() as int),
        r.skipped == count_status(results@, ProcessingStatus::Skipped, results@.len() as int),
        r.duplicates == count_status(results@, ProcessingStatus::Duplicate, results@.len() as int),
        r.failed == count_status(results@, ProcessingStatus::Failed, results@.len() as int),
{
    let n = results.len();
    let mut stats = ProcessingStats::new();
    stats.total_files = n as u64;
    let mut i: usize = 0;
    while i < n
        invariant
            i <= n,
            n == results@.len(),
            stats.total_files == n,
            stats.processed == count_status(results@, ProcessingStatus::Success, i as int)
                + count_status(results@, ProcessingStatus::DryRun, i as int),
            stats.skipped == count_status(results@, ProcessingStatus::Skipped, i as int),
            stats.duplicates == count_status(results@, ProcessingStatus::Duplicate, i as int),
            stats.failed == count_status(results@, ProcessingStatus::Failed, i as int),
            stats.processed <= i && stats.skipped <= i && stats.duplicates <= i && stats.failed
                <= i,
        decreases n - i,
    {
        proof {
            lemma_count_status_bound(results@, ProcessingStatus::Success, i as int);
            lemma_count_status_bound(results@, ProcessingStatus::DryRun, i as int);
        }
        match results[i].status {
            ProcessingStatus::Success => {
                stats.processed = stats.processed + 1;
            },
            ProcessingStatus::DryRun => {
                stats.processed = stats.processed + 1;
            },
            ProcessingStatus::Skipped => {
                stats.skipped = stats.skipped + 1;
            },
            ProcessingStatus::Duplicate => {
                stats.duplicates = stats.duplicates + 1;
            },
            ProcessingStatus::Failed => {
                stats.failed = stats.failed + 1;
            },
        }
        i += 1;
    }
    stats
}

/// A status count over a prefix stays within the prefix length.
proof fn lemma_count_status_bound(rs: Seq<FileResult>, st: ProcessingStatus, k: int)
    requires
        0 <= k,
    ensures
        0 <= count_status(rs, st, k) <= k,
    decreases k,
{
    if k > 0 {
        lemma_count_status_bound(rs, st, k - 1);
    }
}

/// Whether the file at `i` survives duplicate collapse: it does when it
/// carries no hash, or when every other file of its hash group scores
/// strictly worse, or ties and came later.
pub open spec fn survives_spec(paths: Seq<Seq<char>>, hashes: Seq<Option<u64>>, i: int) -> bool {
    hashes[i] is None || (forall|j: int|
        0 <= j < paths.len() && j != i && hashes[j] == hashes[i]
            ==> score_of_path_spec(#[trigger] paths[j]) > score_of_path_spec(paths[i]) || (
            score_of_path_spec(paths[j]) == score_of_path_spec(paths[i]) && j > i))
}

/// Mark the survivor of every duplicate group: per group the cleanest
/// filename, earliest in enumeration order on ties; unhashed files all
/// survive.
pub fn select_survivors(files: &Vec<String>, hashes: &Vec<Option<u64>>) -> (r: Vec<bool>)
    requires
        files@.len() == hashes@.len(),
    ensures
        r@.len() == files@.len(),
        forall|i: int|
            0 <= i < files@.len() ==> #[trigger] r@[i] == survives_spec(
                files@.map_values(|s: String| s@),
                hashes@,
                i,
            ),
{
    let ghost paths = files@.map_values(|s: String| s@);
    let n = files.len();
    let mut scores: Vec<u32> = Vec::new();
    let mut i: usize = 0;
    while i < n
        invariant
            i <= n,
            n == files@.len(),
            paths == files@.map_values(|s: String| s@),
            scores@.len() == i,
            forall|k: int|
                0 <= k < i ==> #[trigger] scores@[k] == score_of_path_spec(paths[k]),
        decreases n - i,
    {
        scores.push(filename_priority_score(files[i].as_str()));
        i += 1;
    }
    let mut keep: Vec<bool> = Vec::new();
    let mut i2: usize = 0;
    while i2 < n
        invariant
            i2 <= n,
            n == files@.len(),
            n == hashes@.len(),
            paths == files@.map_values(|s: String| s@),
            scores@.len() == n,
            forall|k: int|
                0 <= k < n ==> #[trigger] scores@[k] == score_of_path_spec(paths[k]),
            keep@.len() == i2,
            forall|k: int|
                0 <= k < i2 ==> #[trigger] keep@[k] == survives_spec(paths, hashes@, k),
        decreases n - i2,
    {
        let keep_i: bool;
        match hashes[i2] {
            Option::None => {
                keep_i = true;
                proof {
                    assert(survives_spec(paths, hashes@, i2 as int));
                }
            },
            Option::Some(h) => {
                let mut beaten = false;
                let mut j: usize = 0;
                while j < n
                    invariant
                        j <= n,
                        i2 < n,
                        n == files@.len(),
                        n == hashes@.len(),
                        paths == files@.map_values(|s: String| s@),
                        scores@.len() == n,
                        hashes@[i2 as int] == Some(h),
                        forall|k: int|
                            0 <= k < n ==> #[trigger] scores@[k] == score_of_path_spec(paths[k]),
                        !beaten ==> (forall|k: int|
                            0 <= k < j && k != i2 && hashes@[k] == hashes@[i2 as int]
                                ==> score_of_path_spec(#[trigger] paths[k]) > score_of_path_spec(
                                paths[i2 as int],
                            ) || (score_of_path_spec(paths[k]) == score_of_path_spec(
                                paths[i2 as int],
                            ) && k > i2)),
                        beaten ==> !survives_spec(paths, hashes@, i2 as int),
                    decreases n - j,
                {
                    if j != i2 {
                        let same = match hashes[j] {
                            Option::Some(h2) => h2 == h,
                            Option::None => false,
                        };
                        if same {
                            let sj = scores[j];
                            let si = scores[i2];
                            if sj < si || (sj == si && j < i2) {
                                proof {
                                    assert(!survives_spec(paths, hashes@, i2 as int));
                                }
                                beaten = true;
                            }
                        }
                    }
                    j += 1;
                }
                keep_i = !beaten;
                proof {
                    if !beaten {
                        assert(survives_spec(paths, hashes@, i2 as int));
                    }
                }
            },
        }
        keep.push(keep_i);
        i2 += 1;
    }
    keep
}

/// Within one duplicate group the surviving file scores no worse than
/// any other member, and strictly better unless it came first.
pub proof fn lemma_survivor_is_cleanest(
    paths: Seq<Seq<char>>,
    hashes: Seq<Option<u64>>,
    i: int,
    j: int,
)
    requires
        0 <= i < paths.len(),
        0 <= j < paths.len(),
        paths.len() == hashes.len(),
        i != j,
        hashes[i] is Some,
        hashes[j] == hashes[i],
        survives_spec(paths, hashes, i),
    ensures
        score_of_path_spec(paths[i]) < score_of_path_spec(paths[j]) || (score_of_path_spec(
            paths[i],
        ) == score_of_path_spec(paths[j]) && i < j),
{
}

/// A duplicate group has exactly one survivor, whatever order the files
/// were enumerated in: two surviving members of one group are the same
/// file.
pub proof fn lemma_survivor_unique(paths: Seq<Seq<char>>, hashes: Seq<Option<u64>>, i: int, j: int)
    requires
        0 <= i < paths.len(),
        0 <= j < paths.len(),
        paths.len() == hashes.len(),
        hashes[i] is Some,
        hashes[j] == hashes[i],
        survives_spec(paths, hashes, i),
        survives_spec(paths, hashes, j),
    ensures
        i == j,
{
    if i != j {
        lemma_survivor_is_cleanest(paths, hashes, i, j);
        lemma_survivor_is_cleanest(paths, hashes, j, i);
    }
}

/// The surviving member of the group the file at `i` belongs to.
pub fn survivor_of(files: &Vec<String>, hashes: &Vec<Option<u64>>, i: usize) -> (r: usize)
    requires
        files@.len() == hashes@.len(),
        i < files@.len(),
        hashes@[i as int] is Some,
    ensures
        r < files@.len(),
        hashes@[r as int] == hashes@[i as int],
        survives_spec(files@.map_values(|s: String| s@), hashes@, r as int),
{
    let ghost paths = files@.map_values(|s: String| s@);
    let n = files.len();
    let h = match hashes[i] {
        Option::Some(h) => h,
        Option::None => 0,
    };
    let mut best: usize = i;
    let mut best_score: u32 = filename_priority_score(files[i].as_str());
    let mut j: usize = 0;
    while j < n
        invariant
            j <= n,
            i < n,
            n == files@.len(),
            n == hashes@.len(),
            paths == files@.map_values(|s: String| s@),
            hashes@[i as int] == Some(h),
            best < n,
            hashes@[best as int] == Some(h),
            best_score == score_of_path_spec(paths[best as int]),
            forall|k: int|
                0 <= k < j && hashes@[k] == hashes@[i as int] ==> score_of_path_spec(
                    #[trigger] paths[k],
                ) > best_score || (score_of_path_spec(paths[k]) == best_score && k >= best),
        decreases n - j,
    {
        let same = match hashes[j] {
            Option::Some(h2) => h2 == h,
            Option::None => false,
        };
        if same {
            let sj = filename_priority_score(files[j].as_str());
            if sj < best_score || (sj == best_score && j < best) {
                best = j;
                best_score = sj;
            }
        }
        j += 1;
    }
    proof {
        assert(survives_spec(paths, hashes@, best as int));
    }
    best
}

/// Append a string's characters to a vector.
fn push_str_chars(out: &mut Vec<char>, s: &str)
    ensures
        final(out)@ == old(out)@ + s@,
{
    let chars = text::str_to_chars(s);
    let n = chars.len();
    let mut i: usize = 0;
    while i < n
        invariant
            i <= n,
            n == chars@.len(),
            chars@ == s@,
            out@ == old(out)@ + s@.take(i as int),
        decreases n - i,
    {
        out.push(chars[i]);
        i += 1;
        assert(out@ =~= old(out)@ + s@.take(i as int));
    }
    assert(out@ =~= old(out)@ + s@);
}

/// Append a character vector to another.
fn push_chars(out: &mut Vec<char>, s: &Vec<char>)
    ensures
        final(out)@ == old(out)@ + s@,
{
    let n = s.len();
    let mut i: usize = 0;
    while i < n
        invariant
            i <= n,
            n == s@.len(),
            out@ == old(out)@ + s@.take(i as int),
        decreases n - i,
    {
        out.push(s[i]);
        i += 1;
        assert(out@ =~= old(out)@ + s@.take(i as int));
    }
    assert(out@ =~= old(out)@ + s@);
}

/// The time-classification segments of a destination: nothing, the
/// year, or the year and month in the configured layout.
pub open spec fn time_segments_spec(
    ts: crate::time::datetime::DateTime,
    classification: crate::config::ClassificationRule,
    month_format: crate::config::MonthFormat,
) -> Seq<char> {
    match classification {
        crate::config::ClassificationRule::NoClassification => Seq::empty(),
        crate::config::ClassificationRule::Year => "/"@ + text::dec_str(ts.year as u64),
        crate::config::ClassificationRule::YearMonth => match month_format {
            crate::config::MonthFormat::Nested => "/"@ + text::dec_str(ts.year as u64) + "/"@
                + text::dec_pad(ts.month as int, 2),
            crate::config::MonthFormat::Combined => "/"@ + text::dec_str(ts.year as u64) + "-"@
                + text::dec_pad(ts.month as int, 2),
        },
    }
}

/// The type-classification segments of a destination: the type folder,
/// with RAW nested under the photo folder.
pub open spec fn type_segments_spec(
    ext: Seq<char>,
    classify_by_type: bool,
    config: crate::config::Config,
) -> Seq<char> {
    if classify_by_type {
        match config.get_file_type_spec(ext) {
            Some(crate::config::FileType::Photos) => "/Photos"@,
            Some(crate::config::FileType::Raw) => "/Photos/Raw"@,
            Some(crate::config::FileType::Videos) => "/Videos"@,
            None => Seq::empty(),
        }
    } else {
        Seq::empty()
    }
}

/// The base destination path of a file: output root, time segments,
/// type segments, then the source's file name.
pub open spec fn dest_path_spec(
    source: Seq<char>,
    ts: crate::time::datetime::DateTime,
    config: crate::config::Config,
) -> Seq<char> {
    let fname = file_name_of(source);
    config.output_dir@ + time_segments_spec(ts, config.classification, config.month_format)
        + type_segments_spec(
        crate::time::extension_spec(fname),
        config.classify_by_type,
        config,
    ) + "/"@ + fname
}

/// Build the base destination path for a source file under the
/// classification rules; fails only on a source with an empty file
/// name.
pub fn build_base_destination_path(
    source: &str,
    timestamp: &crate::time::datetime::DateTime,
    config: &crate::config::Config,
) -> (r: Result<String, crate::error::Error>)
    requires
        timestamp.valid(),
    ensures
        if file_name_of(source@).len() == 0 {
            r matches Err(e) && e matches crate::error::Error::Config(m) && m@
                == "Invalid source filename"@
        } else {
            r matches Ok(p) && p@ == dest_path_spec(source@, *timestamp, *config)
        },
{
    let fname = file_name_part(source);
    if fname.len() == 0 {
        return Err(
            crate::error::Error::Config(String::from_str("Invalid source filename")),
        );
    }
    let mut out: Vec<char> = Vec::new();
    push_str_chars(&mut out, config.output_dir.as_str());
    match config.classification {
        crate::config::ClassificationRule::NoClassification => {},
        crate::config::ClassificationRule::Year => {
            push_str_chars(&mut out, "/");
            text::push_dec_u64(&mut out, timestamp.year as u64);
        },
        crate::config::ClassificationRule::YearMonth => {
            match config.month_format {
                crate::config::MonthFormat::Nested => {
                    push_str_chars(&mut out, "/");
                    text::push_dec_u64(&mut out, timestamp.year as u64);
                    push_str_chars(&mut out, "/");
                    text::push_dec_pad(&mut out, timestamp.month as u64, 2);
                },
                crate::config::MonthFormat::Combined => {
                    push_str_chars(&mut out, "/");
                    text::push_dec_u64(&mut out, timestamp.year as u64);
                    push_str_chars(&mut out, "-");
                    text::push_dec_pad(&mut out, timestamp.month as u64, 2);
                },
            }
        },
    }
    proof {
        assert(out@ =~= config.output_dir@ + time_segments_spec(
            *timestamp,
            config.classification,
            config.month_format,
        ));
    }
    if config.classify_by_type {
        let ext_chars = extension_chars(&fname);
        let ext = text::chars_to_string(&ext_chars);
        match config.get_file_type(ext.as_str()) {
            Some(crate::config::FileType::Photos) => {
                push_str_chars(&mut out, "/Photos");
            },
            Some(crate::config::FileType::Raw) => {
                push_str_chars(&mut out, "/Photos/Raw");
            },
            Some(crate::config::FileType::Videos) => {
                push_str_chars(&mut out, "/Videos");
            },
            None => {},
        }
    }
    push_str_chars(&mut out, "/");
    push_chars(&mut out, &fname);
    proof {
        assert(out@ =~= dest_path_spec(source@, *timestamp, *config));
    }
    Ok(text::chars_to_string(&out))
}

/// The extension of a file name held as characters.
fn extension_chars(fname: &Vec<char>) -> (r: Vec<char>)
    ensures
        r@ == crate::time::extension_spec(fname@),
{
    let s = text::chars_to_string(fname);
    let e = crate::time::extension_of(s.as_str());
    text::str_to_chars(e.as_str())
}

/// A string list holds the given word.
pub open spec fn names_contain(list: Seq<String>, w: Seq<char>) -> bool {
    exists|i: int| 0 <= i < list.len() && #[trigger] list[i]@ == w
}

/// Membership of a word in a string list.
fn names_contain_exec(list: &Vec<String>, w: &String) -> (r: bool)
    ensures
        r == names_contain(list@, w@),
{
    let n = list.len();
    let mut i: usize = 0;
    while i < n
        invariant
            i <= n,
            n == list@.len(),
            forall|k: int| 0 <= k < i ==> #[trigger] list@[k]@ != w@,
        decreases n - i,
    {
        if list[i].eq(w) {
            return true;
        }
        i += 1;
    }
    false
}

/// The dot-extension suffix re-attached to disambiguated names: a dot
/// and the extension, or nothing when the name has no extension.
pub open spec fn ext_suffix_spec(fname: Seq<char>) -> Seq<char> {
    match last_dot_from(fname, fname.len() - 1) {
        Some(i) => if i > 0 {
            "."@ + fname.subrange(i + 1, fname.len() as int)
        } else {
            Seq::empty()
        },
        None => Seq::empty(),
    }
}

/// The `i`-th disambiguation candidate for a contested base path:
/// `stem_i.ext` in the same directory.
pub open spec fn conflict_candidate_spec(base: Seq<char>, i: u64) -> Seq<char> {
    let fname = file_name_of(base);
    let dir = match last_sep_from(base, base.len() - 1) {
        Some(k) => base.take(k + 1),
        None => Seq::empty(),
    };
    dir + strip_ext_spec(fname) + "_"@ + text::dec_str(i) + ext_suffix_spec(fname)
}

/// The first free disambiguation candidate at or past `i`, searching up
/// to the fixed bound.
pub open spec fn first_free_candidate(existing: Seq<String>, base: Seq<char>, i: int) -> Option<
    Seq<char>,
>
    decreases 10000 - i,
{
    if !(1 <= i < 10000) {
        None
    } else if !names_contain(existing, conflict_candidate_spec(base, i as u64)) {
        Some(conflict_candidate_spec(base, i as u64))
    } else {
        first_free_candidate(existing, base, i + 1)
    }
}

/// The directory prefix of a path, separator included; empty when the
/// path has no separator.
fn dir_prefix_part(base: &str) -> (r: Vec<char>)
    ensures
        r@ == (match last_sep_from(base@, base@.len() - 1) {
            Some(k) => base@.take(k + 1),
            None => Seq::<char>::empty(),
        }),
{
    let chars = text::str_to_chars(base);
    let n = chars.len();
    let mut j: usize = n;
    while j > 0
        invariant
            j <= n,
            n == chars@.len(),
            chars@ == base@,
            last_sep_from(chars@, n as int - 1) == last_sep_from(chars@, j as int - 1),
        decreases j,
    {
        if chars[j - 1] == '/' || chars[j - 1] == '\\' {
            proof {
                assert(last_sep_from(chars@, j as int - 1) == Some(j as int - 1));
            }
            let mut out: Vec<char> = Vec::new();
            let mut k: usize = 0;
            while k < j
                invariant
                    k <= j <= n,
                    n == chars@.len(),
                    chars@ == base@,
                    out@ == chars@.take(k as int),
                decreases j - k,
            {
                out.push(chars[k]);
                k += 1;
                assert(out@ =~= chars@.take(k as int));
            }
            return out;
        }
        j -= 1;
    }
    proof {
        assert(last_sep_from(chars@, -1) == None::<int>);
    }
    Vec::new()
}

/// Whether a file name carries a real dot-extension.
fn has_real_extension(fname: &Vec<char>) -> (r: bool)
    ensures
        r == (match last_dot_from(fname@, fname@.len() - 1) {
            Some(i) => i > 0,
            None => false,
        }),
{
    let n = fname.len();
    let mut j: usize = n;
    while j > 0
        invariant
            j <= n,
            n == fname@.len(),
            last_dot_from(fname@, n as int - 1) == last_dot_from(fname@, j as int - 1),
        decreases j,
    {
        if fname[j - 1] == '.' {
            proof {
                assert(last_dot_from(fname@, j as int - 1) == Some(j as int - 1));
            }
            return j - 1 > 0;
        }
        j -= 1;
    }
    proof {
        assert(last_dot_from(fname@, -1) == None::<int>);
    }
    false
}

/// Resolve a destination-name conflict against the set of names already
/// present: the base itself when free, else the first numbered variant
/// that is free; fails when the whole bounded range is taken.
#[verifier::loop_isolation(false)]
pub fn resolve_filename_conflict(base: &str, existing: &Vec<String>) -> (r: Result<
    String,
    crate::error::Error,
>)
    ensures
        if !names_contain(existing@, base@) {
            r matches Ok(p) && p@ == base@
        } else {
            match first_free_candidate(existing@, base@, 1) {
                Some(c) => r matches Ok(p) && p@ == c,
                None => r matches Err(e) && e matches crate::error::Error::Config(m) && m@
                    == "Could not resolve filename conflict"@,
            }
        },
{
    let base_string = String::from_str(base);
    if !names_contain_exec(existing, &base_string) {
        return Ok(base_string);
    }
    let fname = file_name_part(base);
    let stem = strip_extension(&fname);
    let dir = dir_prefix_part(base);
    let ext = extension_chars(&fname);
    let real_ext = has_real_extension(&fname);
    proof {
        lemma_ext_suffix_shape(fname@, real_ext);
    }
    let mut i: u64 = 1;
    while i < 10000
        invariant
            1 <= i <= 10000,
            fname@ == file_name_of(base@),
            stem@ == strip_ext_spec(fname@),
            ext@ == crate::time::extension_spec(fname@),
            real_ext ==> ext_suffix_spec(fname@) == "."@ + ext@,
            !real_ext ==> ext_suffix_spec(fname@) == Seq::<char>::empty(),
            dir@ == (match last_sep_from(base@, base@.len() - 1) {
                Some(k) => base@.take(k + 1),
                None => Seq::<char>::empty(),
            }),
            first_free_candidate(existing@, base@, 1) == first_free_candidate(
                existing@,
                base@,
                i as int,
            ),
        decreases 10000 - i,
    {
        let mut cand: Vec<char> = Vec::new();
        push_chars(&mut cand, &dir);
        push_chars(&mut cand, &stem);
        push_str_chars(&mut cand, "_");
        text::push_dec_u64(&mut cand, i);
        if real_ext {
            push_str_chars(&mut cand, ".");
            push_chars(&mut cand, &ext);
        }
        proof {
            assert(cand@ =~= conflict_candidate_spec(base@, i));
        }
        let cand_string = text::chars_to_string(&cand);
        if !names_contain_exec(existing, &cand_string) {
            proof {
                assert(names_contain(existing@, base@));
                assert(!names_contain(existing@, conflict_candidate_spec(base@, i)));
                assert(first_free_candidate(existing@, base@, i as int) == Some(
                    conflict_candidate_spec(base@, i),
                ));
                assert(first_free_candidate(existing@, base@, 1) == Some(cand_string@));
            }
            return Ok(cand_string);
        }
        i += 1;
    }
    Err(crate::error::Error::Config(String::from_str("Could not resolve filename conflict")))
}

/// The extension suffix is the dot plus the extension exactly when the
/// name carries a real extension.
proof fn lemma_ext_suffix_shape(fname: Seq<char>, real_ext: bool)
    requires
        real_ext == (match last_dot_from(fname, fname.len() - 1) {
            Some(i) => i > 0,
            None => false,
        }),
    ensures
        real_ext ==> ext_suffix_spec(fname) == "."@ + crate::time::extension_spec(fname),
        !real_ext ==> ext_suffix_spec(fname) == Seq::<char>::empty(),
{
}

/// What to do at an occupied destination, by processing mode.
#[derive(Debug, Clone, Copy, PartialEq, Eq, Structural)]
pub enum ConflictAction {
    /// The destination is free: write there.
    Write,
    /// Identical content already sits there; full mode counts the file
    /// as processed without writing a byte.
    CountAsProcessed,
    /// Identical content already sits there; the file is skipped.
    SkipIdentical,
    /// Different content sits there; full mode overwrites in place.
    Overwrite,
    /// Different or unverifiable content sits there; a numbered name
    /// must be found.
    Disambiguate,
}

/// The destination-conflict policy: full mode makes the target match
/// the source, the other modes append without clobbering.
pub open spec fn conflict_action_spec(
    mode: crate::config::ProcessingMode,
    dest_exists: bool,
    source_hash: Option<u64>,
    dest_hash: Option<u64>,
) -> ConflictAction {
    if !dest_exists {
        ConflictAction::Write
    } else if source_hash is Some && dest_hash is Some {
        if source_hash->0 == dest_hash->0 {
            if mode == crate::config::ProcessingMode::Full {
                ConflictAction::CountAsProcessed
            } else {
                ConflictAction::SkipIdentical
            }
        } else {
            if mode == crate::config::ProcessingMode::Full {
                ConflictAction::Overwrite
            } else {
                ConflictAction::Disambiguate
            }
        }
    } else {
        if mode == crate::config::ProcessingMode::Full {
            ConflictAction::Overwrite
        } else {
            ConflictAction::Disambiguate
        }
    }
}

/// Decide what happens at a computed destination, given whether it is
/// occupied and what the two content hashes said.
pub fn resolve_conflict_policy(
    mode: crate::config::ProcessingMode,
    dest_exists: bool,
    source_hash: Option<u64>,
    dest_hash: Option<u64>,
) -> (r: ConflictAction)
    ensures
        r == conflict_action_spec(mode, dest_exists, source_hash, dest_hash),
{
    if !dest_exists {
        return ConflictAction::Write;
    }
    match (source_hash, dest_hash) {
        (Some(sh), Some(dh)) => {
            if sh == dh {
                if mode == crate::config::ProcessingMode::Full {
                    ConflictAction::CountAsProcessed
                } else {
                    ConflictAction::SkipIdentical
                }
            } else {
                if mode == crate::config::ProcessingMode::Full {
                    ConflictAction::Overwrite
                } else {
                    ConflictAction::Disambiguate
                }
            }
        },
        _ => {
            if mode == crate::config::ProcessingMode::Full {
                ConflictAction::Overwrite
            } else {
                ConflictAction::Disambiguate
            }
        },
    }
}

/// Running full mode against a destination that already holds the very
/// same content writes nothing: the file only counts as processed. Run
/// twice over an unchanged pair, every file lands here.
pub proof fn lemma_full_mode_identical_writes_nothing(h: u64)
    ensures
        conflict_action_spec(crate::config::ProcessingMode::Full, true, Some(h), Some(h))
            == ConflictAction::CountAsProcessed,
{
}

/// In the appending modes, an occupied destination with different
/// content forces a numbered name rather than an overwrite.
pub proof fn lemma_appending_modes_never_clobber(
    mode: crate::config::ProcessingMode,
    sh: u64,
    dh: u64,
)
    requires
        mode != crate::config::ProcessingMode::Full,
        sh != dh,
    ensures
        conflict_action_spec(mode, true, Some(sh), Some(dh)) == ConflictAction::Disambiguate,
{
}

/// A component of the path equals the name: it is delimited by
/// separators or the path's ends.
pub open spec fn component_at(p: Seq<char>, a: int, name: Seq<char>) -> bool {
    &&& 0 <= a
    &&& a + name.len() <= p.len()
    &&& name.len() > 0
    &&& p.subrange(a, a + name.len()) == name
    &&& (a == 0 || p[a - 1] == '/' || p[a - 1] == '\\')
    &&& (a + name.len() == p.len() || p[a + name.len()] == '/' || p[a + name.len()] == '\\')
}

/// One exclusion entry matches the path: an absolute entry is a prefix
/// of whole components; a bare name matches any component.
pub open spec fn matches_exclude(p: Seq<char>, e: Seq<char>) -> bool {
    if e.len() > 0 && e[0] == '/' {
        p == e || (p.len() > e.len() && p.subrange(0, e.len() as int) == e && (p[e.len() as int]
            == '/' || p[e.len() as int] == '\\'))
    } else {
        exists|a: int| component_at(p, a, file_name_of(e))
    }
}

/// Whether the path falls under any configured exclusion.
pub open spec fn excluded_spec(p: Seq<char>, excludes: Seq<String>) -> bool {
    exists|i: int| 0 <= i < excludes.len() && matches_exclude(p, #[trigger] excludes[i]@)
}

/// Whether the path matches one absolute exclusion entry.
fn matches_absolute(p: &Vec<char>, e: &Vec<char>) -> (r: bool)
    requires
        e@.len() > 0,
        e@[0] == '/',
    ensures
        r == matches_exclude(p@, e@),
{
    let pn = p.len();
    let el = e.len();
    if pn < el {
        proof {
            if matches_exclude(p@, e@) {
                assert(p@ == e@ || p@.len() > e@.len());
            }
        }
        return false;
    }
    if pn > el && !(p[el] == '/' || p[el] == '\\') {
        proof {
            if matches_exclude(p@, e@) {
                assert(false);
            }
        }
        return false;
    }
    let mut k: usize = 0;
    let mut eq = true;
    while k < el
        invariant
            k <= el <= pn,
            pn == p@.len(),
            el == e@.len(),
            eq == (forall|j: int| 0 <= j < k ==> p@[j] == #[trigger] e@[j]),
        decreases el - k,
    {
        eq = eq && p[k] == e[k];
        k += 1;
    }
    proof {
        if eq {
            if pn == el {
                assert(p@ =~= e@);
            } else {
                assert(p@.subrange(0, el as int) =~= e@);
            }
            assert(matches_exclude(p@, e@));
        } else {
            if matches_exclude(p@, e@) {
                if p@ == e@ {
                    assert(forall|j: int| 0 <= j < el ==> p@[j] == #[trigger] e@[j]);
                } else {
                    assert(p@.subrange(0, el as int) == e@);
                    assert(forall|j: int| 0 <= j < el ==> p@[j] == #[trigger] e@[j]) by {
                        assert(forall|j: int|
                            0 <= j < el ==> #[trigger] p@.subrange(0, el as int)[j] == p@[j]);
                    }
                }
                assert(false);
            }
        }
    }
    eq
}

/// Whether any whole component of the path equals the name.
fn has_component(p: &Vec<char>, name: &Vec<char>) -> (r: bool)
    requires
        name@.len() > 0,
    ensures
        r == (exists|a: int| component_at(p@, a, name@)),
{
    let pn = p.len();
    let nn = name.len();
    let mut a: usize = 0;
    while a < pn
        invariant
            a <= pn,
            pn == p@.len(),
            nn == name@.len(),
            nn > 0,
            forall|b: int| 0 <= b < a ==> !component_at(p@, b, name@),
        decreases pn - a,
    {
        let fits = nn <= pn - a;
        if fits {
            let boundary_l = a == 0 || p[a - 1] == '/' || p[a - 1] == '\\';
            let boundary_r = a + nn == pn || p[a + nn] == '/' || p[a + nn] == '\\';
            if boundary_l && boundary_r {
                let mut k: usize = 0;
                let mut eq = true;
                while k < nn
                    invariant
                        k <= nn,
                        a + nn <= pn,
                        pn == p@.len(),
                        nn == name@.len(),
                        eq == (forall|j: int| 0 <= j < k ==> p@[a + j] == #[trigger] name@[j]),
                    decreases nn - k,
                {
                    eq = eq && p[a + k] == name[k];
                    k += 1;
                }
                if eq {
                    proof {
                        assert(p@.subrange(a as int, a as int + name@.len() as int) =~= name@);
                        assert(component_at(p@, a as int, name@));
                        assert(exists|b: int| component_at(p@, b, name@));
                    }
                    return true;
                }
                proof {
                    if component_at(p@, a as int, name@) {
                        assert(forall|j: int|
                            0 <= j < nn ==> #[trigger] p@.subrange(
                                a as int,
                                a as int + name@.len() as int,
                            )[j] == p@[a + j]);
                        assert(false);
                    }
                }
            } else {
                proof {
                    assert(!component_at(p@, a as int, name@));
                }
            }
        } else {
            proof {
                assert(!component_at(p@, a as int, name@));
            }
        }
        a += 1;
    }
    proof {
        if exists|b: int| component_at(p@, b, name@) {
            let b = choose|b: int| component_at(p@, b, name@);
            assert(0 <= b < pn);
            assert(false);
        }
    }
    false
}

/// Whether a path should be excluded from scanning: by absolute-prefix
/// match or by folder-name match.
pub fn is_excluded_dir(path: &str, exclude_dirs: &Vec<String>) -> (r: bool)
    ensures
        r == excluded_spec(path@, exclude_dirs@),
{
    let p = text::str_to_chars(path);
    let en = exclude_dirs.len();
    let mut i: usize = 0;
    while i < en
        invariant
            i <= en,
            en == exclude_dirs@.len(),
            p@ == path@,
            forall|k: int| 0 <= k < i ==> !matches_exclude(path@, #[trigger] exclude_dirs@[k]@),
        decreases en - i,
    {
        let e = text::str_to_chars(exclude_dirs[i].as_str());
        let matched: bool;
        if e.len() > 0 && e[0] == '/' {
            matched = matches_absolute(&p, &e);
        } else {
            let name = file_name_part(exclude_dirs[i].as_str());
            if name.len() > 0 {
                matched = has_component(&p, &name);
            } else {
                matched = false;
                proof {
                    if matches_exclude(path@, exclude_dirs@[i as int]@) {
                        let b = choose|b: int| component_at(path@, b, file_name_of(e@));
                        assert(file_name_of(e@).len() > 0);
                        assert(false);
                    }
                }
            }
        }
        if matched {
            proof {
                assert(matches_exclude(path@, exclude_dirs@[i as int]@));
                assert(excluded_spec(path@, exclude_dirs@));
            }
            return true;
        }
        i += 1;
    }
    proof {
        if excluded_spec(path@, exclude_dirs@) {
            let k = choose|k: int|
                0 <= k < exclude_dirs@.len() && matches_exclude(
                    path@,
                    #[trigger] exclude_dirs@[k]@,
                );
            assert(false);
        }
    }
    false
}

/// Where a duplicate's result should point: the destination its
/// survivor was already given in this run, or the survivor's own path
/// as a forward reference while it has none.
pub fn duplicate_pointer(
    placed: &Vec<(u64, String)>,
    content_hash: u64,
    survivor_source: &String,
) -> (r: String)
    ensures
        match crate::state::lookup_dest(placed@, content_hash) {
            Some(d) => r@ == d,
            None => r@ == survivor_source@,
        },
{
    let n = placed.len();
    let mut i: usize = 0;
    proof {
        assert(placed@.skip(0) =~= placed@);
    }
    while i < n
        invariant
            i <= n,
            n == placed@.len(),
            crate::state::lookup_dest(placed@, content_hash) == crate::state::lookup_dest(
                placed@.skip(i as int),
                content_hash,
            ),
        decreases n - i,
    {
        proof {
            assert(placed@.skip(i as int)[0] == placed@[i as int]);
            assert(placed@.skip(i as int).drop_first() =~= placed@.skip(i as int + 1));
        }
        if placed[i].0 == content_hash {
            return placed[i].1.clone();
        }
        i += 1;
    }
    survivor_source.clone()
}

/// Whether a file's content already sits somewhere in the target tree,
/// by hash membership; an unhashed file never counts as present.
#[verifier::loop_isolation(false)]
pub fn content_already_present(existing: &Vec<u64>, content_hash: Option<u64>) -> (r: bool)
    ensures
        r == (content_hash matches Some(h) && existing@.contains(h)),
{
    let h = match content_hash {
        Some(h) => h,
        None => {
            return false;
        },
    };
    let n = existing.len();
    let mut i: usize = 0;
    while i < n
        invariant
            i <= n,
            n == existing@.len(),
            forall|k: int| 0 <= k < i ==> (#[trigger] existing@[k]) != h,
        decreases n - i,
    {
        if existing[i] == h {
            proof {
                assert(existing@.contains(h));
            }
            return true;
        }
        i += 1;
    }
    proof {
        if existing@.contains(h) {
            let k = choose|k: int| 0 <= k < existing@.len() && existing@[k] == h;
            assert(false);
        }
    }
    false
}

/// Whether a result is eligible to advance the watermark: a real or
/// dry-run placement with both a destination and a timestamp.
pub open spec fn watermark_eligible(r: FileResult) -> bool {
    &&& (r.status == ProcessingStatus::Success || r.status == ProcessingStatus::DryRun)
    &&& r.time_info is Some
    &&& r.destination is Some
}

/// The epoch seconds of a result's extracted timestamp.
pub open spec fn result_epoch(r: FileResult) -> int {
    crate::time::datetime::epoch_seconds_spec(r.time_info->Some_0.timestamp)
}

/// Find the newest successfully placed result: the first result whose
/// timestamp strictly exceeds every earlier eligible one and is matched
/// by none later.
pub fn select_newest_result(results: &Vec<FileResult>) -> (r: Option<usize>)
    requires
        forall|k: int|
            0 <= k < results@.len() && (#[trigger] results@[k]).time_info is Some
                ==> results@[k].time_info->Some_0.timestamp.valid(),
    ensures
        match r {
            Some(i) => i < results@.len() && watermark_eligible(results@[i as int]) && (forall|
                j: int,
            |
                0 <= j < results@.len() && watermark_eligible(#[trigger] results@[j])
                    ==> result_epoch(results@[j]) <= result_epoch(results@[i as int])) && (forall|
                j: int,
            |
                0 <= j < i && watermark_eligible(#[trigger] results@[j]) ==> result_epoch(
                    results@[j],
                ) < result_epoch(results@[i as int])),
            None => forall|j: int|
                0 <= j < results@.len() ==> !watermark_eligible(#[trigger] results@[j]),
        },
{
    let n = results.len();
    let mut best: Option<usize> = None;
    let mut best_epoch: i64 = 0;
    let mut i: usize = 0;
    while i < n
        invariant
            i <= n,
            n == results@.len(),
            forall|k: int|
                0 <= k < n && (#[trigger] results@[k]).time_info is Some
                    ==> results@[k].time_info->Some_0.timestamp.valid(),
            match best {
                Some(b) => b < i && watermark_eligible(results@[b as int]) && best_epoch
                    == result_epoch(results@[b as int]) && (forall|j: int|
                    0 <= j < i && watermark_eligible(#[trigger] results@[j]) ==> result_epoch(
                        results@[j],
                    ) <= best_epoch) && (forall|j: int|
                    0 <= j < b && watermark_eligible(#[trigger] results@[j]) ==> result_epoch(
                        results@[j],
                    ) < best_epoch),
                None => forall|j: int|
                    0 <= j < i ==> !watermark_eligible(#[trigger] results@[j]),
            },
        decreases n - i,
    {
        let eligible = (match results[i].status {
            ProcessingStatus::Success => true,
            ProcessingStatus::DryRun => true,
            _ => false,
        }) && results[i].time_info.is_some() && results[i].destination.is_some();
        if eligible {
            let ts = match &results[i].time_info {
                Some(ti) => ti.timestamp,
                None => crate::time::datetime::DateTime {
                    year: 1970,
                    month: 1,
                    day: 1,
                    hour: 0,
                    minute: 0,
                    second: 0,
                },
            };
            let e = ts.to_epoch_seconds();
            let is_newer = match best {
                Some(_) => e > best_epoch,
                None => true,
            };
            if is_newer {
                best = Some(i);
                best_epoch = e;
            }
        }
        i += 1;
    }
    best
}

/// Scan for a trailing lead-plus-digits marker.
fn trailing_number_check(s: &Vec<char>, lead: char) -> (r: bool)
    ensures
        r == (exists|i: int| trailing_number_at(s@, lead, i)),
{
    let n = s.len();
    let mut i: usize = 0;
    while i < n
        invariant
            i <= n,
            n == s@.len(),
            forall|j: int| 0 <= j < i ==> !trailing_number_at(s@, lead, j),
        decreases n - i,
    {
        if n >= 2 && i <= n - 2 && s[i] == lead && digits_between(s, i, n) {
            proof {
                assert(trailing_number_at(s@, lead, i as int));
                assert(exists|j: int| trailing_number_at(s@, lead, j));
            }
            return true;
        }
        proof {
            assert(!trailing_number_at(s@, lead, i as int));
        }
        i += 1;
    }
    proof {
        if exists|j: int| trailing_number_at(s@, lead, j) {
            let j = choose|j: int| trailing_number_at(s@, lead, j);
            assert(0 <= j < n);
            assert(false);
        }
    }
    false
}

} // verus!
