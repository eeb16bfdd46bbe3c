//! Filename timestamp parsing.
//!
//! An ordered set of pattern families is tried against the filename with
//! its extension removed; within a family the leftmost structural match
//! is taken and validated, and the first family that yields a
//! calendar-valid timestamp wins. Families, in priority order: compact
//! `YYYYMMDD[-_]HHMMSS`, camera-prefixed (`IMG_`, `VID_`, ...),
//! screenshot keywords, separated `YYYY-MM-DD_HH-MM-SS`, messaging-app
//! `IMG-YYYYMMDD-WA`, ten-digit Unix epochs, and bare `YYYYMMDD` dates.

use vstd::prelude::*;
use crate::text;
use crate::time::datetime::{DateTime, datetime_new_checked, datetime_of_epoch, days_in_month_spec,
    epoch_seconds_spec, from_epoch_seconds, in_supported_range, min_datetime, max_datetime,
    day_number, days_before_year, days_before_month, lemma_days_before_year_bounds,
    lemma_days_before_month_bounds, MIN_YEAR, MAX_YEAR};

verus! {

/// Position `i` holds `n` consecutive decimal digits.
pub open spec fn digits_at(s: Seq<char>, i: int, n: int) -> bool {
    &&& 0 <= i
    &&& i + n <= s.len()
    &&& forall|k: int| i <= k < i + n ==> text::is_digit(#[trigger] s[k])
}

/// Underscore or hyphen.
pub open spec fn is_sep_ud(c: char) -> bool {
    c == '_' || c == '-'
}

/// The whitespace characters the screenshot family accepts between its
/// parts.
pub open spec fn is_space_char(c: char) -> bool {
    c == ' ' || c == '\t' || c == '\n' || c == '\r' || c == '\u{b}' || c == '\u{c}'
}

/// The literal `w` occurs at position `i`.
pub open spec fn lit_at(s: Seq<char>, i: int, w: Seq<char>) -> bool {
    &&& 0 <= i
    &&& i + w.len() <= s.len()
    &&& forall|k: int| 0 <= k < w.len() ==> s[i + k] == #[trigger] w[k]
}

/// Position after an optional underscore-or-hyphen separator at `p`.
pub open spec fn opt_sep_ud(s: Seq<char>, p: int) -> int {
    if 0 <= p < s.len() && is_sep_ud(s[p]) {
        p + 1
    } else {
        p
    }
}

/// Position after an optional underscore, hyphen or dot at `p`.
pub open spec fn opt_sep_dot(s: Seq<char>, p: int) -> int {
    if 0 <= p < s.len() && (is_sep_ud(s[p]) || s[p] == '.') {
        p + 1
    } else {
        p
    }
}

/// Greedily skip separators and whitespace from `p`.
pub open spec fn skip_seps(s: Seq<char>, p: int) -> int
    decreases s.len() - p,
{
    if 0 <= p < s.len() && (is_sep_ud(s[p]) || is_space_char(s[p])) {
        skip_seps(s, p + 1)
    } else {
        p
    }
}

/// The field values of a match: year, month, day, hour, minute, second.
pub struct RawFields {
    pub year: u64,
    pub month: u64,
    pub day: u64,
    pub hour: u64,
    pub minute: u64,
    pub second: u64,
}

/// The validation every filename match passes through: years 1990
/// through 2100, months, days and time fields in range, and a real
/// calendar date.
pub open spec fn checked_fields_spec(y: int, mo: int, d: int, h: int, mi: int, se: int) -> Option<
    DateTime,
> {
    if 1990 <= y <= 2100 && 1 <= mo <= 12 && 1 <= d <= 31 && 0 <= h <= 23 && 0 <= mi <= 59 && 0
        <= se <= 59 && d <= days_in_month_spec(y, mo) {
        Some(
            DateTime {
                year: y as i32,
                month: mo as u8,
                day: d as u8,
                hour: h as u8,
                minute: mi as u8,
                second: se as u8,
            },
        )
    } else {
        None
    }
}

/// Validate match fields: the structural ranges the original patterns
/// demanded, then the real calendar.
pub fn build_datetime(f: &RawFields) -> (r: Option<DateTime>)
    requires
        f.year < 100000,
        f.month < 100000,
        f.day < 100000,
        f.hour < 100000,
        f.minute < 100000,
        f.second < 100000,
    ensures
        r == checked_fields_spec(
            f.year as int,
            f.month as int,
            f.day as int,
            f.hour as int,
            f.minute as int,
            f.second as int,
        ),
        r matches Some(dt) ==> dt.valid(),
{
    if !(1990 <= f.year && f.year <= 2100) {
        return None;
    }
    if !(1 <= f.month && f.month <= 12) {
        return None;
    }
    if !(1 <= f.day && f.day <= 31) {
        return None;
    }
    if f.hour > 23 || f.minute > 59 || f.second > 59 {
        return None;
    }
    datetime_new_checked(
        f.year as i64,
        f.month as i64,
        f.day as i64,
        f.hour as i64,
        f.minute as i64,
        f.second as i64,
    )
}

/// The value of `n` digits at `i`, with its width bound.
pub open spec fn field_val(s: Seq<char>, i: int, n: int) -> int {
    text::digits_val(s.subrange(i, i + n))
}

/// A digit run's value stays below the capacity of its width.
proof fn lemma_field_val_bound(s: Seq<char>, i: int, n: int)
    requires
        digits_at(s, i, n),
        0 <= n <= 10,
    ensures
        0 <= field_val(s, i, n) < text::pow10(n as nat),
        text::all_digits(s.subrange(i, i + n)),
{
    assert(text::all_digits(s.subrange(i, i + n)));
    text::lemma_digits_val_bounds(s.subrange(i, i + n));
}

/// Check for `n` consecutive digits at `i`.
fn digits_check(s: &Vec<char>, i: usize, n: usize) -> (r: bool)
    ensures
        r == digits_at(s@, i as int, n as int),
{
    let len = s.len();
    if n > len || i > len - n {
        return false;
    }
    let mut k: usize = 0;
    let mut ok = true;
    while k < n
        invariant
            k <= n,
            i + n <= len,
            len == s@.len(),
            ok == (forall|j: int| i <= j < i + k ==> text::is_digit(#[trigger] s@[j])),
        decreases n - k,
    {
        ok = ok && text::char_is_digit(s[i + k]);
        k += 1;
    }
    ok
}

/// Check for the literal `w` at `i`.
fn lit_check(s: &Vec<char>, i: usize, w: &Vec<char>) -> (r: bool)
    ensures
        r == lit_at(s@, i as int, w@),
{
    let len = s.len();
    let wl = w.len();
    if wl > len || i > len - wl {
        return false;
    }
    let mut k: usize = 0;
    let mut ok = true;
    while k < wl
        invariant
            k <= wl,
            i + wl <= len,
            len == s@.len(),
            wl == w@.len(),
            ok == (forall|j: int| 0 <= j < k ==> s@[i + j] == #[trigger] w@[j]),
        decreases wl - k,
    {
        ok = ok && s[i + k] == w[k];
        k += 1;
    }
    ok
}

/// Parse the `n` digits at `i` as a value.
fn field_parse(s: &Vec<char>, i: usize, n: usize) -> (r: u64)
    requires
        digits_at(s@, i as int, n as int),
        n <= 10,
    ensures
        r == field_val(s@, i as int, n as int),
        r < 100000 * 100000,
{
    let len = s.len();
    proof {
        lemma_field_val_bound(s@, i as int, n as int);
        text::lemma_pow10_monotone(n as nat, 10);
        reveal_with_fuel(text::pow10, 11);
        assert(i + n <= len);
    }
    text::parse_dec_value(s, i, i + n)
}

// ---------------------------------------------------------------------
// Compact family: YYYYMMDD[-_]HHMMSS
// ---------------------------------------------------------------------
/// Structural match of the compact family at `i`.
pub open spec fn compact_match_at(s: Seq<char>, i: int) -> bool {
    &&& digits_at(s, i, 8)
    &&& i + 15 <= s.len()
    &&& is_sep_ud(s[i + 8])
    &&& digits_at(s, i + 9, 6)
}

/// Leftmost compact match at or after `i`.
pub open spec fn compact_first(s: Seq<char>, i: int) -> Option<int>
    decreases s.len() - i,
{
    if !(0 <= i < s.len()) {
        None
    } else if compact_match_at(s, i) {
        Some(i)
    } else {
        compact_first(s, i + 1)
    }
}

proof fn lemma_compact_first_none(s: Seq<char>, i: int)
    requires
        forall|j: int| i <= j < s.len() ==> !compact_match_at(s, j),
    ensures
        compact_first(s, i) == None::<int>,
    decreases s.len() - i,
{
    if 0 <= i < s.len() {
        lemma_compact_first_none(s, i + 1);
    }
}

/// What the compact family reads from a stripped filename.
pub open spec fn compact_spec(s: Seq<char>) -> Option<DateTime> {
    match compact_first(s, 0) {
        Some(i) => checked_fields_spec(
            field_val(s, i, 4),
            field_val(s, i + 4, 2),
            field_val(s, i + 6, 2),
            field_val(s, i + 9, 2),
            field_val(s, i + 11, 2),
            field_val(s, i + 13, 2),
        ),
        None => None,
    }
}

fn compact_check_at(s: &Vec<char>, i: usize) -> (r: bool)
    ensures
        r == compact_match_at(s@, i as int),
{
    let n = s.len();
    if n < 15 || i > n - 15 {
        return false;
    }
    if !digits_check(s, i, 8) {
        return false;
    }
    let c = s[i + 8];
    if !(c == '_' || c == '-') {
        return false;
    }
    digits_check(s, i + 9, 6)
}

/// Try the compact family.
pub fn try_pattern_compact(s: &Vec<char>) -> (r: Option<DateTime>)
    ensures
        r == compact_spec(s@),
        r matches Some(dt) ==> dt.valid(),
{
    let n = s.len();
    let mut i: usize = 0;
    while i < n
        invariant
            i <= n,
            n == s@.len(),
            compact_first(s@, 0) == compact_first(s@, i as int),
            forall|j: int| 0 <= j < i ==> !compact_match_at(s@, j),
        decreases n - i,
    {
        if compact_check_at(s, i) {
            proof {
                assert(compact_first(s@, i as int) == Some(i as int));
            }
            let fields = RawFields {
                year: field_parse(s, i, 4),
                month: field_parse(s, i + 4, 2),
                day: field_parse(s, i + 6, 2),
                hour: field_parse(s, i + 9, 2),
                minute: field_parse(s, i + 11, 2),
                second: field_parse(s, i + 13, 2),
            };
            proof {
                text::lemma_pow10_small();
                lemma_field_val_bound(s@, i as int, 4);
                lemma_field_val_bound(s@, i as int + 4, 2);
                lemma_field_val_bound(s@, i as int + 6, 2);
                lemma_field_val_bound(s@, i as int + 9, 2);
                lemma_field_val_bound(s@, i as int + 11, 2);
                lemma_field_val_bound(s@, i as int + 13, 2);
            }
            return build_datetime(&fields);
        }
        i += 1;
    }
    proof {
        lemma_compact_first_none(s@, i as int);
    }
    None
}

// ---------------------------------------------------------------------
// Camera-prefix family: IMG/VID/DSC/DCIM/MOV/MVI/DJI/GOPR/GP
// ---------------------------------------------------------------------
/// The recognized camera prefixes, in the order they are tried.
pub open spec fn camera_prefixes() -> Seq<Seq<char>> {
    seq![
        seq!['I', 'M', 'G'],
        seq!['V', 'I', 'D'],
        seq!['D', 'S', 'C'],
        seq!['D', 'C', 'I', 'M'],
        seq!['M', 'O', 'V'],
        seq!['M', 'V', 'I'],
        seq!['D', 'J', 'I'],
        seq!['G', 'O', 'P', 'R'],
        seq!['G', 'P'],
    ]
}

/// Length of the first camera prefix matching at `i`, if any.
pub open spec fn camera_prefix_at(s: Seq<char>, i: int) -> Option<int> {
    camera_prefix_from(s, i, 0)
}

/// Length of the first camera prefix at index `k` or later in the table
/// matching at `i`.
pub open spec fn camera_prefix_from(s: Seq<char>, i: int, k: int) -> Option<int>
    decreases camera_prefixes().len() - k,
{
    if !(0 <= k < camera_prefixes().len()) {
        None
    } else if lit_at(s, i, camera_prefixes()[k]) {
        Some(camera_prefixes()[k].len() as int)
    } else {
        camera_prefix_from(s, i, k + 1)
    }
}

/// Structural match of the camera family at `i`: a prefix, an optional
/// separator, eight digits, an optional separator, six digits.
pub open spec fn camera_match_at(s: Seq<char>, i: int) -> bool {
    match camera_prefix_at(s, i) {
        Some(pl) => {
            let p = opt_sep_ud(s, i + pl);
            &&& digits_at(s, p, 8)
            &&& digits_at(s, opt_sep_ud(s, p + 8), 6)
        },
        None => false,
    }
}

/// Leftmost camera match at or after `i`.
pub open spec fn camera_first(s: Seq<char>, i: int) -> Option<int>
    decreases s.len() - i,
{
    if !(0 <= i < s.len()) {
        None
    } else if camera_match_at(s, i) {
        Some(i)
    } else {
        camera_first(s, i + 1)
    }
}

proof fn lemma_camera_first_none(s: Seq<char>, i: int)
    requires
        forall|j: int| i <= j < s.len() ==> !camera_match_at(s, j),
    ensures
        camera_first(s, i) == None::<int>,
    decreases s.len() - i,
{
    if 0 <= i < s.len() {
        lemma_camera_first_none(s, i + 1);
    }
}

/// What the camera family reads from a stripped filename.
pub open spec fn camera_spec(s: Seq<char>) -> Option<DateTime> {
    match camera_first(s, 0) {
        Some(i) => {
            let pl = camera_prefix_at(s, i)->Some_0;
            let p = opt_sep_ud(s, i + pl);
            let q = opt_sep_ud(s, p + 8);
            checked_fields_spec(
                field_val(s, p, 4),
                field_val(s, p + 4, 2),
                field_val(s, p + 6, 2),
                field_val(s, q, 2),
                field_val(s, q + 2, 2),
                field_val(s, q + 4, 2),
            )
        },
        None => None,
    }
}

/// Length of the first camera prefix matching at `i`, if any.
fn camera_prefix_check(s: &Vec<char>, i: usize) -> (r: Option<usize>)
    ensures
        match r {
            Some(pl) => camera_prefix_at(s@, i as int) == Some(pl as int),
            None => camera_prefix_at(s@, i as int) == None::<int>,
        },
{
    let img: Vec<char> = vec!['I', 'M', 'G'];
    let vid: Vec<char> = vec!['V', 'I', 'D'];
    let dsc: Vec<char> = vec!['D', 'S', 'C'];
    let dcim: Vec<char> = vec!['D', 'C', 'I', 'M'];
    let mov: Vec<char> = vec!['M', 'O', 'V'];
    let mvi: Vec<char> = vec!['M', 'V', 'I'];
    let dji: Vec<char> = vec!['D', 'J', 'I'];
    let gopr: Vec<char> = vec!['G', 'O', 'P', 'R'];
    let gp: Vec<char> = vec!['G', 'P'];
    proof {
        reveal_with_fuel(camera_prefix_from, 11);
        assert(img@ =~= camera_prefixes()[0]);
        assert(vid@ =~= camera_prefixes()[1]);
        assert(dsc@ =~= camera_prefixes()[2]);
        assert(dcim@ =~= camera_prefixes()[3]);
        assert(mov@ =~= camera_prefixes()[4]);
        assert(mvi@ =~= camera_prefixes()[5]);
        assert(dji@ =~= camera_prefixes()[6]);
        assert(gopr@ =~= camera_prefixes()[7]);
        assert(gp@ =~= camera_prefixes()[8]);
    }
    if lit_check(s, i, &img) {
        Some(3)
    } else if lit_check(s, i, &vid) {
        Some(3)
    } else if lit_check(s, i, &dsc) {
        Some(3)
    } else if lit_check(s, i, &dcim) {
        Some(4)
    } else if lit_check(s, i, &mov) {
        Some(3)
    } else if lit_check(s, i, &mvi) {
        Some(3)
    } else if lit_check(s, i, &dji) {
        Some(3)
    } else if lit_check(s, i, &gopr) {
        Some(4)
    } else if lit_check(s, i, &gp) {
        Some(2)
    } else {
        None
    }
}

/// Position after an optional underscore-or-hyphen at `p`.
fn opt_sep_ud_exec(s: &Vec<char>, p: usize) -> (r: usize)
    requires
        p <= s@.len(),
    ensures
        r == opt_sep_ud(s@, p as int),
        p <= r <= p + 1,
        r <= s@.len(),
{
    if p < s.len() && (s[p] == '_' || s[p] == '-') {
        p + 1
    } else {
        p
    }
}

/// Try the camera family at one position.
fn camera_try_at(s: &Vec<char>, i: usize) -> (r: Option<RawFields>)
    requires
        i < s@.len(),
    ensures
        r.is_some() == camera_match_at(s@, i as int),
        r matches Some(f) ==> {
            let pl = camera_prefix_at(s@, i as int)->Some_0;
            let p = opt_sep_ud(s@, i as int + pl);
            let q = opt_sep_ud(s@, p + 8);
            &&& f.year == field_val(s@, p, 4)
            &&& f.month == field_val(s@, p + 4, 2)
            &&& f.day == field_val(s@, p + 6, 2)
            &&& f.hour == field_val(s@, q, 2)
            &&& f.minute == field_val(s@, q + 2, 2)
            &&& f.second == field_val(s@, q + 4, 2)
            &&& f.year < 100000 && f.month < 100000 && f.day < 100000
            &&& f.hour < 100000 && f.minute < 100000 && f.second < 100000
        },
{
    let pl = match camera_prefix_check(s, i) {
        Some(pl) => pl,
        None => {
            return None;
        },
    };
    let n = s.len();
    if pl > n - i {
        proof {
            assert(!digits_at(s@, opt_sep_ud(s@, i as int + pl as int), 8));
        }
        return None;
    }
    let p = opt_sep_ud_exec(s, i + pl);
    if !digits_check(s, p, 8) {
        return None;
    }
    let q = opt_sep_ud_exec(s, p + 8);
    if !digits_check(s, q, 6) {
        return None;
    }
    proof {
        lemma_field_val_bound(s@, p as int, 4);
        lemma_field_val_bound(s@, p as int + 4, 2);
        lemma_field_val_bound(s@, p as int + 6, 2);
        lemma_field_val_bound(s@, q as int, 2);
        lemma_field_val_bound(s@, q as int + 2, 2);
        lemma_field_val_bound(s@, q as int + 4, 2);
        text::lemma_pow10_small();
    }
    Some(
        RawFields {
            year: field_parse(s, p, 4),
            month: field_parse(s, p + 4, 2),
            day: field_parse(s, p + 6, 2),
            hour: field_parse(s, q, 2),
            minute: field_parse(s, q + 2, 2),
            second: field_parse(s, q + 4, 2),
        },
    )
}

/// Try the camera-prefix family.
pub fn try_pattern_img(s: &Vec<char>) -> (r: Option<DateTime>)
    ensures
        r == camera_spec(s@),
        r matches Some(dt) ==> dt.valid(),
{
    let n = s.len();
    let mut i: usize = 0;
    while i < n
        invariant
            i <= n,
            n == s@.len(),
            camera_first(s@, 0) == camera_first(s@, i as int),
            forall|j: int| 0 <= j < i ==> !camera_match_at(s@, j),
        decreases n - i,
    {
        match camera_try_at(s, i) {
            Some(fields) => {
                proof {
                    assert(camera_first(s@, i as int) == Some(i as int));
                }
                return build_datetime(&fields);
            },
            None => {},
        }
        i += 1;
    }
    proof {
        lemma_camera_first_none(s@, i as int);
    }
    None
}

// ---------------------------------------------------------------------
// Separated family: YYYY-MM-DD_HH-MM-SS with interchangeable separators
// ---------------------------------------------------------------------
/// Structural match of the separated family at `i`: four digit groups
/// split by `-`/`_`, with whitespace also allowed between date and time.
pub open spec fn separated_match_at(s: Seq<char>, i: int) -> bool {
    &&& 0 <= i
    &&& i + 19 <= s.len()
    &&& digits_at(s, i, 4)
    &&& is_sep_ud(s[i + 4])
    &&& digits_at(s, i + 5, 2)
    &&& is_sep_ud(s[i + 7])
    &&& digits_at(s, i + 8, 2)
    &&& (is_sep_ud(s[i + 10]) || is_space_char(s[i + 10]))
    &&& digits_at(s, i + 11, 2)
    &&& is_sep_ud(s[i + 13])
    &&& digits_at(s, i + 14, 2)
    &&& is_sep_ud(s[i + 16])
    &&& digits_at(s, i + 17, 2)
}

/// Leftmost separated match at or after `i`.
pub open spec fn separated_first(s: Seq<char>, i: int) -> Option<int>
    decreases s.len() - i,
{
    if !(0 <= i < s.len()) {
        None
    } else if separated_match_at(s, i) {
        Some(i)
    } else {
        separated_first(s, i + 1)
    }
}

proof fn lemma_separated_first_none(s: Seq<char>, i: int)
    requires
        forall|j: int| i <= j < s.len() ==> !separated_match_at(s, j),
    ensures
        separated_first(s, i) == None::<int>,
    decreases s.len() - i,
{
    if 0 <= i < s.len() {
        lemma_separated_first_none(s, i + 1);
    }
}

/// What the separated family reads from a stripped filename.
pub open spec fn separated_spec(s: Seq<char>) -> Option<DateTime> {
    match separated_first(s, 0) {
        Some(i) => checked_fields_spec(
            field_val(s, i, 4),
            field_val(s, i + 5, 2),
            field_val(s, i + 8, 2),
            field_val(s, i + 11, 2),
            field_val(s, i + 14, 2),
            field_val(s, i + 17, 2),
        ),
        None => None,
    }
}

fn separated_check_at(s: &Vec<char>, i: usize) -> (r: bool)
    ensures
        r == separated_match_at(s@, i as int),
{
    let n = s.len();
    if n < 19 || i > n - 19 {
        return false;
    }
    let s4 = s[i + 4];
    let s7 = s[i + 7];
    let s10 = s[i + 10];
    let s13 = s[i + 13];
    let s16 = s[i + 16];
    digits_check(s, i, 4) && (s4 == '_' || s4 == '-') && digits_check(s, i + 5, 2) && (s7 == '_'
        || s7 == '-') && digits_check(s, i + 8, 2) && (s10 == '_' || s10 == '-' || s10 == ' '
        || s10 == '\t' || s10 == '\n' || s10 == '\r' || s10 == '\u{b}' || s10 == '\u{c}')
        && digits_check(s, i + 11, 2) && (s13 == '_' || s13 == '-') && digits_check(s, i + 14, 2)
        && (s16 == '_' || s16 == '-') && digits_check(s, i + 17, 2)
}

/// Try the separated family.
pub fn try_pattern_separated(s: &Vec<char>) -> (r: Option<DateTime>)
    ensures
        r == separated_spec(s@),
        r matches Some(dt) ==> dt.valid(),
{
    let n = s.len();
    let mut i: usize = 0;
    while i < n
        invariant
            i <= n,
            n == s@.len(),
            separated_first(s@, 0) == separated_first(s@, i as int),
            forall|j: int| 0 <= j < i ==> !separated_match_at(s@, j),
        decreases n - i,
    {
        if separated_check_at(s, i) {
            proof {
                assert(separated_first(s@, i as int) == Some(i as int));
                text::lemma_pow10_small();
                lemma_field_val_bound(s@, i as int, 4);
                lemma_field_val_bound(s@, i as int + 5, 2);
                lemma_field_val_bound(s@, i as int + 8, 2);
                lemma_field_val_bound(s@, i as int + 11, 2);
                lemma_field_val_bound(s@, i as int + 14, 2);
                lemma_field_val_bound(s@, i as int + 17, 2);
            }
            let fields = RawFields {
                year: field_parse(s, i, 4),
                month: field_parse(s, i + 5, 2),
                day: field_parse(s, i + 8, 2),
                hour: field_parse(s, i + 11, 2),
                minute: field_parse(s, i + 14, 2),
                second: field_parse(s, i + 17, 2),
            };
            return build_datetime(&fields);
        }
        i += 1;
    }
    proof {
        lemma_separated_first_none(s@, i as int);
    }
    None
}

// ---------------------------------------------------------------------
// Messaging-app family: IMG-YYYYMMDD-WA / VID-YYYYMMDD-WA
// ---------------------------------------------------------------------
/// Structural match of the messaging-app family at `i`.
pub open spec fn whatsapp_match_at(s: Seq<char>, i: int) -> bool {
    &&& 0 <= i
    &&& i + 15 <= s.len()
    &&& (lit_at(s, i, seq!['I', 'M', 'G']) || lit_at(s, i, seq!['V', 'I', 'D']))
    &&& is_sep_ud(s[i + 3])
    &&& digits_at(s, i + 4, 8)
    &&& is_sep_ud(s[i + 12])
    &&& s[i + 13] == 'W'
    &&& s[i + 14] == 'A'
}

/// Leftmost messaging-app match at or after `i`.
pub open spec fn whatsapp_first(s: Seq<char>, i: int) -> Option<int>
    decreases s.len() - i,
{
    if !(0 <= i < s.len()) {
        None
    } else if whatsapp_match_at(s, i) {
        Some(i)
    } else {
        whatsapp_first(s, i + 1)
    }
}

proof fn lemma_whatsapp_first_none(s: Seq<char>, i: int)
    requires
        forall|j: int| i <= j < s.len() ==> !whatsapp_match_at(s, j),
    ensures
        whatsapp_first(s, i) == None::<int>,
    decreases s.len() - i,
{
    if 0 <= i < s.len() {
        lemma_whatsapp_first_none(s, i + 1);
    }
}

/// What the messaging-app family reads: a date at midnight.
pub open spec fn whatsapp_spec(s: Seq<char>) -> Option<DateTime> {
    match whatsapp_first(s, 0) {
        Some(i) => checked_fields_spec(
            field_val(s, i + 4, 4),
            field_val(s, i + 8, 2),
            field_val(s, i + 10, 2),
            0,
            0,
            0,
        ),
        None => None,
    }
}

fn whatsapp_check_at(s: &Vec<char>, i: usize) -> (r: bool)
    ensures
        r == whatsapp_match_at(s@, i as int),
{
    let n = s.len();
    if n < 15 || i > n - 15 {
        return false;
    }
    let img: Vec<char> = vec!['I', 'M', 'G'];
    let vid: Vec<char> = vec!['V', 'I', 'D'];
    proof {
        assert(img@ =~= seq!['I', 'M', 'G']);
        assert(vid@ =~= seq!['V', 'I', 'D']);
    }
    let s3 = s[i + 3];
    let s12 = s[i + 12];
    (lit_check(s, i, &img) || lit_check(s, i, &vid)) && (s3 == '_' || s3 == '-') && digits_check(
        s,
        i + 4,
        8,
    ) && (s12 == '_' || s12 == '-') && s[i + 13] == 'W' && s[i + 14] == 'A'
}

/// Try the messaging-app family.
pub fn try_pattern_whatsapp(s: &Vec<char>) -> (r: Option<DateTime>)
    ensures
        r == whatsapp_spec(s@),
        r matches Some(dt) ==> dt.valid(),
{
    let n = s.len();
    let mut i: usize = 0;
    while i < n
        invariant
            i <= n,
            n == s@.len(),
            whatsapp_first(s@, 0) == whatsapp_first(s@, i as int),
            forall|j: int| 0 <= j < i ==> !whatsapp_match_at(s@, j),
        decreases n - i,
    {
        if whatsapp_check_at(s, i) {
            proof {
                assert(whatsapp_first(s@, i as int) == Some(i as int));
                text::lemma_pow10_small();
                lemma_field_val_bound(s@, i as int + 4, 4);
                lemma_field_val_bound(s@, i as int + 8, 2);
                lemma_field_val_bound(s@, i as int + 10, 2);
            }
            let fields = RawFields {
                year: field_parse(s, i + 4, 4),
                month: field_parse(s, i + 8, 2),
                day: field_parse(s, i + 10, 2),
                hour: 0,
                minute: 0,
                second: 0,
            };
            return build_datetime(&fields);
        }
        i += 1;
    }
    proof {
        lemma_whatsapp_first_none(s@, i as int);
    }
    None
}

// ---------------------------------------------------------------------
// Unix-epoch family: a run of at least ten digits
// ---------------------------------------------------------------------
/// Earliest epoch second the family accepts (1990-01-01).
pub const UNIX_TS_MIN: u64 = 631152000;

/// Latest epoch second the family accepts (2100-01-01).
pub const UNIX_TS_MAX: u64 = 4102444800;

/// Structural match of the epoch family at `i`: ten consecutive digits.
pub open spec fn unix_match_at(s: Seq<char>, i: int) -> bool {
    digits_at(s, i, 10)
}

/// Leftmost epoch match at or after `i`.
pub open spec fn unix_first(s: Seq<char>, i: int) -> Option<int>
    decreases s.len() - i,
{
    if !(0 <= i < s.len()) {
        None
    } else if unix_match_at(s, i) {
        Some(i)
    } else {
        unix_first(s, i + 1)
    }
}

proof fn lemma_unix_first_none(s: Seq<char>, i: int)
    requires
        forall|j: int| i <= j < s.len() ==> !unix_match_at(s, j),
    ensures
        unix_first(s, i) == None::<int>,
    decreases s.len() - i,
{
    if 0 <= i < s.len() {
        lemma_unix_first_none(s, i + 1);
    }
}

/// What the epoch family reads: the first ten digits taken as seconds,
/// accepted only within the 1990 to 2100 window.
pub open spec fn unix_spec(s: Seq<char>) -> Option<DateTime> {
    match unix_first(s, 0) {
        Some(i) => {
            let ts = field_val(s, i, 10);
            if UNIX_TS_MIN <= ts <= UNIX_TS_MAX {
                Some(datetime_of_epoch(ts))
            } else {
                None
            }
        },
        None => None,
    }
}

/// The accepted epoch window sits inside the supported calendar range.
proof fn lemma_unix_window_supported(ts: int)
    requires
        UNIX_TS_MIN <= ts <= UNIX_TS_MAX,
    ensures
        in_supported_range(ts),
{
    lemma_days_before_year_bounds(MIN_YEAR as int);
    lemma_days_before_year_bounds(MAX_YEAR as int);
    lemma_days_before_month_bounds(MAX_YEAR as int, 12);
    assert(days_before_month(MIN_YEAR as int, 1) == 0);
    assert(epoch_seconds_spec(min_datetime()) == days_before_year(MIN_YEAR as int) * 86400);
    assert(days_before_year(MIN_YEAR as int) <= -135050);
    assert(days_before_year(MIN_YEAR as int) * 86400 <= (-135050) * 86400) by (nonlinear_arith)
        requires
            days_before_year(MIN_YEAR as int) <= -135050,
    ;
    assert(day_number(max_datetime()) >= 740585);
    assert(day_number(max_datetime()) * 86400 >= 740585 * 86400) by (nonlinear_arith)
        requires
            day_number(max_datetime()) >= 740585,
    ;
    assert(epoch_seconds_spec(max_datetime()) >= 740585 * 86400);
}

/// Try the epoch family.
pub fn try_pattern_unix(s: &Vec<char>) -> (r: Option<DateTime>)
    ensures
        r == unix_spec(s@),
        r matches Some(dt) ==> dt.valid(),
{
    let n = s.len();
    let mut i: usize = 0;
    while i < n
        invariant
            i <= n,
            n == s@.len(),
            unix_first(s@, 0) == unix_first(s@, i as int),
            forall|j: int| 0 <= j < i ==> !unix_match_at(s@, j),
        decreases n - i,
    {
        if digits_check(s, i, 10) {
            proof {
                assert(unix_first(s@, i as int) == Some(i as int));
            }
            let ts = field_parse(s, i, 10);
            if UNIX_TS_MIN <= ts && ts <= UNIX_TS_MAX {
                proof {
                    lemma_unix_window_supported(ts as int);
                }
                return Some(from_epoch_seconds(ts as i64));
            } else {
                return None;
            }
        }
        i += 1;
    }
    proof {
        lemma_unix_first_none(s@, i as int);
    }
    None
}

// ---------------------------------------------------------------------
// Date-only family: bare YYYYMMDD
// ---------------------------------------------------------------------
/// Structural match of the date-only family at `i`: eight digits.
pub open spec fn dateonly_match_at(s: Seq<char>, i: int) -> bool {
    digits_at(s, i, 8)
}

/// Leftmost date-only match at or after `i`.
pub open spec fn dateonly_first(s: Seq<char>, i: int) -> Option<int>
    decreases s.len() - i,
{
    if !(0 <= i < s.len()) {
        None
    } else if dateonly_match_at(s, i) {
        Some(i)
    } else {
        dateonly_first(s, i + 1)
    }
}

proof fn lemma_dateonly_first_none(s: Seq<char>, i: int)
    requires
        forall|j: int| i <= j < s.len() ==> !dateonly_match_at(s, j),
    ensures
        dateonly_first(s, i) == None::<int>,
    decreases s.len() - i,
{
    if 0 <= i < s.len() {
        lemma_dateonly_first_none(s, i + 1);
    }
}

/// What the date-only family reads: a date at midnight.
pub open spec fn dateonly_spec(s: Seq<char>) -> Option<DateTime> {
    match dateonly_first(s, 0) {
        Some(i) => checked_fields_spec(
            field_val(s, i, 4),
            field_val(s, i + 4, 2),
            field_val(s, i + 6, 2),
            0,
            0,
            0,
        ),
        None => None,
    }
}

/// Try the date-only family.
pub fn try_pattern_date_only(s: &Vec<char>) -> (r: Option<DateTime>)
    ensures
        r == dateonly_spec(s@),
        r matches Some(dt) ==> dt.valid(),
{
    let n = s.len();
    let mut i: usize = 0;
    while i < n
        invariant
            i <= n,
            n == s@.len(),
            dateonly_first(s@, 0) == dateonly_first(s@, i as int),
            forall|j: int| 0 <= j < i ==> !dateonly_match_at(s@, j),
        decreases n - i,
    {
        if digits_check(s, i, 8) {
            proof {
                assert(dateonly_first(s@, i as int) == Some(i as int));
                text::lemma_pow10_small();
                lemma_field_val_bound(s@, i as int, 4);
                lemma_field_val_bound(s@, i as int + 4, 2);
                lemma_field_val_bound(s@, i as int + 6, 2);
            }
            let fields = RawFields {
                year: field_parse(s, i, 4),
                month: field_parse(s, i + 4, 2),
                day: field_parse(s, i + 6, 2),
                hour: 0,
                minute: 0,
                second: 0,
            };
            return build_datetime(&fields);
        }
        i += 1;
    }
    proof {
        lemma_dateonly_first_none(s@, i as int);
    }
    None
}

// ---------------------------------------------------------------------
// Screenshot family: localized keyword, date, optional "at", time
// ---------------------------------------------------------------------
/// Length of the screenshot keyword at `i`, if any; keywords are tried
/// in a fixed order.
pub open spec fn screenshot_kw_at(s: Seq<char>, i: int) -> Option<int> {
    if lit_at(s, i, seq!['S', 'c', 'r', 'e', 'e', 'n', 's', 'h', 'o', 't']) {
        Some(10)
    } else if lit_at(s, i, seq!['S', 'c', 'r', 'e', 'e', 'n', ' ', 'S', 'h', 'o', 't']) {
        Some(11)
    } else if lit_at(s, i, seq!['C', 'a', 'p', 't', 'u', 'r', 'e']) {
        Some(7)
    } else if lit_at(s, i, seq!['\u{622a}', '\u{56fe}']) {
        Some(2)
    } else if lit_at(s, i, seq!['\u{622a}', '\u{5c4f}']) {
        Some(2)
    } else {
        None
    }
}

/// Minutes and seconds after the hour: an optional separator or dot,
/// two digits, again, two digits.
pub open spec fn screenshot_time_rest(s: Seq<char>, p: int) -> Option<(int, int)> {
    let q = opt_sep_dot(s, p);
    if digits_at(s, q, 2) {
        let r = opt_sep_dot(s, q + 2);
        if digits_at(s, r, 2) {
            Some((field_val(s, q, 2), field_val(s, r, 2)))
        } else {
            None
        }
    } else {
        None
    }
}

/// The screenshot family's field extraction at `i`: keyword, separators,
/// `YYYY[-_]?MM[-_]?DD`, separators, optional `at`, then a one- or
/// two-digit hour with minutes and seconds; the two-digit hour is
/// preferred.
pub open spec fn screenshot_at(s: Seq<char>, i: int) -> Option<(int, int, int, int, int, int)> {
    match screenshot_kw_at(s, i) {
        None => None,
        Some(kl) => {
            let p1 = skip_seps(s, i + kl);
            if digits_at(s, p1, 4) {
                let p2 = opt_sep_ud(s, p1 + 4);
                if digits_at(s, p2, 2) {
                    let p3 = opt_sep_ud(s, p2 + 2);
                    if digits_at(s, p3, 2) {
                        let p4 = skip_seps(s, p3 + 2);
                        let p5 = if p4 + 2 <= s.len() && s[p4] == 'a' && s[p4 + 1] == 't' {
                            skip_seps(s, p4 + 2)
                        } else {
                            p4
                        };
                        let hour2 = if digits_at(s, p5, 2) {
                            screenshot_time_rest(s, p5 + 2)
                        } else {
                            None
                        };
                        match hour2 {
                            Some((mi, se)) => Some(
                                (
                                    field_val(s, p1, 4),
                                    field_val(s, p2, 2),
                                    field_val(s, p3, 2),
                                    field_val(s, p5, 2),
                                    mi,
                                    se,
                                ),
                            ),
                            None => if digits_at(s, p5, 1) {
                                match screenshot_time_rest(s, p5 + 1) {
                                    Some((mi, se)) => Some(
                                        (
                                            field_val(s, p1, 4),
                                            field_val(s, p2, 2),
                                            field_val(s, p3, 2),
                                            field_val(s, p5, 1),
                                            mi,
                                            se,
                                        ),
                                    ),
                                    None => None,
                                }
                            } else {
                                None
                            },
                        }
                    } else {
                        None
                    }
                } else {
                    None
                }
            } else {
                None
            }
        },
    }
}

/// Leftmost screenshot match at or after `i`.
pub open spec fn screenshot_first(s: Seq<char>, i: int) -> Option<int>
    decreases s.len() - i,
{
    if !(0 <= i < s.len()) {
        None
    } else if screenshot_at(s, i) is Some {
        Some(i)
    } else {
        screenshot_first(s, i + 1)
    }
}

proof fn lemma_screenshot_first_none(s: Seq<char>, i: int)
    requires
        forall|j: int| i <= j < s.len() ==> screenshot_at(s, j) is None,
    ensures
        screenshot_first(s, i) == None::<int>,
    decreases s.len() - i,
{
    if 0 <= i < s.len() {
        lemma_screenshot_first_none(s, i + 1);
    }
}

/// What the screenshot family reads from a stripped filename.
pub open spec fn screenshot_spec(s: Seq<char>) -> Option<DateTime> {
    match screenshot_first(s, 0) {
        Some(i) => {
            let (y, mo, d, h, mi, se) = screenshot_at(s, i)->Some_0;
            checked_fields_spec(y, mo, d, h, mi, se)
        },
        None => None,
    }
}

/// Length of the screenshot keyword at `i`, if any.
fn screenshot_kw_check(s: &Vec<char>, i: usize) -> (r: Option<usize>)
    ensures
        match r {
            Some(kl) => screenshot_kw_at(s@, i as int) == Some(kl as int),
            None => screenshot_kw_at(s@, i as int) == None::<int>,
        },
{
    let w1: Vec<char> = vec!['S', 'c', 'r', 'e', 'e', 'n', 's', 'h', 'o', 't'];
    let w2: Vec<char> = vec!['S', 'c', 'r', 'e', 'e', 'n', ' ', 'S', 'h', 'o', 't'];
    let w3: Vec<char> = vec!['C', 'a', 'p', 't', 'u', 'r', 'e'];
    let w4: Vec<char> = vec!['\u{622a}', '\u{56fe}'];
    let w5: Vec<char> = vec!['\u{622a}', '\u{5c4f}'];
    proof {
        assert(w1@ =~= seq!['S', 'c', 'r', 'e', 'e', 'n', 's', 'h', 'o', 't']);
        assert(w2@ =~= seq!['S', 'c', 'r', 'e', 'e', 'n', ' ', 'S', 'h', 'o', 't']);
        assert(w3@ =~= seq!['C', 'a', 'p', 't', 'u', 'r', 'e']);
        assert(w4@ =~= seq!['\u{622a}', '\u{56fe}']);
        assert(w5@ =~= seq!['\u{622a}', '\u{5c4f}']);
    }
    if lit_check(s, i, &w1) {
        Some(10)
    } else if lit_check(s, i, &w2) {
        Some(11)
    } else if lit_check(s, i, &w3) {
        Some(7)
    } else if lit_check(s, i, &w4) {
        Some(2)
    } else if lit_check(s, i, &w5) {
        Some(2)
    } else {
        None
    }
}

/// Greedily skip separators and whitespace from `p`.
fn skip_seps_exec(s: &Vec<char>, p: usize) -> (r: usize)
    requires
        p <= s@.len(),
    ensures
        r == skip_seps(s@, p as int),
        p <= r <= s@.len(),
{
    let n = s.len();
    let mut q = p;
    while q < n && (s[q] == '_' || s[q] == '-' || s[q] == ' ' || s[q] == '\t' || s[q] == '\n'
        || s[q] == '\r' || s[q] == '\u{b}' || s[q] == '\u{c}')
        invariant
            p <= q <= n,
            n == s@.len(),
            skip_seps(s@, p as int) == skip_seps(s@, q as int),
        decreases n - q,
    {
        q += 1;
    }
    q
}

/// Position after an optional underscore, hyphen or dot at `p`.
fn opt_sep_dot_exec(s: &Vec<char>, p: usize) -> (r: usize)
    requires
        p <= s@.len(),
    ensures
        r == opt_sep_dot(s@, p as int),
        p <= r <= p + 1,
        r <= s@.len(),
{
    if p < s.len() && (s[p] == '_' || s[p] == '-' || s[p] == '.') {
        p + 1
    } else {
        p
    }
}

/// Minutes and seconds after the hour position.
fn screenshot_time_rest_exec(s: &Vec<char>, p: usize) -> (r: Option<(u64, u64)>)
    requires
        p <= s@.len(),
    ensures
        r.is_some() == screenshot_time_rest(s@, p as int).is_some(),
        r matches Some((mi, se)) ==> {
            &&& screenshot_time_rest(s@, p as int) == Some((mi as int, se as int))
            &&& mi < 100000
            &&& se < 100000
        },
{
    let n = s.len();
    let q = opt_sep_dot_exec(s, p);
    if !digits_check(s, q, 2) {
        return None;
    }
    proof {
        assert(q + 2 <= n);
    }
    let r = opt_sep_dot_exec(s, q + 2);
    if !digits_check(s, r, 2) {
        return None;
    }
    proof {
        text::lemma_pow10_small();
        lemma_field_val_bound(s@, q as int, 2);
        lemma_field_val_bound(s@, r as int, 2);
    }
    Some((field_parse(s, q, 2), field_parse(s, r, 2)))
}

/// Try the screenshot family at one position.
fn screenshot_try_at(s: &Vec<char>, i: usize) -> (r: Option<RawFields>)
    requires
        i < s@.len(),
    ensures
        r.is_some() == screenshot_at(s@, i as int).is_some(),
        r matches Some(f) ==> {
            &&& screenshot_at(s@, i as int) == Some(
                (
                    f.year as int,
                    f.month as int,
                    f.day as int,
                    f.hour as int,
                    f.minute as int,
                    f.second as int,
                ),
            )
            &&& f.year < 100000 && f.month < 100000 && f.day < 100000
            &&& f.hour < 100000 && f.minute < 100000 && f.second < 100000
        },
{
    let n = s.len();
    let kl = match screenshot_kw_check(s, i) {
        Some(kl) => kl,
        None => {
            return None;
        },
    };
    if kl > n - i {
        proof {
            assert(skip_seps(s@, i as int + kl as int) == i as int + kl as int);
            assert(!digits_at(s@, i as int + kl as int, 4));
        }
        return None;
    }
    let p1 = skip_seps_exec(s, i + kl);
    if !digits_check(s, p1, 4) {
        return None;
    }
    let p2 = opt_sep_ud_exec(s, p1 + 4);
    if !digits_check(s, p2, 2) {
        return None;
    }
    let p3 = opt_sep_ud_exec(s, p2 + 2);
    if !digits_check(s, p3, 2) {
        return None;
    }
    let p4 = skip_seps_exec(s, p3 + 2);
    let p5 = if n >= 2 && p4 <= n - 2 && s[p4] == 'a' && s[p4 + 1] == 't' {
        skip_seps_exec(s, p4 + 2)
    } else {
        p4
    };
    proof {
        text::lemma_pow10_small();
        lemma_field_val_bound(s@, p1 as int, 4);
        lemma_field_val_bound(s@, p2 as int, 2);
        lemma_field_val_bound(s@, p3 as int, 2);
    }
    if digits_check(s, p5, 2) {
        match screenshot_time_rest_exec(s, p5 + 2) {
            Some((mi, se)) => {
                proof {
                    lemma_field_val_bound(s@, p5 as int, 2);
                }
                return Some(
                    RawFields {
                        year: field_parse(s, p1, 4),
                        month: field_parse(s, p2, 2),
                        day: field_parse(s, p3, 2),
                        hour: field_parse(s, p5, 2),
                        minute: mi,
                        second: se,
                    },
                );
            },
            None => {},
        }
    }
    if digits_check(s, p5, 1) {
        match screenshot_time_rest_exec(s, p5 + 1) {
            Some((mi, se)) => {
                proof {
                    lemma_field_val_bound(s@, p5 as int, 1);
                    reveal_with_fuel(text::pow10, 2);
                }
                return Some(
                    RawFields {
                        year: field_parse(s, p1, 4),
                        month: field_parse(s, p2, 2),
                        day: field_parse(s, p3, 2),
                        hour: field_parse(s, p5, 1),
                        minute: mi,
                        second: se,
                    },
                );
            },
            None => {},
        }
    }
    None
}

/// Try the screenshot family.
pub fn try_pattern_screenshot(s: &Vec<char>) -> (r: Option<DateTime>)
    ensures
        r == screenshot_spec(s@),
        r matches Some(dt) ==> dt.valid(),
{
    let n = s.len();
    let mut i: usize = 0;
    while i < n
        invariant
            i <= n,
            n == s@.len(),
            screenshot_first(s@, 0) == screenshot_first(s@, i as int),
            forall|j: int| 0 <= j < i ==> #[trigger] screenshot_at(s@, j) is None,
        decreases n - i,
    {
        match screenshot_try_at(s, i) {
            Some(fields) => {
                proof {
                    assert(screenshot_first(s@, i as int) == Some(i as int));
                }
                return build_datetime(&fields);
            },
            None => {},
        }
        i += 1;
    }
    proof {
        lemma_screenshot_first_none(s@, i as int);
    }
    None
}

// ---------------------------------------------------------------------
// Extension stripping and the family cascade
// ---------------------------------------------------------------------
/// Index of the last dot at or before `i`.
pub open spec fn last_dot_from(s: Seq<char>, i: int) -> Option<int>
    decreases i + 1,
{
    if i < 0 || i >= s.len() {
        None
    } else if s[i] == '.' {
        Some(i)
    } else {
        last_dot_from(s, i - 1)
    }
}

/// The filename with its extension removed: everything before the last
/// dot, unless that would leave nothing.
pub open spec fn strip_ext_spec(s: Seq<char>) -> Seq<char> {
    match last_dot_from(s, s.len() - 1) {
        Some(i) => if i > 0 {
            s.take(i)
        } else {
            s
        },
        None => s,
    }
}

/// Remove the filename's extension.
pub fn strip_extension(s: &Vec<char>) -> (r: Vec<char>)
    ensures
        r@ == strip_ext_spec(s@),
{
    let n = s.len();
    let mut j: usize = n;
    while j > 0
        invariant
            j <= n,
            n == s@.len(),
            last_dot_from(s@, n as int - 1) == last_dot_from(s@, j as int - 1),
        decreases j,
    {
        if s[j - 1] == '.' {
            proof {
                assert(last_dot_from(s@, j as int - 1) == Some(j as int - 1));
            }
            if j - 1 > 0 {
                let mut out: Vec<char> = Vec::new();
                let mut k: usize = 0;
                while k < j - 1
                    invariant
                        k <= j - 1,
                        j - 1 <= n,
                        n == s@.len(),
                        out@ == s@.take(k as int),
                    decreases j - 1 - k,
                {
                    out.push(s[k]);
                    k += 1;
                    assert(out@ =~= s@.take(k as int));
                }
                return out;
            } else {
                let mut out: Vec<char> = Vec::new();
                let mut k: usize = 0;
                while k < n
                    invariant
                        k <= n,
                        n == s@.len(),
                        out@ == s@.take(k as int),
                    decreases n - k,
                {
                    out.push(s[k]);
                    k += 1;
                    assert(out@ =~= s@.take(k as int));
                }
                assert(out@ =~= s@);
                return out;
            }
        }
        j -= 1;
    }
    proof {
        assert(last_dot_from(s@, -1) == None::<int>);
    }
    let mut out: Vec<char> = Vec::new();
    let mut k: usize = 0;
    while k < n
        invariant
            k <= n,
            n == s@.len(),
            out@ == s@.take(k as int),
        decreases n - k,
    {
        out.push(s[k]);
        k += 1;
        assert(out@ =~= s@.take(k as int));
    }
    assert(out@ =~= s@);
    out
}

/// What the filename as a whole reads as: the extension is stripped and the
/// families are consulted in their fixed priority order; the first
/// family that validates wins.
pub open spec fn parse_filename_spec(s: Seq<char>) -> Option<DateTime> {
    let name = strip_ext_spec(s);
    if compact_spec(name) is Some {
        compact_spec(name)
    } else if camera_spec(name) is Some {
        camera_spec(name)
    } else if screenshot_spec(name) is Some {
        screenshot_spec(name)
    } else if separated_spec(name) is Some {
        separated_spec(name)
    } else if whatsapp_spec(name) is Some {
        whatsapp_spec(name)
    } else if unix_spec(name) is Some {
        unix_spec(name)
    } else {
        dateonly_spec(name)
    }
}

/// Parse a timestamp out of a filename.
pub fn parse_filename_time(filename: &str) -> (r: Option<DateTime>)
    ensures
        r == parse_filename_spec(filename@),
        r matches Some(dt) ==> dt.valid(),
{
    let chars = text::str_to_chars(filename);
    let name = strip_extension(&chars);
    if let Some(dt) = try_pattern_compact(&name) {
        return Some(dt);
    }
    if let Some(dt) = try_pattern_img(&name) {
        return Some(dt);
    }
    if let Some(dt) = try_pattern_screenshot(&name) {
        return Some(dt);
    }
    if let Some(dt) = try_pattern_separated(&name) {
        return Some(dt);
    }
    if let Some(dt) = try_pattern_whatsapp(&name) {
        return Some(dt);
    }
    if let Some(dt) = try_pattern_unix(&name) {
        return Some(dt);
    }
    try_pattern_date_only(&name)
}

} // verus!
