//! Character and number text utilities shared by the parsers, the path
//! builder and the persisted-state codec: digit classification, decimal
//! and hexadecimal rendering with their parsing inverses, and conversion
//! between `&str` and `Vec<char>`.

use vstd::prelude::*;

verus! {

/// True for the ten ASCII decimal digits.
pub open spec fn is_digit(c: char) -> bool {
    '0' <= c && c <= '9'
}

/// Numeric value of an ASCII decimal digit.
pub open spec fn digit_val(c: char) -> int {
    c as u32 - '0' as u32
}

/// Every character of `s` is a decimal digit.
pub open spec fn all_digits(s: Seq<char>) -> bool {
    forall|i: int| 0 <= i < s.len() ==> is_digit(#[trigger] s[i])
}

/// Value of a decimal digit string, most significant digit first.
pub open spec fn digits_val(s: Seq<char>) -> int
    decreases s.len(),
{
    if s.len() == 0 {
        0
    } else {
        digits_val(s.drop_last()) * 10 + digit_val(s.last())
    }
}

/// The decimal digit character for a value below ten.
pub open spec fn digit_char(d: int) -> char {
    if d == 0 {
        '0'
    } else if d == 1 {
        '1'
    } else if d == 2 {
        '2'
    } else if d == 3 {
        '3'
    } else if d == 4 {
        '4'
    } else if d == 5 {
        '5'
    } else if d == 6 {
        '6'
    } else if d == 7 {
        '7'
    } else if d == 8 {
        '8'
    } else {
        '9'
    }
}

/// Unpadded decimal rendering of a 64-bit value.
pub open spec fn dec_str(v: u64) -> Seq<char>
    decreases v,
{
    if v < 10 {
        seq![digit_char(v as int)]
    } else {
        dec_str(v / 10).push(digit_char((v % 10) as int))
    }
}

/// Zero-padded decimal rendering of `v` to exactly `width` digits.
pub open spec fn dec_pad(v: int, width: nat) -> Seq<char>
    decreases width,
{
    if width == 0 {
        Seq::empty()
    } else {
        dec_pad(v / 10, (width - 1) as nat).push(digit_char(v % 10))
    }
}

/// Ten to the given power.
pub open spec fn pow10(w: nat) -> int
    decreases w,
{
    if w == 0 {
        1
    } else {
        10 * pow10((w - 1) as nat)
    }
}

/// The lowercase hexadecimal digit character for a value below sixteen.
pub open spec fn hex_char(d: int) -> char {
    if d < 10 {
        digit_char(d)
    } else if d == 10 {
        'a'
    } else if d == 11 {
        'b'
    } else if d == 12 {
        'c'
    } else if d == 13 {
        'd'
    } else if d == 14 {
        'e'
    } else {
        'f'
    }
}

/// Numeric value of a lowercase hexadecimal digit.
pub open spec fn hex_digit_val(c: char) -> int {
    if '0' <= c && c <= '9' {
        c as u32 - '0' as u32
    } else {
        c as u32 - 'a' as u32 + 10
    }
}

/// True for the characters the fixed-width hash rendering uses.
pub open spec fn is_hex_digit(c: char) -> bool {
    ('0' <= c && c <= '9') || ('a' <= c && c <= 'f')
}

/// Zero-padded lowercase hexadecimal rendering to exactly `width` digits.
pub open spec fn hex_pad(v: int, width: nat) -> Seq<char>
    decreases width,
{
    if width == 0 {
        Seq::empty()
    } else {
        hex_pad(v / 16, (width - 1) as nat).push(hex_char(v % 16))
    }
}

/// Sixteen to the given power.
pub open spec fn pow16(w: nat) -> int
    decreases w,
{
    if w == 0 {
        1
    } else {
        16 * pow16((w - 1) as nat)
    }
}

/// Value of a hexadecimal digit string, most significant digit first.
pub open spec fn hex_val(s: Seq<char>) -> int
    decreases s.len(),
{
    if s.len() == 0 {
        0
    } else {
        hex_val(s.drop_last()) * 16 + hex_digit_val(s.last())
    }
}

/// A value below the padding capacity reads back from its zero-padded
/// decimal rendering unchanged, and that rendering is all digits.
pub proof fn lemma_dec_pad_val(v: int, width: nat)
    requires
        0 <= v < pow10(width),
    ensures
        digits_val(dec_pad(v, width)) == v,
        dec_pad(v, width).len() == width,
        all_digits(dec_pad(v, width)),
    decreases width,
{
    if width == 0 {
    } else {
        assert(pow10(width) == 10 * pow10((width - 1) as nat));
        lemma_dec_pad_val(v / 10, (width - 1) as nat);
        assert(dec_pad(v, width).drop_last() =~= dec_pad(v / 10, (width - 1) as nat));
        assert(0 <= v % 10 < 10);
        assert(is_digit(digit_char(v % 10)));
        assert(digits_val(dec_pad(v, width)) == (v / 10) * 10 + v % 10);
        assert((v / 10) * 10 + v % 10 == v) by {
            vstd::arithmetic::div_mod::lemma_fundamental_div_mod(v, 10);
        }
    }
}

/// An unpadded decimal rendering is non-empty, all digits, and reads back
/// to the value it was made from.
pub proof fn lemma_dec_str_val(v: u64)
    ensures
        digits_val(dec_str(v)) == v,
        dec_str(v).len() >= 1,
        all_digits(dec_str(v)),
    decreases v,
{
    if v < 10 {
        assert(dec_str(v) =~= seq![digit_char(v as int)]);
        assert(dec_str(v).drop_last() =~= Seq::<char>::empty());
        assert(dec_str(v).last() == digit_char(v as int));
        assert(digit_val(digit_char(v as int)) == v);
        assert(digits_val(dec_str(v)) == digits_val(Seq::<char>::empty()) * 10 + digit_val(
            digit_char(v as int),
        ));
    } else {
        lemma_dec_str_val(v / 10);
        assert(dec_str(v).drop_last() =~= dec_str(v / 10));
        assert(digits_val(dec_str(v)) == (v / 10) * 10 + (v % 10));
        assert((v / 10) * 10 + v % 10 == v) by {
            vstd::arithmetic::div_mod::lemma_fundamental_div_mod(v as int, 10);
        }
    }
}

/// A value below the padding capacity reads back from its zero-padded
/// hexadecimal rendering unchanged, and that rendering is all hex digits.
pub proof fn lemma_hex_pad_val(v: int, width: nat)
    requires
        0 <= v < pow16(width),
    ensures
        hex_val(hex_pad(v, width)) == v,
        hex_pad(v, width).len() == width,
        forall|i: int| 0 <= i < width ==> is_hex_digit(#[trigger] hex_pad(v, width)[i]),
    decreases width,
{
    if width == 0 {
    } else {
        assert(pow16(width) == 16 * pow16((width - 1) as nat));
        lemma_hex_pad_val(v / 16, (width - 1) as nat);
        assert(hex_pad(v, width).drop_last() =~= hex_pad(v / 16, (width - 1) as nat));
        assert(0 <= v % 16 < 16);
        assert(is_hex_digit(hex_char(v % 16)));
        assert(hex_val(hex_pad(v, width)) == (v / 16) * 16 + v % 16);
        assert((v / 16) * 16 + v % 16 == v) by {
            vstd::arithmetic::div_mod::lemma_fundamental_div_mod(v, 16);
        }
    }
}

/// Append a string's characters to a character vector.
pub fn push_str_seq(out: &mut Vec<char>, s: &str)
    ensures
        final(out)@ == old(out)@ + s@,
{
    let chars = str_to_chars(s);
    let n = chars.len();
    let mut i: usize = 0;
    while i < n
        invariant
            i <= n,
            n == chars@.len(),
            chars@ == s@,
            out@ == old(out)@ + s@.take(i as int),
        decreases n - i,
    {
        out.push(chars[i]);
        i += 1;
        assert(out@ =~= old(out)@ + s@.take(i as int));
    }
    assert(out@ =~= old(out)@ + s@);
}

/// Relies on std String::push: appends exactly the one character.
#[verifier::external_body]
pub fn push_char(s: &mut String, c: char)
    ensures
        final(s)@ == old(s)@.push(c),
{
    s.push(c);
}

/// Build a `String` from a character vector.
pub fn chars_to_string(chars: &Vec<char>) -> (r: String)
    ensures
        r@ == chars@,
{
    let mut s = String::new();
    let n = chars.len();
    let mut i: usize = 0;
    while i < n
        invariant
            i <= n,
            n == chars@.len(),
            s@ == chars@.take(i as int),
        decreases n - i,
    {
        push_char(&mut s, chars[i]);
        i += 1;
        assert(s@ =~= chars@.take(i as int));
    }
    assert(s@ =~= chars@);
    s
}

/// Collect the characters of a `&str` into a vector.
pub fn str_to_chars(s: &str) -> (r: Vec<char>)
    ensures
        r@ == s@,
{
    let n = s.unicode_len();
    let mut out: Vec<char> = Vec::new();
    let mut i: usize = 0;
    while i < n
        invariant
            i <= n,
            n == s@.len(),
            out@ == s@.take(i as int),
        decreases n - i,
    {
        out.push(s.get_char(i));
        i += 1;
        assert(out@ =~= s@.take(i as int));
    }
    assert(out@ =~= s@);
    out
}

/// The decimal digit character of a value below ten.
pub fn digit_to_char(d: u64) -> (r: char)
    requires
        d < 10,
    ensures
        r == digit_char(d as int),
{
    match d {
        0 => '0',
        1 => '1',
        2 => '2',
        3 => '3',
        4 => '4',
        5 => '5',
        6 => '6',
        7 => '7',
        8 => '8',
        _ => '9',
    }
}

/// The lowercase hexadecimal digit character of a value below sixteen.
pub fn hex_digit_to_char(d: u64) -> (r: char)
    requires
        d < 16,
    ensures
        r == hex_char(d as int),
{
    if d < 10 {
        digit_to_char(d)
    } else {
        match d {
            10 => 'a',
            11 => 'b',
            12 => 'c',
            13 => 'd',
            14 => 'e',
            _ => 'f',
        }
    }
}

/// Append the unpadded decimal rendering of `v` to `out`.
pub fn push_dec_u64(out: &mut Vec<char>, v: u64)
    ensures
        final(out)@ == old(out)@ + dec_str(v),
    decreases v,
{
    if v < 10 {
        out.push(digit_to_char(v));
        assert(out@ =~= old(out)@ + dec_str(v));
    } else {
        push_dec_u64(out, v / 10);
        out.push(digit_to_char(v % 10));
        assert(out@ =~= old(out)@ + dec_str(v));
    }
}

/// Append the decimal rendering of `v`, zero-padded to `width` digits,
/// to `out`.
pub fn push_dec_pad(out: &mut Vec<char>, v: u64, width: usize)
    requires
        width <= 19,
    ensures
        final(out)@ == old(out)@ + dec_pad(v as int, width as nat),
    decreases width,
{
    if width == 0 {
        assert(out@ =~= old(out)@ + dec_pad(v as int, width as nat));
    } else {
        push_dec_pad(out, v / 10, width - 1);
        out.push(digit_to_char(v % 10));
        assert(out@ =~= old(out)@ + dec_pad(v as int, width as nat));
    }
}

/// Append the lowercase hexadecimal rendering of `v`, zero-padded to
/// `width` digits, to `out`.
pub fn push_hex_pad(out: &mut Vec<char>, v: u64, width: usize)
    requires
        width <= 16,
    ensures
        final(out)@ == old(out)@ + hex_pad(v as int, width as nat),
    decreases width,
{
    if width == 0 {
        assert(out@ =~= old(out)@ + hex_pad(v as int, width as nat));
    } else {
        push_hex_pad(out, v / 16, width - 1);
        out.push(hex_digit_to_char(v % 16));
        assert(out@ =~= old(out)@ + hex_pad(v as int, width as nat));
    }
}

/// Whether a character is a decimal digit.
pub fn char_is_digit(c: char) -> (r: bool)
    ensures
        r == is_digit(c),
{
    '0' <= c && c <= '9'
}

/// Value of the digit string `s[start..end]`, which must be short enough
/// for the value to fit in 64 bits.
pub fn parse_dec_value(s: &Vec<char>, start: usize, end: usize) -> (r: u64)
    requires
        start <= end <= s@.len(),
        end - start <= 19,
        forall|i: int| start <= i < end ==> is_digit(#[trigger] s@[i]),
    ensures
        r == digits_val(s@.subrange(start as int, end as int)),
{
    let mut acc: u64 = 0;
    let mut i: usize = start;
    while i < end
        invariant
            start <= i <= end <= s@.len(),
            end - start <= 19,
            forall|k: int| start <= k < end ==> is_digit(#[trigger] s@[k]),
            acc == digits_val(s@.subrange(start as int, i as int)),
            acc < pow10((i - start) as nat),
        decreases end - i,
    {
        proof {
            lemma_pow10_monotone((i - start + 1) as nat, 19);
            lemma_pow10_19_value();
            assert(pow10((i - start + 1) as nat) == 10 * pow10((i - start) as nat));
        }
        let c = s[i];
        let d: u64 = (c as u32 - '0' as u32) as u64;
        assert(d == digit_val(c) && d < 10);
        acc = acc * 10 + d;
        i += 1;
        proof {
            assert(s@.subrange(start as int, i as int).drop_last() =~= s@.subrange(
                start as int,
                i as int - 1,
            ));
            assert(s@.subrange(start as int, i as int).last() == s@[i as int - 1]);
        }
    }
    proof {
        assert(s@.subrange(start as int, end as int) =~= s@.subrange(start as int, i as int));
    }
    acc
}

/// Value of the lowercase hexadecimal digit string `s[start..end]`, at
/// most sixteen digits.
pub fn parse_hex_value(s: &Vec<char>, start: usize, end: usize) -> (r: u64)
    requires
        start <= end <= s@.len(),
        end - start <= 16,
        forall|i: int| start <= i < end ==> is_hex_digit(#[trigger] s@[i]),
    ensures
        r == hex_val(s@.subrange(start as int, end as int)),
{
    let mut acc: u64 = 0;
    let mut i: usize = start;
    while i < end
        invariant
            start <= i <= end <= s@.len(),
            end - start <= 16,
            forall|k: int| start <= k < end ==> is_hex_digit(#[trigger] s@[k]),
            acc == hex_val(s@.subrange(start as int, i as int)),
            acc < pow16((i - start) as nat),
        decreases end - i,
    {
        proof {
            lemma_pow16_monotone((i - start + 1) as nat, 16);
            lemma_pow16_16_value();
            assert(pow16((i - start + 1) as nat) == 16 * pow16((i - start) as nat));
        }
        let c = s[i];
        let d: u64 = if '0' <= c && c <= '9' {
            (c as u32 - '0' as u32) as u64
        } else {
            (c as u32 - 'a' as u32 + 10) as u64
        };
        assert(d == hex_digit_val(c) && d < 16);
        acc = acc * 16 + d;
        i += 1;
        proof {
            assert(s@.subrange(start as int, i as int).drop_last() =~= s@.subrange(
                start as int,
                i as int - 1,
            ));
            assert(s@.subrange(start as int, i as int).last() == s@[i as int - 1]);
        }
    }
    proof {
        assert(s@.subrange(start as int, end as int) =~= s@.subrange(start as int, i as int));
    }
    acc
}

/// Powers of ten grow with the exponent.
pub proof fn lemma_pow10_monotone(a: nat, b: nat)
    requires
        a <= b,
    ensures
        pow10(a) <= pow10(b),
    decreases b,
{
    if a < b {
        lemma_pow10_monotone(a, (b - 1) as nat);
        assert(pow10((b - 1) as nat) >= 1) by {
            lemma_pow10_positive((b - 1) as nat);
        }
    }
}

/// Powers of ten are positive.
pub proof fn lemma_pow10_positive(w: nat)
    ensures
        pow10(w) >= 1,
    decreases w,
{
    if w > 0 {
        lemma_pow10_positive((w - 1) as nat);
    }
}

/// The nineteen-digit capacity fits in 64 bits.
pub proof fn lemma_pow10_19_value()
    ensures
        pow10(19) == 10000000000000000000,
{
    reveal_with_fuel(pow10, 20);
}

/// An unpadded decimal rendering of a value below the capacity of `k`
/// digits takes at most `k` digits.
pub proof fn lemma_dec_str_len(v: u64, k: nat)
    requires
        1 <= k,
        v < pow10(k),
    ensures
        dec_str(v).len() <= k,
    decreases k,
{
    if v < 10 {
    } else {
        assert(pow10(k) == 10 * pow10((k - 1) as nat));
        assert(v / 10 < pow10((k - 1) as nat));
        assert(k >= 2) by {
            if k == 1 {
                assert(pow10(1) == 10) by {
                    reveal_with_fuel(pow10, 2);
                }
            }
        }
        lemma_dec_str_len(v / 10, (k - 1) as nat);
    }
}

/// The small powers of ten the fixed-width renderings use.
pub proof fn lemma_pow10_small()
    ensures
        pow10(1) == 10,
        pow10(2) == 100,
        pow10(4) == 10000,
{
    reveal_with_fuel(pow10, 5);
}

/// A digit string's value is bounded by the capacity of its width.
pub proof fn lemma_digits_val_bounds(s: Seq<char>)
    requires
        all_digits(s),
    ensures
        0 <= digits_val(s) < pow10(s.len()),
    decreases s.len(),
{
    if s.len() == 0 {
    } else {
        assert(all_digits(s.drop_last())) by {
            assert(forall|i: int|
                0 <= i < s.len() - 1 ==> s.drop_last()[i] == #[trigger] s[i]);
        }
        lemma_digits_val_bounds(s.drop_last());
        assert(is_digit(s.last()));
        assert(0 <= digit_val(s.last()) <= 9);
        assert(pow10(s.len()) == 10 * pow10((s.len() - 1) as nat));
    }
}

/// Powers of sixteen grow with the exponent.
pub proof fn lemma_pow16_monotone(a: nat, b: nat)
    requires
        a <= b,
    ensures
        pow16(a) <= pow16(b),
    decreases b,
{
    if a < b {
        lemma_pow16_monotone(a, (b - 1) as nat);
        assert(pow16((b - 1) as nat) >= 1) by {
            lemma_pow16_positive((b - 1) as nat);
        }
    }
}

/// Powers of sixteen are positive.
pub proof fn lemma_pow16_positive(w: nat)
    ensures
        pow16(w) >= 1,
    decreases w,
{
    if w > 0 {
        lemma_pow16_positive((w - 1) as nat);
    }
}

/// The sixteen-digit hexadecimal capacity is exactly the 64-bit range.
pub proof fn lemma_pow16_16_value()
    ensures
        pow16(16) == 0x10000000000000000,
{
    reveal_with_fuel(pow16, 17);
}

/// ASCII lowercase of a character; other characters unchanged.
pub open spec fn to_lower_char(c: char) -> char {
    if false {
        c    } else if c == 'A' {
        'a'
    } else if c == 'B' {
        'b'
    } else if c == 'C' {
        'c'
    } else if c == 'D' {
        'd'
    } else if c == 'E' {
        'e'
    } else if c == 'F' {
        'f'
    } else if c == 'G' {
        'g'
    } else if c == 'H' {
        'h'
    } else if c == 'I' {
        'i'
    } else if c == 'J' {
        'j'
    } else if c == 'K' {
        'k'
    } else if c == 'L' {
        'l'
    } else if c == 'M' {
        'm'
    } else if c == 'N' {
        'n'
    } else if c == 'O' {
        'o'
    } else if c == 'P' {
        'p'
    } else if c == 'Q' {
        'q'
    } else if c == 'R' {
        'r'
    } else if c == 'S' {
        's'
    } else if c == 'T' {
        't'
    } else if c == 'U' {
        'u'
    } else if c == 'V' {
        'v'
    } else if c == 'W' {
        'w'
    } else if c == 'X' {
        'x'
    } else if c == 'Y' {
        'y'
    } else if c == 'Z' {
        'z'
    } else {
        c
    }
}

/// ASCII lowercase of a character.
pub fn lower_char(c: char) -> (r: char)
    ensures
        r == to_lower_char(c),
{
    match c {
        'A' => 'a',
        'B' => 'b',
        'C' => 'c',
        'D' => 'd',
        'E' => 'e',
        'F' => 'f',
        'G' => 'g',
        'H' => 'h',
        'I' => 'i',
        'J' => 'j',
        'K' => 'k',
        'L' => 'l',
        'M' => 'm',
        'N' => 'n',
        'O' => 'o',
        'P' => 'p',
        'Q' => 'q',
        'R' => 'r',
        'S' => 's',
        'T' => 't',
        'U' => 'u',
        'V' => 'v',
        'W' => 'w',
        'X' => 'x',
        'Y' => 'y',
        'Z' => 'z',
        _ => c,
    }
}

/// ASCII lowercase of a character sequence.
pub open spec fn to_lower_seq(s: Seq<char>) -> Seq<char> {
    s.map_values(|c: char| to_lower_char(c))
}

/// Lowercase a character vector, ASCII-wise.
pub fn to_lower_chars(s: &Vec<char>) -> (r: Vec<char>)
    ensures
        r@ == to_lower_seq(s@),
{
    let n = s.len();
    let mut out: Vec<char> = Vec::new();
    let mut i: usize = 0;
    while i < n
        invariant
            i <= n,
            n == s@.len(),
            out@ == to_lower_seq(s@.take(i as int)),
        decreases n - i,
    {
        out.push(lower_char(s[i]));
        i += 1;
        assert(out@ =~= to_lower_seq(s@.take(i as int)));
    }
    assert(s@.take(n as int) =~= s@);
    out
}

} // verus!
