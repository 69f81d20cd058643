//! Plain-text forms of numbers.
//!
//! The normalizer exposes a date setting as the decimal text of its
//! timestamp, and a numeric-range write must look like a
//! floating-point number before it is handed to the driver. Both
//! notions live here: a decimal rendering of signed integers, and the
//! grammar of float literals (an optional sign, then `inf`, `infinity`
//! or `nan` in any letter case, or digits with an optional point and
//! an optional exponent).

use vstd::prelude::*;
use vstd::string::*;
use vstd::utf8::*;

verus! {

broadcast use vstd::seq_lib::group_seq_lib_default, vstd::seq::group_seq_axioms;

// ---------------------------------------------------------------------
// Decimal text of integers
// ---------------------------------------------------------------------
/// The decimal digit character for one digit value.
pub open spec fn spec_digit_char(d: int) -> char
    recommends
        0 <= d <= 9,
{
    ((48 + d) as u8) as char
}

/// The decimal digits of a non-negative number, most significant
/// first.
pub open spec fn spec_nat_digits(n: int) -> Seq<char>
    recommends
        n >= 0,
    decreases n,
{
    if n < 10 {
        seq![spec_digit_char(n)]
    } else {
        spec_nat_digits(n / 10).push(spec_digit_char(n % 10))
    }
}

/// The decimal text of a signed number: a minus sign for a negative
/// one, then its digits.
pub open spec fn spec_int_str(v: int) -> Seq<char> {
    if v < 0 {
        seq!['-'] + spec_nat_digits(-v)
    } else {
        spec_nat_digits(v)
    }
}

/// Every digit character is ASCII, so the decimal text encodes to
/// UTF-8 byte by byte.
proof fn lemma_nat_digits_ascii(n: int)
    requires
        n >= 0,
    ensures
        is_ascii_chars(spec_nat_digits(n)),
        forall|i: int|
            0 <= i < spec_nat_digits(n).len() ==> 48 <= (#[trigger] spec_nat_digits(n)[i]) as u32
                <= 57,
    decreases n,
{
    if n < 10 {
        assert(spec_nat_digits(n) =~= seq![spec_digit_char(n)]);
        assert(48 <= spec_digit_char(n) as u32 <= 57);
        assert('\0' <= spec_digit_char(n) <= '\u{7f}');
    } else {
        lemma_nat_digits_ascii(n / 10);
        assert(48 <= spec_digit_char(n % 10) as u32 <= 57);
        assert('\0' <= spec_digit_char(n % 10) <= '\u{7f}');
        assert(forall|i: int|
            0 <= i < spec_nat_digits(n).len() ==> 48 <= (#[trigger] spec_nat_digits(n)[i]) as u32
                <= 57);
    }
}

/// The reversal of a byte sequence, read as characters.
spec fn chars_of_reversed(bytes: Seq<u8>) -> Seq<char> {
    Seq::new(bytes.len(), |i: int| bytes[bytes.len() - 1 - i] as char)
}

/// The decimal digit bytes of a non-negative number: the UTF-8 form
/// of its decimal text.
fn dec_digit_bytes(n: u64) -> (r: Vec<u8>)
    ensures
        r@ == encode_utf8(spec_nat_digits(n as int)),
        is_ascii_chars(spec_nat_digits(n as int)),
{
    let mut digits: Vec<u8> = Vec::new();
    proof {
        assert(chars_of_reversed(digits@) =~= Seq::<char>::empty());
        assert(spec_nat_digits(n as int) + chars_of_reversed(digits@) =~= spec_nat_digits(
            n as int,
        ));
    }
    let mut m: u64 = n;
    while m >= 10
        invariant
            spec_nat_digits(n as int) == spec_nat_digits(m as int) + chars_of_reversed(digits@),
            forall|i: int| 0 <= i < digits@.len() ==> 48 <= #[trigger] digits@[i] <= 57,
        decreases m,
    {
        let d: u8 = (m % 10) as u8 + 48;
        let ghost digits_before = digits@;
        digits.push(d);
        proof {
            assert(spec_nat_digits(m as int) == spec_nat_digits(m as int / 10).push(
                spec_digit_char(m as int % 10),
            ));
            assert(chars_of_reversed(digits@) =~= seq![spec_digit_char(m as int % 10)]
                + chars_of_reversed(digits_before));
            assert(spec_nat_digits(m as int / 10).push(spec_digit_char(m as int % 10))
                + chars_of_reversed(digits_before) =~= spec_nat_digits(m as int / 10) + (seq![
                spec_digit_char(m as int % 10),
            ] + chars_of_reversed(digits_before)));
        }
        m = m / 10;
    }
    let d: u8 = m as u8 + 48;
    let ghost digits_before = digits@;
    digits.push(d);
    proof {
        assert(spec_nat_digits(m as int) =~= seq![spec_digit_char(m as int)]);
        assert(chars_of_reversed(digits@) =~= seq![spec_digit_char(m as int)] + chars_of_reversed(
            digits_before,
        ));
        assert(spec_nat_digits(n as int) =~= chars_of_reversed(digits@));
    }
    // write the collected digits most significant first
    let mut bytes: Vec<u8> = Vec::new();
    let total = digits.len();
    let mut j = total;
    while j > 0
        invariant
            j <= total,
            total == digits@.len(),
            bytes@.len() == total - j,
            forall|i: int| 0 <= i < bytes@.len() ==> bytes@[i] == digits@[total - 1 - i],
        decreases j,
    {
        j = j - 1;
        bytes.push(digits[j]);
    }
    let ghost chars = chars_of_reversed(digits@);
    proof {
        lemma_nat_digits_ascii(n as int);
        assert(is_ascii_chars(chars));
        broadcast use vstd::utf8::is_ascii_chars_encode_utf8;

        assert forall|i: int| 0 <= i < chars.len() implies bytes@[i] == #[trigger] encode_utf8(
            chars,
        )[i] by {
            assert(chars[i] == digits@[total - 1 - i] as char);
            assert((digits@[total - 1 - i] as char) as u8 == digits@[total - 1 - i]);
        }
        assert(bytes@ =~= encode_utf8(chars));
    }
    bytes
}

/// Renders a non-negative number as decimal text.
pub fn u64_to_dec_string(n: u64) -> (r: String)
    ensures
        r@ == spec_nat_digits(n as int),
{
    let bytes = dec_digit_bytes(n);
    proof {
        broadcast use
            vstd::utf8::encode_utf8_decode_utf8,
            vstd::utf8::encode_utf8_valid_utf8;

    }
    match crate::codec::bytes_to_string(bytes) {
        Some(s) => s,
        None => {
            // unreachable: the digit bytes are the UTF-8 form of the digits
            assert(false);
            String::new()
        },
    }
}

/// Renders a signed number as decimal text.
pub fn i64_to_dec_string(v: i64) -> (r: String)
    ensures
        r@ == spec_int_str(v as int),
{
    if v >= 0 {
        u64_to_dec_string(v as u64)
    } else {
        let magnitude: u64 = ((-(v as i128)) as u64);
        assert(magnitude as int == -(v as int));
        let digit_bytes = dec_digit_bytes(magnitude);
        let mut bytes: Vec<u8> = Vec::new();
        bytes.push(45);
        bytes.extend_from_slice(digit_bytes.as_slice());
        let ghost digit_chars = spec_nat_digits(magnitude as int);
        let ghost chars = seq!['-'] + digit_chars;
        proof {
            broadcast use
                vstd::utf8::is_ascii_chars_encode_utf8,
                vstd::utf8::encode_utf8_decode_utf8,
                vstd::utf8::encode_utf8_valid_utf8;

            assert(is_ascii_chars(chars));
            assert forall|i: int| 0 <= i < chars.len() implies bytes@[i] == #[trigger] encode_utf8(
                chars,
            )[i] by {
                if i == 0 {
                    assert(chars[0] == '-');
                    assert(('-' as u8) == 45u8);
                } else {
                    assert(chars[i] == digit_chars[i - 1]);
                    assert(bytes@[i] == encode_utf8(digit_chars)[i - 1]);
                    assert(encode_utf8(digit_chars)[i - 1] == digit_chars[i - 1] as u8);
                }
            }
            assert(bytes@ =~= encode_utf8(chars));
            assert(chars =~= spec_int_str(v as int));
        }
        match crate::codec::bytes_to_string(bytes) {
            Some(s) => s,
            None => {
                // unreachable: the bytes are the UTF-8 form of the text
                assert(false);
                String::new()
            },
        }
    }
}

// ---------------------------------------------------------------------
// The float-literal grammar
// ---------------------------------------------------------------------
/// True for a decimal digit character.
pub open spec fn is_digit_char(c: char) -> bool {
    48 <= c as u32 <= 57
}

/// The letter-case-blind identity of a character: an ASCII capital
/// folds onto its small form, anything else stands for itself.
pub open spec fn spec_fold_case(c: char) -> u32 {
    if 65 <= c as u32 <= 90 {
        (c as u32 + 32) as u32
    } else {
        c as u32
    }
}

/// The first position at or after `from` that does not hold a digit.
pub open spec fn spec_skip_digits(s: Seq<char>, from: int) -> int
    decreases s.len() - from,
    when from <= s.len()
{
    if from < 0 || from >= s.len() {
        from
    } else if is_digit_char(s[from]) {
        spec_skip_digits(s, from + 1)
    } else {
        from
    }
}

/// True when the text from `from` to the end equals `word` up to
/// ASCII letter case.
pub open spec fn spec_matches_word(s: Seq<char>, from: int, word: Seq<char>) -> bool {
    &&& s.len() - from == word.len()
    &&& forall|i: int|
        0 <= i < word.len() ==> spec_fold_case(s[from + i]) == spec_fold_case(#[trigger] word[i])
}

/// True when the text from `from` to the end is an exponent tail:
/// `e` or `E`, an optional sign, then at least one digit and nothing
/// else.
pub open spec fn spec_is_exponent(s: Seq<char>, from: int) -> bool {
    &&& from < s.len()
    &&& (s[from] == 'e' || s[from] == 'E')
    &&& {
        let j = if from + 1 < s.len() && (s[from + 1] == '+' || s[from + 1] == '-') {
            from + 2
        } else {
            from + 1
        };
        j < s.len() && spec_skip_digits(s, j) == s.len()
    }
}

/// True when the text from `from` to the end is a number: digits with
/// an optional point and fraction, or a point with a fraction, either
/// followed by an optional exponent, with at least one digit ahead of
/// any exponent.
pub open spec fn spec_is_number(s: Seq<char>, from: int) -> bool {
    let i1 = spec_skip_digits(s, from);
    let int_digits = i1 - from;
    let has_point = i1 < s.len() && s[i1] == '.';
    let i2 = if has_point {
        spec_skip_digits(s, i1 + 1)
    } else {
        i1
    };
    let frac_digits = if has_point {
        i2 - (i1 + 1)
    } else {
        0
    };
    &&& int_digits + frac_digits >= 1
    &&& (i2 == s.len() || spec_is_exponent(s, i2))
}

/// True when the whole text is a floating-point literal: an optional
/// sign, then `inf`, `infinity` or `nan` in any letter case, or a
/// number.
pub open spec fn spec_is_float_literal(s: Seq<char>) -> bool {
    let from: int = if s.len() > 0 && (s[0] == '+' || s[0] == '-') {
        1
    } else {
        0
    };
    ||| spec_matches_word(s, from, "inf"@)
    ||| spec_matches_word(s, from, "infinity"@)
    ||| spec_matches_word(s, from, "nan"@)
    ||| spec_is_number(s, from)
}

/// Letter-case-blind comparison of the text from `from` to the end
/// against `word`.
fn matches_word(s: &str, from: usize, word: &str) -> (r: bool)
    requires
        from <= s@.len(),
    ensures
        r == spec_matches_word(s@, from as int, word@),
{
    let s_len = s.unicode_len();
    let w_len = word.unicode_len();
    if s_len - from != w_len {
        return false;
    }
    let mut i: usize = 0;
    while i < w_len
        invariant
            i <= w_len,
            w_len == word@.len(),
            s_len == s@.len(),
            s@.len() - from == word@.len(),
            from <= s@.len(),
            forall|j: int|
                0 <= j < i ==> spec_fold_case(s@[from + j]) == spec_fold_case(#[trigger] word@[j]),
        decreases w_len - i,
    {
        let a = s.get_char(from + i) as u32;
        let b = word.get_char(i) as u32;
        let fa = if 65 <= a && a <= 90 {
            a + 32
        } else {
            a
        };
        let fb = if 65 <= b && b <= 90 {
            b + 32
        } else {
            b
        };
        if fa != fb {
            return false;
        }
        i += 1;
    }
    true
}

/// True when the character at `i` is a decimal digit.
fn char_at_is_digit(s: &str, i: usize) -> (r: bool)
    requires
        i < s@.len(),
    ensures
        r == is_digit_char(s@[i as int]),
{
    let c = s.get_char(i) as u32;
    48 <= c && c <= 57
}

/// The first position at or after `from` that does not hold a digit.
fn skip_digits(s: &str, from: usize) -> (r: usize)
    requires
        from <= s@.len(),
    ensures
        r == spec_skip_digits(s@, from as int),
        from <= r <= s@.len(),
{
    let len = s.unicode_len();
    let mut i = from;
    while i < len && char_at_is_digit(s, i)
        invariant
            from <= i <= len,
            len == s@.len(),
            spec_skip_digits(s@, from as int) == spec_skip_digits(s@, i as int),
        decreases len - i,
    {
        i += 1;
    }
    i
}

/// Decides the float-literal grammar for a whole string.
pub fn is_float_literal(s: &str) -> (r: bool)
    ensures
        r == spec_is_float_literal(s@),
{
    let len = s.unicode_len();
    let mut from: usize = 0;
    if len > 0 {
        let c = s.get_char(0);
        if c == '+' || c == '-' {
            from = 1;
        }
    }
    if matches_word(s, from, "inf") || matches_word(s, from, "infinity") || matches_word(
        s,
        from,
        "nan",
    ) {
        return true;
    }
    let i1 = skip_digits(s, from);
    let int_digits = i1 - from;
    let has_point = i1 < len && s.get_char(i1) == '.';
    let i2 = if has_point {
        skip_digits(s, i1 + 1)
    } else {
        i1
    };
    let frac_digits = if has_point {
        i2 - (i1 + 1)
    } else {
        0
    };
    if int_digits + frac_digits < 1 {
        return false;
    }
    if i2 == len {
        return true;
    }
    let c = s.get_char(i2);
    if c != 'e' && c != 'E' {
        return false;
    }
    let mut j = i2 + 1;
    if i2 + 1 < len {
        let d = s.get_char(i2 + 1);
        if d == '+' || d == '-' {
            j = i2 + 2;
        }
    }
    if j >= len {
        return false;
    }
    skip_digits(s, j) == len
}

} // verus!
