//! Integers as decimal text: how a value is written, and how text is read.

use vstd::prelude::*;

verus! {

/// The ten digits, in order.
pub const DIGITS: &'static str = "0123456789";

/// The character that writes the digit `d`, for `d` from 0 to 9.
pub open spec fn digit_char(d: int) -> char {
    DIGITS@[d]
}

/// The decimal text of a natural number: no sign, no leading zero.
pub open spec fn nat_text(n: nat) -> Seq<char>
    decreases n,
{
    if n < 10 {
        seq![digit_char(n as int)]
    } else {
        nat_text(n / 10).push(digit_char((n % 10) as int))
    }
}

/// The decimal text of an integer: a minus sign before a negative value,
/// nothing before another.
pub open spec fn int_text(v: int) -> Seq<char> {
    if v < 0 {
        seq!['-'] + nat_text((-v) as nat)
    } else {
        nat_text(v as nat)
    }
}

/// Appends the decimal text of `n` to `out`.
fn push_nat(out: &mut String, n: u32)
    ensures
        final(out)@ == old(out)@ + nat_text(n as nat),
    decreases n,
{
    if n >= 10 {
        push_nat(out, n / 10);
    }
    let d: usize = (n % 10) as usize;
    proof {
        reveal_strlit("0123456789");
    }
    out.append(DIGITS.substring_ascii(d, d + 1));
    proof {
        assert(DIGITS@.subrange(d as int, d + 1) == seq![digit_char(d as int)]);
        if n >= 10 {
            assert(nat_text(n as nat) == nat_text((n / 10) as nat).push(digit_char(d as int)));
        }
    }
}

/// Appends the decimal text of `v` to `out`.
pub fn push_i32(out: &mut String, v: i32)
    ensures
        final(out)@ == old(out)@ + int_text(v as int),
{
    if v < 0 {
        proof {
            reveal_strlit("-");
            assert("-"@ == seq!['-']);
        }
        out.append("-");
        let magnitude: i64 = -(v as i64);
        push_nat(out, magnitude as u32);
    } else {
        push_nat(out, v as u32);
    }
}

/// The decimal text of `v`.
pub fn i32_text(v: i32) -> (text: String)
    ensures
        text@ == int_text(v as int),
{
    let mut text = String::new();
    push_i32(&mut text, v);
    text
}

/// Why a text is not the decimal text of an `i32`.
#[derive(Clone, Copy, Debug, PartialEq, Eq, Structural)]
pub enum NumberError {
    /// The text is empty.
    Empty,
    /// The text holds something other than digits after an optional sign, or
    /// nothing but a sign.
    InvalidDigit,
    /// The digits give a value above the largest `i32`.
    PosOverflow,
    /// The digits give a value below the smallest `i32`.
    NegOverflow,
}

/// The byte of the digit zero.
pub const DIGIT_ZERO: u8 = 0x30;

/// The byte of the digit nine.
pub const DIGIT_NINE: u8 = 0x39;

/// The byte of the plus sign.
pub const PLUS_SIGN: u8 = 0x2b;

/// The byte of the minus sign.
pub const MINUS_SIGN: u8 = 0x2d;

/// Whether the byte `b` is one of the ASCII digits.
pub open spec fn is_digit(b: u8) -> bool {
    DIGIT_ZERO <= b <= DIGIT_NINE
}

/// The value of a run of ASCII digits read in base ten; zero for no digits.
pub open spec fn digits_value(digits: Seq<u8>) -> nat
    decreases digits.len(),
{
    if digits.len() == 0 {
        0
    } else {
        (10 * digits_value(digits.drop_last()) + (digits.last() - DIGIT_ZERO)) as nat
    }
}

/// How many digits `bytes` begins with.
pub open spec fn digit_run(bytes: Seq<u8>) -> nat
    decreases bytes.len(),
{
    if bytes.len() > 0 && is_digit(bytes[0]) {
        1 + digit_run(bytes.skip(1))
    } else {
        0
    }
}

/// Whether `bytes` begins with a plus or a minus sign.
pub open spec fn has_sign(bytes: Seq<u8>) -> bool {
    bytes.len() > 0 && (bytes[0] == PLUS_SIGN || bytes[0] == MINUS_SIGN)
}

/// What reading `bytes` as the decimal text of an `i32` gives.
///
/// The text is an optional sign followed by digits, and nothing else. The
/// digits are read from the left: the reading stops with an overflow as soon
/// as the digits read so far leave the range of `i32`, and with an invalid
/// digit at the first byte that is no digit.
pub open spec fn parse_bytes(bytes: Seq<u8>) -> Result<i32, NumberError> {
    let negative = bytes.len() > 0 && bytes[0] == MINUS_SIGN;
    let rest = if has_sign(bytes) { bytes.skip(1) } else { bytes };
    let run = digit_run(rest);
    let magnitude = digits_value(rest.take(run as int));
    let value = if negative { -magnitude } else { magnitude as int };
    if bytes.len() == 0 {
        Err(NumberError::Empty)
    } else if rest.len() == 0 {
        Err(NumberError::InvalidDigit)
    } else if value > i32::MAX {
        Err(NumberError::PosOverflow)
    } else if value < i32::MIN {
        Err(NumberError::NegOverflow)
    } else if run < rest.len() {
        Err(NumberError::InvalidDigit)
    } else {
        Ok(value as i32)
    }
}

/// What reading the text `text` as an `i32` gives: the reading of its bytes.
pub open spec fn parse_text(text: Seq<char>) -> Result<i32, NumberError> {
    parse_bytes(vstd::utf8::encode_utf8(text))
}

/// A run of digits that is followed by a byte that is no digit, or by
/// nothing, is the whole of the digits that the bytes begin with.
proof fn lemma_digit_run(bytes: Seq<u8>, n: int)
    requires
        0 <= n <= bytes.len(),
        forall|j: int| 0 <= j < n ==> is_digit(#[trigger] bytes[j]),
        n < bytes.len() ==> !is_digit(bytes[n]),
    ensures
        digit_run(bytes) == n,
    decreases n,
{
    if n > 0 {
        let tail = bytes.skip(1);
        assert forall|j: int| 0 <= j < n - 1 implies is_digit(#[trigger] tail[j]) by {
            assert(tail[j] == bytes[j + 1]);
        }
        lemma_digit_run(tail, n - 1);
    }
}

/// Reading one more digit does not lower the value.
proof fn lemma_digits_value_grows(digits: Seq<u8>, m: int, n: int)
    requires
        0 <= m <= n <= digits.len(),
        forall|j: int| 0 <= j < n ==> is_digit(#[trigger] digits[j]),
    ensures
        digits_value(digits.take(m)) <= digits_value(digits.take(n)),
    decreases n - m,
{
    if m < n {
        lemma_digits_value_grows(digits, m, n - 1);
        assert(digits.take(n).drop_last() == digits.take(n - 1));
        assert(is_digit(digits[n - 1]));
    }
}

/// The digits that the bytes begin with are digits, and the byte after them,
/// if there is one, is none.
proof fn lemma_digit_run_bounds(bytes: Seq<u8>)
    ensures
        digit_run(bytes) <= bytes.len(),
        forall|j: int| 0 <= j < digit_run(bytes) ==> is_digit(#[trigger] bytes[j]),
        digit_run(bytes) < bytes.len() ==> !is_digit(bytes[digit_run(bytes) as int]),
    decreases bytes.len(),
{
    if bytes.len() > 0 && is_digit(bytes[0]) {
        let tail = bytes.skip(1);
        lemma_digit_run_bounds(tail);
        assert forall|j: int| 0 <= j < digit_run(bytes) implies is_digit(#[trigger] bytes[j]) by {
            if j > 0 {
                assert(bytes[j] == tail[j - 1]);
            }
        }
        if digit_run(bytes) < bytes.len() {
            assert(bytes[digit_run(bytes) as int] == tail[digit_run(tail) as int]);
        }
    }
}

/// Reads `text` as the decimal text of an `i32`.
pub fn parse_i32(text: &str) -> (parsed: Result<i32, NumberError>)
    ensures
        parsed == parse_text(text@),
{
    let bytes = text.as_bytes();
    let n = bytes.len();
    if n == 0 {
        return Err(NumberError::Empty);
    }
    let negative = bytes[0] == MINUS_SIGN;
    let start: usize = if bytes[0] == PLUS_SIGN || bytes[0] == MINUS_SIGN { 1 } else { 0 };
    if start == n {
        return Err(NumberError::InvalidDigit);
    }
    let ghost rest = bytes@.skip(start as int);
    assert(bytes@.skip(0) == bytes@);
    let mut value: i64 = 0;
    let mut i: usize = start;
    while i < n
        invariant
            bytes@ == vstd::utf8::encode_utf8(text@),
            n == bytes@.len(),
            start <= i <= n,
            rest == if has_sign(bytes@) { bytes@.skip(1) } else { bytes@ },
            rest.len() == n - start,
            negative == (bytes@[0] == MINUS_SIGN),
            forall|j: int| 0 <= j < i - start ==> is_digit(#[trigger] rest[j]),
            value == if negative {
                -digits_value(rest.take(i - start))
            } else {
                digits_value(rest.take(i - start)) as int
            },
            i32::MIN <= value <= i32::MAX,
        decreases n - i,
    {
        let b = bytes[i];
        assert(b == rest[i - start]);
        if b < DIGIT_ZERO || b > DIGIT_NINE {
            proof {
                lemma_digit_run(rest, i - start);
            }
            return Err(NumberError::InvalidDigit);
        }
        let digit: i64 = (b - DIGIT_ZERO) as i64;
        let next: i64 = if negative { value * 10 - digit } else { value * 10 + digit };
        proof {
            assert(rest.take(i - start + 1).drop_last() == rest.take(i - start));
        }
        if next > i32::MAX as i64 || next < i32::MIN as i64 {
            proof {
                let run = digit_run(rest) as int;
                let m = i - start + 1;
                assert(m <= run && run <= rest.len() && (forall|j: int|
                    0 <= j < run ==> is_digit(#[trigger] rest[j]))) by {
                    lemma_digit_run_bounds(rest);
                    if run < m {
                        assert(is_digit(rest[run]));
                    }
                }
                lemma_digits_value_grows(rest, m, run);
            }
            if negative {
                return Err(NumberError::NegOverflow);
            } else {
                return Err(NumberError::PosOverflow);
            }
        }
        value = next;
        i = i + 1;
    }
    proof {
        lemma_digit_run(rest, n - start);
    }
    Ok(value as i32)
}

/// The digit `d` is written with one ASCII character, the one that stands
/// `d` places after the character for zero.
proof fn lemma_digit_char(d: int)
    requires
        0 <= d < 10,
    ensures
        digit_char(d) as int == DIGIT_ZERO + d,
{
    reveal_strlit("0123456789");
}

/// The text of a natural number is its digits and nothing else: as bytes,
/// they are ASCII digits whose value is the number.
proof fn lemma_nat_text_bytes(n: nat)
    ensures
        vstd::utf8::is_ascii_chars(nat_text(n)),
        vstd::utf8::encode_utf8(nat_text(n)).len() == nat_text(n).len(),
        nat_text(n).len() > 0,
        forall|i: int|
            0 <= i < nat_text(n).len() ==> is_digit(
                #[trigger] vstd::utf8::encode_utf8(nat_text(n))[i],
            ),
        digits_value(vstd::utf8::encode_utf8(nat_text(n))) == n,
    decreases n,
{
    let text = nat_text(n);
    let bytes = vstd::utf8::encode_utf8(text);
    let last = (n % 10) as int;
    lemma_digit_char(last);
    if n < 10 {
        assert(vstd::utf8::is_ascii_chars(text));
        vstd::utf8::is_ascii_chars_encode_utf8(text);
        assert(bytes[0] == text[0] as u8);
        assert(digits_value(bytes.drop_last()) == 0);
    } else {
        let shorter = nat_text(n / 10);
        let shorter_bytes = vstd::utf8::encode_utf8(shorter);
        lemma_nat_text_bytes(n / 10);
        vstd::utf8::is_ascii_chars_encode_utf8(shorter);
        assert(text == shorter.push(digit_char(last)));
        assert forall|i: int| 0 <= i < text.len() implies '\0' <= #[trigger] text[i]
            <= '\u{7f}' by {
            if i < shorter.len() {
                assert(text[i] == shorter[i]);
            }
        }
        vstd::utf8::is_ascii_chars_encode_utf8(text);
        assert(bytes.drop_last() == shorter_bytes) by {
            assert forall|i: int| 0 <= i < shorter.len() implies bytes.drop_last()[i]
                == shorter_bytes[i] by {
                assert(bytes[i] == text[i] as u8);
                assert(shorter_bytes[i] == shorter[i] as u8);
            }
        }
        assert(bytes.last() == text[text.len() - 1] as u8);
        assert forall|i: int| 0 <= i < text.len() implies is_digit(#[trigger] bytes[i]) by {
            if i < shorter.len() {
                assert(bytes[i] == bytes.drop_last()[i]);
            }
        }
    }
}

/// The text of a number reads back as that number.
pub proof fn lemma_text_reads_back(v: int)
    requires
        i32::MIN <= v <= i32::MAX,
    ensures
        parse_text(int_text(v)) == Ok::<i32, NumberError>(v as i32),
{
    let text = int_text(v);
    let bytes = vstd::utf8::encode_utf8(text);
    if v < 0 {
        let digits = nat_text((-v) as nat);
        let digit_bytes = vstd::utf8::encode_utf8(digits);
        lemma_nat_text_bytes((-v) as nat);
        vstd::utf8::is_ascii_chars_encode_utf8(digits);
        assert forall|i: int| 0 <= i < text.len() implies '\0' <= #[trigger] text[i]
            <= '\u{7f}' by {
            if i > 0 {
                assert(text[i] == digits[i - 1]);
            }
        }
        vstd::utf8::is_ascii_chars_encode_utf8(text);
        assert(bytes[0] == text[0] as u8);
        assert(bytes.skip(1) == digit_bytes) by {
            assert forall|i: int| 0 <= i < digits.len() implies bytes.skip(1)[i]
                == digit_bytes[i] by {
                assert(bytes[i + 1] == text[i + 1] as u8);
                assert(digit_bytes[i] == digits[i] as u8);
            }
        }
        lemma_digit_run(digit_bytes, digit_bytes.len() as int);
        assert(digit_bytes.take(digit_bytes.len() as int) == digit_bytes);
    } else {
        lemma_nat_text_bytes(v as nat);
        assert(is_digit(bytes[0]));
        lemma_digit_run(bytes, bytes.len() as int);
        assert(bytes.take(bytes.len() as int) == bytes);
    }
}

} // verus!
