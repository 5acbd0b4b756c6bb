//! Identifies a number, like `12.34` or `0b100100`.

use vstd::prelude::*;
use vstd::string::StringSliceAdditionalSpecFns;
use vstd::utf8::*;
use crate::rs2018_ts4::lexemize::ascii::{
    DIGIT_0, DIGIT_1, DIGIT_7, DOT, LOWER_B, LOWER_E, LOWER_O, LOWER_X, MINUS, PLUS, UNDERSCORE,
    UPPER_E,
};
use crate::rs2018_ts4::lexemize::text::{
    dec_digit, hex_digit, is_dec_digit, is_hex_digit, lemma_after_ascii, on_boundary,
};

verus! {

/// The base of a literal that begins `0b`, `0o` or `0x`.
#[derive(Clone, Copy, PartialEq, Eq, Structural)]
pub enum Radix {
    /// Base 2, after `0b`.
    Binary,
    /// Base 8, after `0o`.
    Octal,
    /// Base 16, after `0x`.
    Hex,
}

/// What the byte before the current one was, as far as the end of a decimal
/// literal depends on it.
#[derive(Clone, Copy, PartialEq, Eq, Structural)]
pub enum Tail {
    /// A digit, or an underscore that follows no exponent marker.
    Plain,
    /// The decimal point.
    Dot,
    /// The exponent marker, `e` or `E`.
    Exponent,
    /// The sign of the exponent.
    Sign,
    /// An underscore directly after the exponent marker.
    ExponentUnderscore,
}

/// A literal may not end on an exponent marker, on the sign of an exponent,
/// or on an underscore directly after an exponent marker.
pub open spec fn dangling(tail: Tail) -> bool {
    tail == Tail::Exponent || tail == Tail::Sign || tail == Tail::ExponentUnderscore
}

/// Tells whether a byte is a digit of the given base.
pub open spec fn in_base(b: u8, radix: Radix) -> bool {
    match radix {
        Radix::Binary => b == DIGIT_0 || b == DIGIT_1,
        Radix::Octal => DIGIT_0 <= b <= DIGIT_7,
        Radix::Hex => hex_digit(b),
    }
}

/// Reads on from offset `i` in a binary, octal or hex literal that began at
/// `p`, and gives where the literal ends, or `p` where it is not valid.
///
/// Underscores are skipped. A decimal digit that the base does not have, or
/// a dot, makes the whole literal invalid. Any other byte ends the literal,
/// which is valid if it has a digit by then.
pub open spec fn based_scan(s: Seq<u8>, p: int, i: int, has_digit: bool, radix: Radix) -> int
    decreases s.len() - i,
{
    if i < 0 || i >= s.len() {
        if has_digit {
            s.len() as int
        } else {
            p
        }
    } else if s[i] == UNDERSCORE {
        based_scan(s, p, i + 1, has_digit, radix)
    } else if in_base(s[i], radix) {
        based_scan(s, p, i + 1, true, radix)
    } else if dec_digit(s[i]) || s[i] == DOT {
        p
    } else if has_digit {
        i
    } else {
        p
    }
}

/// Reads on from offset `i` in a decimal literal that began at `p`, and
/// gives where the literal ends, or `p` where it is not valid.
///
/// `has_dot` and `has_e` tell whether the decimal point and the exponent
/// marker have been read, `tail` what the byte at `i - 1` was.
///
/// * An underscore directly after the decimal point makes the literal
///   invalid; any other underscore is skipped.
/// * A sign is read directly after the exponent marker only.
/// * A first dot is the decimal point, and makes the literal invalid if it
///   follows the exponent marker. A first `e` or `E` is the exponent marker.
/// * Any other byte that is not a digit ends the literal, and so does the
///   end of the text. The literal is invalid if it would end on a dangling
///   exponent marker, sign, or underscore after the exponent marker.
pub open spec fn decimal_scan(
    s: Seq<u8>,
    p: int,
    i: int,
    has_dot: bool,
    has_e: bool,
    tail: Tail,
) -> int
    decreases s.len() - i,
{
    if i < 0 || i >= s.len() {
        if dangling(tail) {
            p
        } else {
            s.len() as int
        }
    } else if s[i] == UNDERSCORE {
        if tail == Tail::Dot {
            p
        } else if tail == Tail::Exponent {
            decimal_scan(s, p, i + 1, has_dot, has_e, Tail::ExponentUnderscore)
        } else {
            decimal_scan(s, p, i + 1, has_dot, has_e, Tail::Plain)
        }
    } else if tail == Tail::Exponent && (s[i] == PLUS || s[i] == MINUS) {
        decimal_scan(s, p, i + 1, has_dot, has_e, Tail::Sign)
    } else if !has_dot && s[i] == DOT {
        if has_e {
            p
        } else {
            decimal_scan(s, p, i + 1, true, has_e, Tail::Dot)
        }
    } else if !has_e && (s[i] == LOWER_E || s[i] == UPPER_E) {
        decimal_scan(s, p, i + 1, has_dot, true, Tail::Exponent)
    } else if !dec_digit(s[i]) {
        if dangling(tail) {
            p
        } else {
            i
        }
    } else {
        decimal_scan(s, p, i + 1, has_dot, has_e, Tail::Plain)
    }
}

/// The base that the two bytes at `p` announce, if they are `0b`, `0o` or
/// `0x`.
pub open spec fn radix_prefix(s: Seq<u8>, p: int) -> Option<Radix> {
    if 0 <= p && p + 1 < s.len() && s[p] == DIGIT_0 {
        if s[p + 1] == LOWER_B {
            Some(Radix::Binary)
        } else if s[p + 1] == LOWER_O {
            Some(Radix::Octal)
        } else if s[p + 1] == LOWER_X {
            Some(Radix::Hex)
        } else {
            None
        }
    } else {
        None
    }
}

/// Where the number that begins at `p` ends, or `p` itself where none
/// begins there. A number begins with a decimal digit. After `0b`, `0o` or
/// `0x` it is read in that base, else as a decimal literal.
pub open spec fn number_end(s: Seq<u8>, p: int) -> int {
    if !(0 <= p < s.len()) || !dec_digit(s[p]) {
        p
    } else {
        match radix_prefix(s, p) {
            Some(radix) => based_scan(s, p, p + 2, false, radix),
            None => decimal_scan(s, p, p + 1, false, false, Tail::Plain),
        }
    }
}

/// Identifies a number, like `12.34` or `0b100100`.
///
/// This is a scanner: it does not work out the number's value, so a number
/// too large for any integer type is a number all the same.
///
/// ### Arguments
/// * `raw` The Rust code, assumed to conform to the 2018 edition
/// * `pos` The byte position in `raw` to look at
///
/// ### Returns
/// If `pos` begins a valid looking number, `identify_number()` returns the
/// position after the number ends.
/// Otherwise, `identify_number()` just returns the `pos` argument.
pub fn identify_number(raw: &str, pos: usize) -> (end: usize)
    ensures
        end == number_end(raw.spec_bytes(), pos as int),
        end == pos || pos < end <= raw.spec_bytes().len(),
{
    let bytes = raw.as_bytes();
    let len = bytes.len();
    // If the current char is past the last char in `raw`, bail out!
    if pos >= len {
        return pos;
    }
    let c = bytes[pos];
    // If the current char is not a digit, then it does not begin a number.
    if !is_dec_digit(c) {
        return pos;
    }
    proof {
        lemma_number_end_ascii(bytes@, pos as int);
    }
    // If the digit is zero, and the next char is "b", "x" or "o":
    if c == DIGIT_0 && len - pos > 1 {
        let c1 = bytes[pos + 1];
        // Use the binary, hex or octal identifier, as appropriate.
        if c1 == LOWER_B {
            return identify_number_binary(bytes, pos);
        } else if c1 == LOWER_X {
            return identify_number_hex(bytes, pos);
        } else if c1 == LOWER_O {
            return identify_number_octal(bytes, pos);
        }
    }
    // Otherwise, this is a decimal number.
    identify_number_decimal(bytes, pos)
}

/// Finds the end of the binary literal whose `0b` is at `pos`.
pub fn identify_number_binary(raw: &[u8], pos: usize) -> (end: usize)
    requires
        pos + 2 <= raw.len(),
    ensures
        end == based_scan(raw@, pos as int, pos as int + 2, false, Radix::Binary),
{
    identify_number_based(raw, pos, Radix::Binary)
}

/// Finds the end of the hex literal whose `0x` is at `pos`.
pub fn identify_number_hex(raw: &[u8], pos: usize) -> (end: usize)
    requires
        pos + 2 <= raw.len(),
    ensures
        end == based_scan(raw@, pos as int, pos as int + 2, false, Radix::Hex),
{
    identify_number_based(raw, pos, Radix::Hex)
}

/// Finds the end of the octal literal whose `0o` is at `pos`.
pub fn identify_number_octal(raw: &[u8], pos: usize) -> (end: usize)
    requires
        pos + 2 <= raw.len(),
    ensures
        end == based_scan(raw@, pos as int, pos as int + 2, false, Radix::Octal),
{
    identify_number_based(raw, pos, Radix::Octal)
}

/// Tells whether a byte is a digit of the given base.
pub fn is_in_base(b: u8, radix: Radix) -> (r: bool)
    ensures
        r == in_base(b, radix),
{
    match radix {
        Radix::Binary => b == DIGIT_0 || b == DIGIT_1,
        Radix::Octal => b >= DIGIT_0 && b <= DIGIT_7,
        Radix::Hex => is_hex_digit(b),
    }
}

/// Finds the end of the literal of the given base whose two-byte prefix is
/// at `pos`, or returns `pos` where the literal is not valid.
pub fn identify_number_based(raw: &[u8], pos: usize, radix: Radix) -> (end: usize)
    requires
        pos + 2 <= raw.len(),
    ensures
        end == based_scan(raw@, pos as int, pos as int + 2, false, radix),
{
    let len = raw.len();
    // Literals must have at least one digit.
    let mut has_digit = false;
    let mut i: usize = pos + 2;
    while i < len
        invariant
            pos + 2 <= i <= len,
            len == raw.len(),
            based_scan(raw@, pos as int, i as int, has_digit, radix) == based_scan(
                raw@,
                pos as int,
                pos as int + 2,
                false,
                radix,
            ),
        decreases len - i,
    {
        let c = raw[i];
        if c == UNDERSCORE {
            // If the character is an underscore, do nothing.
        } else if is_in_base(c, radix) {
            has_digit = true;
        } else if is_dec_digit(c) || c == DOT {
            // Reject the whole of 0b101021, don't just accept the 0b1010 part.
            // And reject the whole of 0b11.1, don't just accept the 0b11 part.
            return pos;
        } else {
            // Advance to the character after the number.
            return if has_digit {
                i
            } else {
                pos
            };
        }
        i += 1;
    }
    // We've reached the end of the input string.
    if has_digit {
        len
    } else {
        pos
    }
}

/// Finds the end of the decimal literal whose first digit is at `pos`, or
/// returns `pos` where the literal is not valid.
pub fn identify_number_decimal(raw: &[u8], pos: usize) -> (end: usize)
    requires
        pos < raw.len(),
    ensures
        end == decimal_scan(raw@, pos as int, pos as int + 1, false, false, Tail::Plain),
{
    let len = raw.len();
    let mut has_dot = false;  // decimal literals may have one "."
    let mut has_e = false;  // decimal literals may have one "e" or "E"
    let mut tail = Tail::Plain;  // helps detect invalid numbers like "1._2" and "10E"
    let mut i: usize = pos + 1;
    while i < len
        invariant
            pos < i <= len,
            len == raw.len(),
            decimal_scan(raw@, pos as int, i as int, has_dot, has_e, tail) == decimal_scan(
                raw@,
                pos as int,
                pos as int + 1,
                false,
                false,
                Tail::Plain,
            ),
        decreases len - i,
    {
        let c = raw[i];
        if c == UNDERSCORE {
            // Reject a number like "1._2", where the "." is followed by "_".
            if tail == Tail::Dot {
                return pos;
            }
            // Guard against a dangling underscore, eg "7.5e_".
            tail = if tail == Tail::Exponent {
                Tail::ExponentUnderscore
            } else {
                Tail::Plain
            };
        } else if tail == Tail::Exponent && (c == PLUS || c == MINUS) {
            // Guard against a dangling plus or minus sign, eg "7.5e-".
            tail = Tail::Sign;
        } else if !has_dot && c == DOT {
            // Reject a number like "1e2.3", where the exponent contains a dot.
            if has_e {
                return pos;
            }
            has_dot = true;
            tail = Tail::Dot;
        } else if !has_e && (c == LOWER_E || c == UPPER_E) {
            has_e = true;
            tail = Tail::Exponent;
        } else if !is_dec_digit(c) {
            // We've reached a char which can't be part of a valid number.
            // Numbers can't end "e", "E", "+", "-", "e_" or "E_".
            return if tail == Tail::Exponent || tail == Tail::Sign || tail
                == Tail::ExponentUnderscore {
                pos
            } else {
                i
            };
        } else {
            tail = Tail::Plain;
        }
        i += 1;
    }
    // We've reached the end of the input string.
    // Numbers can't end "e", "E", "+", "-", "e_" or "E_".
    if tail == Tail::Exponent || tail == Tail::Sign || tail == Tail::ExponentUnderscore {
        pos
    } else {
        len
    }
}

/// All the bytes from offset `from` up to offset `to` are ASCII.
pub open spec fn all_ascii(s: Seq<u8>, from: int, to: int) -> bool {
    forall|k: int| from <= k < to ==> #[trigger] s[k] < 0x80
}

/// A binary, octal or hex literal that is valid ends after the bytes read so
/// far, within the text, and has ASCII bytes only.
pub proof fn lemma_based_scan_ascii(s: Seq<u8>, p: int, i: int, has_digit: bool, radix: Radix)
    requires
        0 <= p < i <= s.len(),
        all_ascii(s, p, i),
    ensures
        ({
            let e = based_scan(s, p, i, has_digit, radix);
            e == p || (i <= e <= s.len() && all_ascii(s, p, e))
        }),
    decreases s.len() - i,
{
    if i < s.len() {
        if s[i] == UNDERSCORE {
            lemma_based_scan_ascii(s, p, i + 1, has_digit, radix);
        } else if in_base(s[i], radix) {
            lemma_based_scan_ascii(s, p, i + 1, true, radix);
        }
    }
}

/// A decimal literal that is valid ends after the bytes read so far, within
/// the text, and has ASCII bytes only.
pub proof fn lemma_decimal_scan_ascii(
    s: Seq<u8>,
    p: int,
    i: int,
    has_dot: bool,
    has_e: bool,
    tail: Tail,
)
    requires
        0 <= p < i <= s.len(),
        all_ascii(s, p, i),
    ensures
        ({
            let e = decimal_scan(s, p, i, has_dot, has_e, tail);
            e == p || (i <= e <= s.len() && all_ascii(s, p, e))
        }),
    decreases s.len() - i,
{
    if i < s.len() {
        if s[i] == UNDERSCORE {
            if tail == Tail::Exponent {
                lemma_decimal_scan_ascii(s, p, i + 1, has_dot, has_e, Tail::ExponentUnderscore);
            } else if tail != Tail::Dot {
                lemma_decimal_scan_ascii(s, p, i + 1, has_dot, has_e, Tail::Plain);
            }
        } else if tail == Tail::Exponent && (s[i] == PLUS || s[i] == MINUS) {
            lemma_decimal_scan_ascii(s, p, i + 1, has_dot, has_e, Tail::Sign);
        } else if !has_dot && s[i] == DOT {
            if !has_e {
                lemma_decimal_scan_ascii(s, p, i + 1, true, has_e, Tail::Dot);
            }
        } else if !has_e && (s[i] == LOWER_E || s[i] == UPPER_E) {
            lemma_decimal_scan_ascii(s, p, i + 1, has_dot, true, Tail::Exponent);
        } else if dec_digit(s[i]) {
            lemma_decimal_scan_ascii(s, p, i + 1, has_dot, has_e, Tail::Plain);
        }
    }
}

/// A binary, octal or hex literal that is valid and ends at `e`, cut off
/// at `e` and read on its own from the text's offset `p` on, ends where it
/// did.
pub proof fn lemma_based_scan_isolated(
    s: Seq<u8>,
    p: int,
    i: int,
    has_digit: bool,
    radix: Radix,
    e: int,
)
    requires
        0 <= p < i <= s.len(),
        all_ascii(s, p, i),
        based_scan(s, p, i, has_digit, radix) == e,
        e != p,
    ensures
        i <= e <= s.len(),
        based_scan(s.subrange(p, e), 0, i - p, has_digit, radix) == e - p,
    decreases s.len() - i,
{
    if i < s.len() {
        if s[i] == UNDERSCORE {
            lemma_based_scan_isolated(s, p, i + 1, has_digit, radix, e);
        } else if in_base(s[i], radix) {
            lemma_based_scan_isolated(s, p, i + 1, true, radix, e);
        }
    }
}

/// A decimal literal that is valid and ends at `e`, cut off at `e` and read
/// on its own from the text's offset `p` on, ends where it did.
pub proof fn lemma_decimal_scan_isolated(
    s: Seq<u8>,
    p: int,
    i: int,
    has_dot: bool,
    has_e: bool,
    tail: Tail,
    e: int,
)
    requires
        0 <= p < i <= s.len(),
        all_ascii(s, p, i),
        decimal_scan(s, p, i, has_dot, has_e, tail) == e,
        e != p,
    ensures
        i <= e <= s.len(),
        decimal_scan(s.subrange(p, e), 0, i - p, has_dot, has_e, tail) == e - p,
    decreases s.len() - i,
{
    if i < s.len() {
        if s[i] == UNDERSCORE {
            if tail == Tail::Exponent {
                lemma_decimal_scan_isolated(
                    s,
                    p,
                    i + 1,
                    has_dot,
                    has_e,
                    Tail::ExponentUnderscore,
                    e,
                );
            } else if tail != Tail::Dot {
                lemma_decimal_scan_isolated(s, p, i + 1, has_dot, has_e, Tail::Plain, e);
            }
        } else if tail == Tail::Exponent && (s[i] == PLUS || s[i] == MINUS) {
            lemma_decimal_scan_isolated(s, p, i + 1, has_dot, has_e, Tail::Sign, e);
        } else if !has_dot && s[i] == DOT {
            if !has_e {
                lemma_decimal_scan_isolated(s, p, i + 1, true, has_e, Tail::Dot, e);
            }
        } else if !has_e && (s[i] == LOWER_E || s[i] == UPPER_E) {
            lemma_decimal_scan_isolated(s, p, i + 1, has_dot, true, Tail::Exponent, e);
        } else if dec_digit(s[i]) {
            lemma_decimal_scan_isolated(s, p, i + 1, has_dot, has_e, Tail::Plain, e);
        }
    }
}

/// A number, read on its own, is a number from its first byte to its last.
pub proof fn lemma_number_isolated(s: Seq<u8>, p: int)
    requires
        number_end(s, p) > p,
    ensures
        0 <= p < number_end(s, p) <= s.len(),
        number_end(s.subrange(p, number_end(s, p)), 0) == number_end(s, p) - p,
{
    let e = number_end(s, p);
    match radix_prefix(s, p) {
        Some(radix) => {
            lemma_based_scan_isolated(s, p, p + 2, false, radix, e);
        },
        None => {
            lemma_decimal_scan_isolated(s, p, p + 1, false, false, Tail::Plain, e);
        },
    }
}

/// A number that is found ends after its first digit, within the text, and
/// has ASCII bytes only.
pub proof fn lemma_number_end_ascii(s: Seq<u8>, p: int)
    ensures
        p <= number_end(s, p),
        number_end(s, p) > p ==> 0 <= p && number_end(s, p) <= s.len() && all_ascii(
            s,
            p,
            number_end(s, p),
        ),
{
    if 0 <= p < s.len() && dec_digit(s[p]) {
        match radix_prefix(s, p) {
            Some(radix) => {
                lemma_based_scan_ascii(s, p, p + 2, false, radix);
            },
            None => {
                lemma_decimal_scan_ascii(s, p, p + 1, false, false, Tail::Plain);
            },
        }
    }
}

/// In well-formed UTF-8 a number ends on a character boundary.
pub proof fn lemma_number_end_on_boundary(s: Seq<u8>, p: int)
    requires
        valid_utf8(s),
    ensures
        p <= number_end(s, p),
        number_end(s, p) > p ==> 0 <= p && number_end(s, p) <= s.len() && on_boundary(
            s,
            number_end(s, p),
        ),
{
    lemma_number_end_ascii(s, p);
    let e = number_end(s, p);
    if e > p {
        lemma_after_ascii(s, e - 1);
    }
}

} // verus!
