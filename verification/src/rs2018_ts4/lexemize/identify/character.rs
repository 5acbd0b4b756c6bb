//! Identifies a char literal, like `'A'` or `'\u{03aB}'`.

use vstd::prelude::*;
use vstd::string::StringSliceAdditionalSpecFns;
use vstd::utf8::*;
use crate::rs2018_ts4::lexemize::ascii::{
    BACKSLASH, BRACE_CLOSE, BRACE_OPEN, DIGIT_0, DIGIT_7, DIGIT_9, DOUBLE_QUOTE, LOWER_A, LOWER_F,
    LOWER_N, LOWER_R, LOWER_T, LOWER_U, LOWER_X, SINGLE_QUOTE, UPPER_A, UPPER_F,
};
use crate::rs2018_ts4::lexemize::text::{
    ascii_or_tilde, dec_digit, get_aot, hex_digit, is_hex_digit, lemma_after_ascii,
    lemma_next_boundary, lemma_next_boundary_is, lemma_step_over_character, next_boundary,
    on_boundary, skip_to_boundary,
};

verus! {

/// The characters that may follow a backslash on their own:
/// `n r t \ 0 " '`.
pub open spec fn simple_escape(b: u8) -> bool {
    b == LOWER_N || b == LOWER_R || b == LOWER_T || b == BACKSLASH || b == DIGIT_0 || b
        == DOUBLE_QUOTE || b == SINGLE_QUOTE
}

/// The value of a hexadecimal digit, and zero for any other byte.
pub open spec fn hex_digit_value(b: u8) -> nat {
    if dec_digit(b) {
        (b - DIGIT_0) as nat
    } else if LOWER_A <= b <= LOWER_F {
        (b - LOWER_A + 10) as nat
    } else if UPPER_A <= b <= UPPER_F {
        (b - UPPER_A + 10) as nat
    } else {
        0
    }
}

/// How many hexadecimal digits stand in a row from offset `i` on, counting
/// no further than `max`.
pub open spec fn hex_run_len(s: Seq<u8>, i: int, max: nat) -> nat
    decreases max,
{
    if max > 0 && 0 <= i < s.len() && hex_digit(s[i]) {
        1 + hex_run_len(s, i + 1, (max - 1) as nat)
    } else {
        0
    }
}

/// The number written by the `n` hexadecimal digits that start at offset `i`.
pub open spec fn hex_value(s: Seq<u8>, i: int, n: nat) -> nat
    decreases n,
{
    if n == 0 {
        0
    } else {
        hex_value(s, i, (n - 1) as nat) * 16 + hex_digit_value(s[i + n - 1])
    }
}

/// `p` begins one character that is neither a backslash nor a single quote,
/// of any width, between two single quotes.
pub open spec fn plain_character(s: Seq<u8>, p: int) -> bool {
    &&& 0 <= p && p + 3 <= s.len()
    &&& s[p] == SINGLE_QUOTE
    &&& s[p + 1] != BACKSLASH && s[p + 1] != SINGLE_QUOTE
    &&& ascii_or_tilde(s, next_boundary(s, p + 2)) == SINGLE_QUOTE
}

/// `p` begins a backslash followed by one of the simple escapes, between two
/// single quotes.
pub open spec fn simple_escape_character(s: Seq<u8>, p: int) -> bool {
    &&& 0 <= p && p + 4 <= s.len()
    &&& s[p] == SINGLE_QUOTE
    &&& s[p + 1] == BACKSLASH
    &&& simple_escape(s[p + 2])
    &&& s[p + 3] == SINGLE_QUOTE
}

/// `p` begins a 7-bit code escape `\xHH` between two single quotes. The
/// first digit is `0` to `7`, so the code is at most `0x7F`.
pub open spec fn code_escape_character(s: Seq<u8>, p: int) -> bool {
    &&& 0 <= p && p + 6 <= s.len()
    &&& s[p] == SINGLE_QUOTE
    &&& s[p + 1] == BACKSLASH
    &&& s[p + 2] == LOWER_X
    &&& DIGIT_0 <= s[p + 3] <= DIGIT_7
    &&& hex_digit(s[p + 4])
    &&& s[p + 5] == SINGLE_QUOTE
}

/// The length of the Unicode escape `'\u{H..H}'` that begins at `p`, both
/// quotes included, or zero where there is none. The braces hold one to six
/// hexadecimal digits, which write a number no greater than `0x10FFFF`.
pub open spec fn unicode_escape_len(s: Seq<u8>, p: int) -> int {
    let n = hex_run_len(s, p + 4, 7);
    if {
        &&& 0 <= p && p + 7 <= s.len()
        &&& s[p + 3] == BRACE_OPEN
        &&& 1 <= n <= 6
        &&& ascii_or_tilde(s, p + 4 + n) == BRACE_CLOSE
        &&& ascii_or_tilde(s, p + 5 + n) == SINGLE_QUOTE
        &&& hex_value(s, p + 4, n) <= 0x10FFFF
    } {
        (n + 6) as int
    } else {
        0
    }
}

/// `p` begins a Unicode escape between two single quotes.
pub open spec fn unicode_escape_character(s: Seq<u8>, p: int) -> bool {
    &&& 0 <= p && p + 7 <= s.len()
    &&& s[p] == SINGLE_QUOTE
    &&& s[p + 1] == BACKSLASH
    &&& s[p + 2] == LOWER_U
    &&& unicode_escape_len(s, p) > 0
}

/// Where the char literal that begins at `p` ends, or `p` itself where none
/// begins there.
pub open spec fn character_end(s: Seq<u8>, p: int) -> int {
    if plain_character(s, p) {
        next_boundary(s, p + 2) + 1
    } else if simple_escape_character(s, p) {
        p + 4
    } else if code_escape_character(s, p) {
        p + 6
    } else if unicode_escape_character(s, p) {
        p + unicode_escape_len(s, p)
    } else {
        p
    }
}

/// Identifies a char literal, like `'A'` or `'\u{03aB}'`.
///
/// ### Arguments
/// * `raw` The Rust code, assumed to conform to the 2018 edition
/// * `pos` The byte position in `raw` to look at
///
/// ### Returns
/// If `pos` begins a valid looking char literal, `identify_character()`
/// returns the position after the closing single quote.
/// Otherwise, `identify_character()` just returns the `pos` argument.
pub fn identify_character(raw: &str, pos: usize) -> (end: usize)
    ensures
        end == character_end(raw.spec_bytes(), pos as int),
        end == pos || pos < end <= raw.spec_bytes().len(),
{
    let bytes = raw.as_bytes();
    let len = bytes.len();
    // Avoid overflow, and leave if there is not enough room for a char.
    if len < 3 || pos > len - 3 {
        return pos;
    }
    // If the current char is not a single-quote, then it does not begin a char.
    if bytes[pos] != SINGLE_QUOTE {
        return pos;
    }
    let c1 = bytes[pos + 1];
    if c1 == SINGLE_QUOTE {
        // We have found the string "''", which is not a valid char.
        return pos;
    }
    if c1 != BACKSLASH {
        // Step over the next char, even if it is not ascii.
        let c1_end = skip_to_boundary(bytes, pos + 2);
        // If the char directly after it is not a single quote, we have
        // probably found a label, like "'static".
        return if get_aot(bytes, c1_end) == SINGLE_QUOTE {
            c1_end + 1
        } else {
            pos
        };
    }
    // Now we know the next char is a backslash.
    let c2 = get_aot(bytes, pos + 2);
    if c2 == LOWER_N || c2 == LOWER_R || c2 == LOWER_T || c2 == BACKSLASH || c2 == DIGIT_0 || c2
        == DOUBLE_QUOTE || c2 == SINGLE_QUOTE {
        // One of the simple backslashable chars.
        if get_aot(bytes, pos + 3) == SINGLE_QUOTE {
            pos + 4
        } else {
            pos
        }
    } else if c2 == LOWER_X {
        // Lowercase x, signifying a 7-bit char code.
        if len - pos >= 6 && bytes[pos + 3] >= DIGIT_0 && bytes[pos + 3] <= DIGIT_7 && is_hex_digit(
            bytes[pos + 4],
        ) && bytes[pos + 5] == SINGLE_QUOTE {
            pos + 6
        } else {
            pos
        }
    } else if c2 == LOWER_U {
        // Lowercase u, signifying a unicode char code.
        pos + identify_unicode_char_length(bytes, pos)
    } else {
        pos
    }
}

/// Measures a 24-bit Unicode character code with 1 to 6 digits, from
/// `'\u{f}'` to `'\u{10abCD}'`. `pos` is the position of the opening quote.
pub fn identify_unicode_char_length(raw: &[u8], pos: usize) -> (length: usize)
    requires
        pos + 3 <= raw.len(),
    ensures
        length == unicode_escape_len(raw@, pos as int),
        pos + length <= raw.len(),
{
    let len = raw.len();
    // If `raw` is not even long enough for the shortest form, '\u{0}', or if
    // the "'\u" is not followed by an open curly bracket, return zero.
    if len - pos < 7 || raw[pos + 3] != BRACE_OPEN {
        return 0;
    }
    // Read the digits after "'\u{", to a maximum of seven.
    let mut digits: usize = 0;
    let mut codepoint: u32 = 0;
    while digits < 7 && digits < len - pos - 4 && is_hex_digit(raw[pos + 4 + digits])
        invariant
            pos + 7 <= len,
            len == raw.len(),
            digits <= 7,
            digits <= len - pos - 4,
            hex_run_len(raw@, pos as int + 4, 7) == digits + hex_run_len(
                raw@,
                pos as int + 4 + digits,
                (7 - digits) as nat,
            ),
            codepoint == hex_value(raw@, pos as int + 4, digits as nat),
            codepoint < 0x1000_0000,
        decreases 7 - digits,
    {
        let c = raw[pos + 4 + digits];
        let value: u32 = if c <= DIGIT_9 {
            (c - DIGIT_0) as u32
        } else if c >= LOWER_A {
            (c - LOWER_A) as u32 + 10
        } else {
            (c - UPPER_A) as u32 + 10
        };
        proof {
            lemma_hex_value_bound(raw@, pos as int + 4, digits as nat);
        }
        codepoint = codepoint * 16 + value;
        digits += 1;
    }
    // There must be at least one digit and at most six, then a closing curly
    // bracket, then a closing single-quote.
    if digits < 1 || digits > 6 || len - pos - 4 - digits < 2 {
        return 0;
    }
    if raw[pos + 4 + digits] != BRACE_CLOSE || raw[pos + 5 + digits] != SINGLE_QUOTE {
        return 0;
    }
    // Unicode escapes must be at most 10FFFF.
    if codepoint > 0x10FFFF {
        0
    } else {
        digits + 6
    }
}

/// `n` hexadecimal digits write a number below `16` to the `n`.
pub proof fn lemma_hex_value_bound(s: Seq<u8>, i: int, n: nat)
    requires
        n <= 7,
    ensures
        n == 0 ==> hex_value(s, i, n) < 0x1,
        n == 1 ==> hex_value(s, i, n) < 0x10,
        n == 2 ==> hex_value(s, i, n) < 0x100,
        n == 3 ==> hex_value(s, i, n) < 0x1000,
        n == 4 ==> hex_value(s, i, n) < 0x1_0000,
        n == 5 ==> hex_value(s, i, n) < 0x10_0000,
        n == 6 ==> hex_value(s, i, n) < 0x100_0000,
        n == 7 ==> hex_value(s, i, n) < 0x1000_0000,
    decreases n,
{
    if n > 0 {
        lemma_hex_value_bound(s, i, (n - 1) as nat);
    }
}

/// A run of hexadecimal digits is no longer than asked for, lies within the
/// text, is made of hexadecimal digits, and ends where asked, at the end of
/// the text, or before a byte that is no hexadecimal digit.
pub proof fn lemma_hex_run(s: Seq<u8>, i: int, max: nat)
    requires
        0 <= i,
    ensures
        hex_run_len(s, i, max) <= max,
        hex_run_len(s, i, max) == 0 || i + hex_run_len(s, i, max) <= s.len(),
        forall|k: int| i <= k < i + hex_run_len(s, i, max) ==> hex_digit(#[trigger] s[k]),
        hex_run_len(s, i, max) == max || i + hex_run_len(s, i, max) >= s.len() || !hex_digit(
            s[i + hex_run_len(s, i, max)],
        ),
    decreases max,
{
    if max > 0 && i < s.len() && hex_digit(s[i]) {
        lemma_hex_run(s, i + 1, (max - 1) as nat);
    }
}

/// A run of hexadecimal digits has the length `n`, if `n` hexadecimal
/// digits stand from `i` on, and the run has to end after them.
pub proof fn lemma_hex_run_is(s: Seq<u8>, i: int, max: nat, n: nat)
    requires
        0 <= i,
        n <= max,
        i + n <= s.len(),
        forall|k: int| i <= k < i + n ==> hex_digit(#[trigger] s[k]),
        n == max || i + n >= s.len() || !hex_digit(s[i + n]),
    ensures
        hex_run_len(s, i, max) == n,
    decreases n,
{
    if n > 0 {
        lemma_hex_run_is(s, i + 1, (max - 1) as nat, (n - 1) as nat);
    }
}

/// The same digits write the same number, wherever they stand.
pub proof fn lemma_hex_value_same(s: Seq<u8>, i: int, t: Seq<u8>, j: int, n: nat)
    requires
        forall|k: int| i <= k < i + n ==> #[trigger] s[k] == t[k - i + j],
    ensures
        hex_value(s, i, n) == hex_value(t, j, n),
    decreases n,
{
    if n > 0 {
        lemma_hex_value_same(s, i, t, j, (n - 1) as nat);
    }
}

/// A char literal, read on its own, is a char literal from its first byte
/// to its last.
pub proof fn lemma_character_isolated(s: Seq<u8>, p: int)
    requires
        character_end(s, p) > p,
    ensures
        0 <= p < character_end(s, p) <= s.len(),
        character_end(s.subrange(p, character_end(s, p)), 0) == character_end(s, p) - p,
{
    let e = character_end(s, p);
    let t = s.subrange(p, e);
    if plain_character(s, p) {
        // The same continuation bytes stand between the quotes.
        lemma_next_boundary(s, p + 2);
        lemma_next_boundary_is(t, 2, e - 1 - p);
    } else if unicode_escape_character(s, p) {
        // The same digits stand between the braces, and write the same number.
        let n = hex_run_len(s, p + 4, 7);
        lemma_hex_run(s, p + 4, 7);
        lemma_hex_run_is(t, 4, 7, n);
        lemma_hex_value_same(s, p + 4, t, 4, n);
    }
}

/// A char literal that begins a cut of a text begins in the text where the
/// cut begins.
pub proof fn lemma_character_extends(s: Seq<u8>, p: int, e: int)
    requires
        0 <= p < e <= s.len(),
        character_end(s.subrange(p, e), 0) > 0,
    ensures
        p < character_end(s, p) <= s.len(),
{
    let t = s.subrange(p, e);
    if plain_character(t, 0) {
        // The same continuation bytes stand between the quotes.
        let closing = next_boundary(t, 2);
        lemma_next_boundary(t, 2);
        assert forall|k: int| p + 2 <= k < p + closing implies is_continuation_byte(
            #[trigger] s[k],
        ) by {
            assert(s[k] == t[k - p]);
        }
        lemma_next_boundary_is(s, p + 2, p + closing);
    } else if unicode_escape_character(t, 0) {
        // The same digits stand between the braces, and write the same number.
        let n = hex_run_len(t, 4, 7);
        lemma_hex_run(t, 4, 7);
        assert forall|k: int| p + 4 <= k < p + 4 + n implies hex_digit(#[trigger] s[k]) by {
            assert(s[k] == t[k - p]);
        }
        lemma_hex_run_is(s, p + 4, 7, n);
        lemma_hex_value_same(t, 4, s, p + 4, n);
    }
}

/// In well-formed UTF-8 the quotes of a char literal without a backslash
/// hold one character: the closing quote stands right after the encoding of
/// the character that follows the opening quote.
pub proof fn lemma_plain_character_holds_one(s: Seq<u8>, p: int)
    requires
        valid_utf8(s),
        plain_character(s, p),
    ensures
        next_boundary(s, p + 2) == p + 1 + length_of_first_scalar(
            s.subrange(p + 1, s.len() as int),
        ),
{
    lemma_after_ascii(s, p);
    lemma_step_over_character(s, p + 1);
    let k = length_of_first_codepoint(s.subrange(p + 1, s.len() as int));
    lemma_next_boundary_is(s, p + 2, p + 1 + k);
}

/// In well-formed UTF-8 a char literal ends on a character boundary.
pub proof fn lemma_character_end_on_boundary(s: Seq<u8>, p: int)
    requires
        valid_utf8(s),
    ensures
        p <= character_end(s, p),
        character_end(s, p) > p ==> 0 <= p && character_end(s, p) <= s.len() && on_boundary(
            s,
            character_end(s, p),
        ),
{
    if plain_character(s, p) {
        lemma_next_boundary(s, p + 2);
    }
    let e = character_end(s, p);
    if e > p {
        lemma_after_ascii(s, e - 1);
    }
}

} // verus!
