//! Identifies punctuation, like `;` or `>>=`.

use vstd::prelude::*;
use vstd::string::StringSliceAdditionalSpecFns;
use vstd::utf8::*;
use crate::rs2018_ts4::lexemize::ascii::{
    AMPERSAND, ASTERISK, AT, BANG, BRACE_CLOSE, BRACE_OPEN, BRACKET_CLOSE, BRACKET_OPEN, CARET,
    COLON, COMMA, DOLLAR, DOT, EQUALS, GREATER, HASH, LESS, MINUS, PAREN_CLOSE, PAREN_OPEN,
    PERCENT, PIPE, PLUS, QUESTION, SEMICOLON, SLASH, UNDERSCORE,
};
use crate::rs2018_ts4::lexemize::text::{lemma_after_ascii, on_boundary};

verus! {

/// The punctuation of three characters: `<<=`, `>>=`, `...` and `..=`.
pub open spec fn punctuation_of_three(a: u8, b: u8, c: u8) -> bool {
    ||| a == LESS && b == LESS && c == EQUALS
    ||| a == GREATER && b == GREATER && c == EQUALS
    ||| a == DOT && b == DOT && c == DOT
    ||| a == DOT && b == DOT && c == EQUALS
}

/// The punctuation of two characters:
/// `&&`, `||`, `<<`, `>>`, `..`, `::`, `->`, `=>`, and before an equals sign
/// one of `+ - * / % ^ & | = ! > <`.
pub open spec fn punctuation_of_two(a: u8, b: u8) -> bool {
    ||| a == AMPERSAND && b == AMPERSAND
    ||| a == PIPE && b == PIPE
    ||| a == LESS && b == LESS
    ||| a == GREATER && b == GREATER
    ||| a == DOT && b == DOT
    ||| a == COLON && b == COLON
    ||| a == MINUS && b == GREATER
    ||| a == EQUALS && b == GREATER
    ||| b == EQUALS && (a == PLUS || a == MINUS || a == ASTERISK || a == SLASH || a == PERCENT || a
        == CARET || a == AMPERSAND || a == PIPE || a == EQUALS || a == BANG || a == GREATER || a
        == LESS)
}

/// The punctuation of one character:
/// `+ - * / % ^ ! & | = > < @ _ . , ; : # $ ?` and the brackets
/// `{ } [ ] ( )`.
pub open spec fn punctuation_of_one(a: u8) -> bool {
    ||| a == PLUS || a == MINUS || a == ASTERISK || a == SLASH || a == PERCENT || a == CARET
    ||| a == BANG || a == AMPERSAND || a == PIPE || a == EQUALS || a == GREATER || a == LESS
    ||| a == AT || a == UNDERSCORE || a == DOT || a == COMMA || a == SEMICOLON || a == COLON
    ||| a == HASH || a == DOLLAR || a == QUESTION
    ||| a == BRACE_OPEN || a == BRACE_CLOSE || a == BRACKET_OPEN || a == BRACKET_CLOSE
    ||| a == PAREN_OPEN || a == PAREN_CLOSE
}

/// The length of the longest punctuation that begins at `p`: three, two or
/// one, or zero where none begins there.
pub open spec fn punctuation_len(s: Seq<u8>, p: int) -> int {
    if 0 <= p && p + 3 <= s.len() && punctuation_of_three(s[p], s[p + 1], s[p + 2]) {
        3
    } else if 0 <= p && p + 2 <= s.len() && punctuation_of_two(s[p], s[p + 1]) {
        2
    } else if 0 <= p < s.len() && punctuation_of_one(s[p]) {
        1
    } else {
        0
    }
}

/// Where the punctuation that begins at `p` ends, or `p` itself where none
/// begins there.
pub open spec fn punctuation_end(s: Seq<u8>, p: int) -> int {
    p + punctuation_len(s, p)
}

/// Tells whether three bytes are a punctuation of three characters.
pub fn is_punctuation_of_three(a: u8, b: u8, c: u8) -> (r: bool)
    ensures
        r == punctuation_of_three(a, b, c),
{
    (a == LESS && b == LESS && c == EQUALS) || (a == GREATER && b == GREATER && c == EQUALS) || (a
        == DOT && b == DOT && (c == DOT || c == EQUALS))
}

/// Tells whether two bytes are a punctuation of two characters.
pub fn is_punctuation_of_two(a: u8, b: u8) -> (r: bool)
    ensures
        r == punctuation_of_two(a, b),
{
    if b == EQUALS {
        a == PLUS || a == MINUS || a == ASTERISK || a == SLASH || a == PERCENT || a == CARET || a
            == AMPERSAND || a == PIPE || a == EQUALS || a == BANG || a == GREATER || a == LESS
    } else if b == GREATER {
        a == GREATER || a == MINUS || a == EQUALS
    } else {
        a == b && (a == AMPERSAND || a == PIPE || a == LESS || a == DOT || a == COLON)
    }
}

/// Tells whether a byte is a punctuation of one character.
pub fn is_punctuation_of_one(a: u8) -> (r: bool)
    ensures
        r == punctuation_of_one(a),
{
    a == PLUS || a == MINUS || a == ASTERISK || a == SLASH || a == PERCENT || a == CARET || a
        == BANG || a == AMPERSAND || a == PIPE || a == EQUALS || a == GREATER || a == LESS || a
        == AT || a == UNDERSCORE || a == DOT || a == COMMA || a == SEMICOLON || a == COLON || a
        == HASH || a == DOLLAR || a == QUESTION || a == BRACE_OPEN || a == BRACE_CLOSE || a
        == BRACKET_OPEN || a == BRACKET_CLOSE || a == PAREN_OPEN || a == PAREN_CLOSE
}

/// Identifies punctuation, like `;` or `>>=`.
///
/// ### Arguments
/// * `raw` The Rust code, assumed to conform to the 2018 edition
/// * `pos` The byte position in `raw` to look at
///
/// ### Returns
/// If `pos` begins a punctuation, `identify_punctuation()` returns the
/// position after the longest one that begins there.
/// Otherwise, `identify_punctuation()` just returns the `pos` argument.
pub fn identify_punctuation(raw: &str, pos: usize) -> (end: usize)
    ensures
        end == punctuation_end(raw.spec_bytes(), pos as int),
        end == pos || pos < end <= raw.spec_bytes().len(),
{
    let bytes = raw.as_bytes();
    let len = bytes.len();
    // If the current char is past the last char in `raw`, bail out!
    if pos >= len {
        return pos;
    }
    let room = len - pos;
    let c0 = bytes[pos];
    // Look for the longest punctuation first.
    if room >= 3 && is_punctuation_of_three(c0, bytes[pos + 1], bytes[pos + 2]) {
        pos + 3
    } else if room >= 2 && is_punctuation_of_two(c0, bytes[pos + 1]) {
        pos + 2
    } else if is_punctuation_of_one(c0) {
        pos + 1
    } else {
        pos
    }
}

/// A punctuation, read on its own, is a punctuation from its first byte to
/// its last.
pub proof fn lemma_punctuation_isolated(s: Seq<u8>, p: int)
    requires
        punctuation_end(s, p) > p,
    ensures
        0 <= p < punctuation_end(s, p) <= s.len(),
        punctuation_end(s.subrange(p, punctuation_end(s, p)), 0) == punctuation_end(s, p) - p,
{
}

/// In well-formed UTF-8 a punctuation ends on a character boundary.
pub proof fn lemma_punctuation_end_on_boundary(s: Seq<u8>, p: int)
    requires
        valid_utf8(s),
    ensures
        p <= punctuation_end(s, p),
        punctuation_end(s, p) > p ==> 0 <= p && punctuation_end(s, p) <= s.len() && on_boundary(
            s,
            punctuation_end(s, p),
        ),
{
    let e = punctuation_end(s, p);
    if e > p {
        lemma_after_ascii(s, e - 1);
    }
}

} // verus!
