//! Identifies whitespace.

use vstd::prelude::*;
use vstd::string::StringSliceAdditionalSpecFns;
use vstd::utf8::*;
use crate::rs2018_ts4::lexemize::ascii::{
    CARRIAGE_RETURN, FORM_FEED, LINE_FEED, SPACE, TAB, VERTICAL_TAB,
};
use crate::rs2018_ts4::lexemize::text::{lemma_after_ascii, lemma_step_over_character, on_boundary};

verus! {

/// The leading byte of U+0085, "Next Line", which UTF-8 writes `C2 85`.
pub const NEXT_LINE_LEAD: u8 = 0xC2;

/// The second byte of U+0085, "Next Line".
pub const NEXT_LINE_LAST: u8 = 0x85;

/// The leading byte of U+200E, U+200F, U+2028 and U+2029, which UTF-8
/// writes `E2 80 8E`, `E2 80 8F`, `E2 80 A8` and `E2 80 A9`.
pub const MARK_LEAD: u8 = 0xE2;

/// The second byte of those four characters.
pub const MARK_MIDDLE: u8 = 0x80;

/// The last byte of U+200E, "Left-To-Right Mark".
pub const LEFT_TO_RIGHT_LAST: u8 = 0x8E;

/// The last byte of U+200F, "Right-To-Left Mark".
pub const RIGHT_TO_LEFT_LAST: u8 = 0x8F;

/// The last byte of U+2028, "Line Separator".
pub const LINE_SEPARATOR_LAST: u8 = 0xA8;

/// The last byte of U+2029, "Paragraph Separator".
pub const PARAGRAPH_SEPARATOR_LAST: u8 = 0xA9;

/// One of the six ASCII characters of Pattern_White_Space: space, line
/// feed, horizontal and vertical tabulation, carriage return and form feed.
pub open spec fn ascii_whitespace(b: u8) -> bool {
    b == SPACE || b == LINE_FEED || b == TAB || b == CARRIAGE_RETURN || b == VERTICAL_TAB || b
        == FORM_FEED
}

/// The last byte of one of the four three-byte characters of
/// Pattern_White_Space.
pub open spec fn mark_last(b: u8) -> bool {
    b == LEFT_TO_RIGHT_LAST || b == RIGHT_TO_LEFT_LAST || b == LINE_SEPARATOR_LAST || b
        == PARAGRAPH_SEPARATOR_LAST
}

/// The width in bytes of the Pattern_White_Space character that starts at
/// offset `i`, or zero where none starts there.
pub open spec fn whitespace_len(s: Seq<u8>, i: int) -> int {
    if !(0 <= i < s.len()) {
        0
    } else if ascii_whitespace(s[i]) {
        1
    } else if s[i] == NEXT_LINE_LEAD && i + 1 < s.len() && s[i + 1] == NEXT_LINE_LAST {
        2
    } else if s[i] == MARK_LEAD && i + 2 < s.len() && s[i + 1] == MARK_MIDDLE && mark_last(
        s[i + 2],
    ) {
        3
    } else {
        0
    }
}

/// Where the longest run of Pattern_White_Space characters that starts at
/// `p` ends, or `p` itself where none starts there.
pub open spec fn whitespace_end(s: Seq<u8>, p: int) -> int
    decreases s.len() - p,
{
    if whitespace_len(s, p) > 0 {
        whitespace_end(s, p + whitespace_len(s, p))
    } else {
        p
    }
}

/// Identifies whitespace.
///
/// Rust uses Pattern_White_Space, and treats it all the same.
///
/// ### Arguments
/// * `raw` The Rust code, assumed to conform to the 2018 edition
/// * `pos` The byte position in `raw` to look at
///
/// ### Returns
/// If `pos` begins a sequence of whitespace characters, `identify_whitespace()`
/// returns the position after that sequence ends.
/// Otherwise, `identify_whitespace()` just returns the `pos` argument.
pub fn identify_whitespace(raw: &str, pos: usize) -> (end: usize)
    ensures
        end == whitespace_end(raw.spec_bytes(), pos as int),
        end == pos || pos < end <= raw.spec_bytes().len(),
{
    let bytes = raw.as_bytes();
    let len = bytes.len();
    // Step through each character, from `pos` to the end of the input code.
    let mut i: usize = pos;
    while i < len
        invariant
            pos <= i,
            i == pos || i <= len,
            len == bytes@.len(),
            bytes@ == raw.spec_bytes(),
            whitespace_end(bytes@, i as int) == whitespace_end(bytes@, pos as int),
        decreases len - i,
    {
        let c = bytes[i];
        if c == SPACE || c == LINE_FEED || c == TAB || c == CARRIAGE_RETURN || c == VERTICAL_TAB
            || c == FORM_FEED {
            // Jump to the next char if this is ascii whitespace.
            i += 1;
        } else if c == NEXT_LINE_LEAD && len - i > 1 && bytes[i + 1] == NEXT_LINE_LAST {
            // Jump over a two-byte whitespace character.
            i += 2;
        } else if c == MARK_LEAD && len - i > 2 && bytes[i + 1] == MARK_MIDDLE && (bytes[i + 2]
            == LEFT_TO_RIGHT_LAST || bytes[i + 2] == RIGHT_TO_LEFT_LAST || bytes[i + 2]
            == LINE_SEPARATOR_LAST || bytes[i + 2] == PARAGRAPH_SEPARATOR_LAST) {
            // Jump over a three-byte whitespace character.
            i += 3;
        } else {
            // End the loop if we encountered anything else.
            return i;
        }
    }
    // Advance to the end of the input code.
    i
}

/// The bytes that `whitespace_len` looks for beyond ASCII are the UTF-8
/// encodings of U+0085, U+200E, U+200F, U+2028 and U+2029.
pub proof fn lemma_whitespace_encodings()
    ensures
        encode_scalar(0x85) == seq![NEXT_LINE_LEAD, NEXT_LINE_LAST],
        encode_scalar(0x200E) == seq![MARK_LEAD, MARK_MIDDLE, LEFT_TO_RIGHT_LAST],
        encode_scalar(0x200F) == seq![MARK_LEAD, MARK_MIDDLE, RIGHT_TO_LEFT_LAST],
        encode_scalar(0x2028) == seq![MARK_LEAD, MARK_MIDDLE, LINE_SEPARATOR_LAST],
        encode_scalar(0x2029) == seq![MARK_LEAD, MARK_MIDDLE, PARAGRAPH_SEPARATOR_LAST],
{
    assert(leading_byte_width_2(0x85) == 0xC2 && last_continuation_byte(0x85) == 0x85)
        by (bit_vector);
    assert(leading_byte_width_3(0x200E) == 0xE2 && second_last_continuation_byte(0x200E) == 0x80
        && last_continuation_byte(0x200E) == 0x8E) by (bit_vector);
    assert(leading_byte_width_3(0x200F) == 0xE2 && second_last_continuation_byte(0x200F) == 0x80
        && last_continuation_byte(0x200F) == 0x8F) by (bit_vector);
    assert(leading_byte_width_3(0x2028) == 0xE2 && second_last_continuation_byte(0x2028) == 0x80
        && last_continuation_byte(0x2028) == 0xA8) by (bit_vector);
    assert(leading_byte_width_3(0x2029) == 0xE2 && second_last_continuation_byte(0x2029) == 0x80
        && last_continuation_byte(0x2029) == 0xA9) by (bit_vector);
}

/// A run of whitespace ends after the offset at which it starts, within the
/// text.
pub proof fn lemma_whitespace_end_bounds(s: Seq<u8>, p: int)
    ensures
        p <= whitespace_end(s, p),
        whitespace_end(s, p) > p ==> 0 <= p && whitespace_end(s, p) <= s.len(),
    decreases s.len() - p,
{
    if whitespace_len(s, p) > 0 {
        lemma_whitespace_end_bounds(s, p + whitespace_len(s, p));
    }
}

/// A run of whitespace that ends at `e`, cut off at `e` and read on its own
/// from the text's offset `p` on, runs to the end.
pub proof fn lemma_whitespace_end_isolated(s: Seq<u8>, p: int, i: int, e: int)
    requires
        0 <= p <= i <= e,
        whitespace_end(s, i) == e,
        e <= s.len(),
    ensures
        whitespace_end(s.subrange(p, e), i - p) == e - p,
    decreases s.len() - i,
{
    let k = whitespace_len(s, i);
    if k > 0 {
        lemma_whitespace_end_bounds(s, i + k);
        lemma_whitespace_end_isolated(s, p, i + k, e);
    }
}

/// A run of whitespace, read on its own, is a run of whitespace from its
/// first byte to its last.
pub proof fn lemma_whitespace_isolated(s: Seq<u8>, p: int)
    requires
        whitespace_end(s, p) > p,
    ensures
        0 <= p < whitespace_end(s, p) <= s.len(),
        whitespace_end(s.subrange(p, whitespace_end(s, p)), 0) == whitespace_end(s, p) - p,
{
    lemma_whitespace_end_bounds(s, p);
    lemma_whitespace_end_isolated(s, p, p, whitespace_end(s, p));
}

/// In well-formed UTF-8 a run of whitespace ends on a character boundary.
pub proof fn lemma_whitespace_end_on_boundary(s: Seq<u8>, p: int)
    requires
        valid_utf8(s),
    ensures
        p <= whitespace_end(s, p),
        whitespace_end(s, p) > p ==> 0 <= p && whitespace_end(s, p) <= s.len() && on_boundary(
            s,
            whitespace_end(s, p),
        ),
    decreases s.len() - p,
{
    let k = whitespace_len(s, p);
    if k > 0 {
        if k == 1 {
            lemma_after_ascii(s, p);
        } else {
            lemma_step_over_character(s, p);
        }
        lemma_whitespace_end_on_boundary(s, p + k);
    }
}

} // verus!
