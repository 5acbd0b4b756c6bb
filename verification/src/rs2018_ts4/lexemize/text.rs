//! Byte-offset utilities shared by every classifier.
//!
//! All offsets are byte offsets into UTF-8 text. A classifier looks at
//! single bytes, asks for an ASCII byte through [`get_aot`], which answers
//! with a tilde where there is none to be had, and asks for a whole
//! character through [`char_at`].

use vstd::prelude::*;
use vstd::string::StringSliceAdditionalSpecFns;
use vstd::utf8::*;
use crate::rs2018_ts4::lexemize::ascii::{
    DIGIT_0, DIGIT_9, LOWER_A, LOWER_F, TILDE, UPPER_A, UPPER_F,
};

verus! {

/// The ASCII byte at offset `i`, or a tilde where `i` is out of range or the
/// byte there belongs to a multi-byte character.
pub open spec fn ascii_or_tilde(s: Seq<u8>, i: int) -> u8 {
    if 0 <= i < s.len() && s[i] < 0x80 {
        s[i]
    } else {
        TILDE
    }
}

/// True when offset `i` does not fall inside a multi-byte character: it is
/// the start of the text, its end, or the offset of a byte that is not a
/// continuation byte.
pub open spec fn on_boundary(s: Seq<u8>, i: int) -> bool {
    i == 0 || i == s.len() || (0 < i < s.len() && !is_continuation_byte(s[i]))
}

/// The first offset at or after `i` that is on a boundary.
pub open spec fn next_boundary(s: Seq<u8>, i: int) -> int
    decreases s.len() - i,
{
    if 0 <= i < s.len() && is_continuation_byte(s[i]) {
        next_boundary(s, i + 1)
    } else {
        i
    }
}

/// The character whose encoding starts at offset `i`, with the width of
/// that encoding in bytes, or nothing where `i` is out of range or no
/// well-formed encoding of a character starts there.
pub open spec fn scalar_at(s: Seq<u8>, i: int) -> Option<(char, int)> {
    let rest = s.subrange(i, s.len() as int);
    if 0 <= i < s.len() && valid_first_scalar(rest) {
        Some((decode_first_scalar(rest) as char, length_of_first_scalar(rest)))
    } else {
        None
    }
}

/// An ASCII decimal digit, `0` to `9`.
pub open spec fn dec_digit(b: u8) -> bool {
    DIGIT_0 <= b <= DIGIT_9
}

/// An ASCII hexadecimal digit, `0` to `9`, `a` to `f` or `A` to `F`.
pub open spec fn hex_digit(b: u8) -> bool {
    dec_digit(b) || LOWER_A <= b <= LOWER_F || UPPER_A <= b <= UPPER_F
}

/// Tells whether a byte is an ASCII decimal digit.
pub fn is_dec_digit(b: u8) -> (r: bool)
    ensures
        r == dec_digit(b),
{
    b >= DIGIT_0 && b <= DIGIT_9
}

/// Tells whether a byte is an ASCII hexadecimal digit.
pub fn is_hex_digit(b: u8) -> (r: bool)
    ensures
        r == hex_digit(b),
{
    is_dec_digit(b) || (b >= LOWER_A && b <= LOWER_F) || (b >= UPPER_A && b <= UPPER_F)
}

/// Returns the ASCII character at a position, or tilde if the position is
/// out of range or holds part of a non-ASCII character.
pub fn get_aot(raw: &[u8], pos: usize) -> (c: u8)
    ensures
        c == ascii_or_tilde(raw@, pos as int),
{
    if pos < raw.len() && raw[pos] < 0x80 {
        raw[pos]
    } else {
        TILDE
    }
}

/// Steps forward from `from` to the nearest character boundary.
pub fn skip_to_boundary(raw: &[u8], from: usize) -> (end: usize)
    ensures
        end == next_boundary(raw@, from as int),
        from <= end,
        from <= raw.len() ==> end <= raw.len(),
{
    let mut j: usize = from;
    while j < raw.len() && raw[j] >= 0x80 && raw[j] <= 0xBF
        invariant
            from <= j,
            from <= raw.len() ==> j <= raw.len(),
            next_boundary(raw@, j as int) == next_boundary(raw@, from as int),
        decreases raw.len() - j,
    {
        j += 1;
    }
    j
}

/// Returns the character that starts at a position, and the width of its
/// encoding in bytes, or nothing where the position is out of range or
/// inside a character.
pub fn char_at(raw: &str, pos: usize) -> (found: Option<(char, usize)>)
    ensures
        match found {
            Some((c, width)) => {
                &&& scalar_at(raw.spec_bytes(), pos as int) == Some((c, width as int))
                &&& 1 <= width <= 4
                &&& pos + width <= raw.spec_bytes().len()
                &&& on_boundary(raw.spec_bytes(), pos + width)
            },
            None => scalar_at(raw.spec_bytes(), pos as int) is None,
        },
{
    let ghost s = raw.spec_bytes();
    let bytes = raw.as_bytes();
    proof {
        encode_utf8_valid_utf8(raw@);
        lemma_boundary_is_char_boundary(s, pos as int);
    }
    if pos >= bytes.len() || !raw.is_char_boundary(pos) {
        // A byte inside a character begins none.
        return None;
    }
    proof {
        lemma_step_over_character(s, pos as int);
        valid_utf8_split(s, pos as int);
    }
    let lead = bytes[pos];
    let (_, tail) = raw.split_at(pos);
    proof {
        encode_utf8_decode_utf8(tail@);
    }
    let c = tail.get_char(0);
    let width: usize = if lead < 0x80 {
        1
    } else if lead < 0xE0 {
        2
    } else if lead < 0xF0 {
        3
    } else {
        4
    };
    Some((c, width))
}

/// `next_boundary` never moves backwards, stays within the text, and lands
/// on a boundary.
pub proof fn lemma_next_boundary(s: Seq<u8>, i: int)
    requires
        0 < i <= s.len(),
    ensures
        i <= next_boundary(s, i) <= s.len(),
        on_boundary(s, next_boundary(s, i)),
        forall|k: int| i <= k < next_boundary(s, i) ==> is_continuation_byte(#[trigger] s[k]),
    decreases s.len() - i,
{
    if i < s.len() && is_continuation_byte(s[i]) {
        lemma_next_boundary(s, i + 1);
    }
}

/// The first boundary at or after `i` is the offset `b`, if continuation
/// bytes only stand from `i` up to `b`, and none stands at `b`.
pub proof fn lemma_next_boundary_is(s: Seq<u8>, i: int, b: int)
    requires
        0 <= i <= b <= s.len(),
        forall|k: int| i <= k < b ==> is_continuation_byte(#[trigger] s[k]),
        b < s.len() ==> !is_continuation_byte(s[b]),
    ensures
        next_boundary(s, i) == b,
    decreases b - i,
{
    if i < b {
        lemma_next_boundary_is(s, i + 1, b);
    }
}

/// In well-formed UTF-8, the boundaries of this module are the character
/// boundaries of the encoding.
pub proof fn lemma_boundary_is_char_boundary(s: Seq<u8>, i: int)
    requires
        valid_utf8(s),
    ensures
        is_char_boundary(s, i) <==> (0 <= i <= s.len() && on_boundary(s, i)),
{
    if 0 < i < s.len() {
        is_char_boundary_iff_not_is_continuation_byte(s, i);
    } else if i == 0 || i == s.len() {
        is_char_boundary_start_end_of_seq(s);
    }
}

/// In well-formed UTF-8 the character that starts at a boundary ends at a
/// boundary: the offset after a leading byte and its continuation bytes.
pub proof fn lemma_step_over_character(s: Seq<u8>, i: int)
    requires
        valid_utf8(s),
        0 <= i < s.len(),
        on_boundary(s, i),
    ensures
        ({
            let k = length_of_first_codepoint(s.subrange(i, s.len() as int));
            &&& 1 <= k <= 4
            &&& i + k <= s.len()
            &&& on_boundary(s, i + k)
            &&& forall|j: int| i < j < i + k ==> is_continuation_byte(#[trigger] s[j])
        }),
{
    lemma_boundary_is_char_boundary(s, i);
    valid_utf8_split(s, i);
    // What follows the character is well-formed UTF-8 again, so it is empty
    // or begins with a leading byte.
    assert(valid_utf8(pop_first_scalar(s.subrange(i, s.len() as int))));
}

/// In well-formed UTF-8 an ASCII byte is a whole character, so the offset
/// after it is on a boundary.
pub proof fn lemma_after_ascii(s: Seq<u8>, i: int)
    requires
        valid_utf8(s),
        0 <= i < s.len(),
        s[i] < 0x80,
    ensures
        on_boundary(s, i),
        on_boundary(s, i + 1),
{
    lemma_step_over_character(s, i);
}

/// UTF-8 encodes two texts in a row as the encoding of the first followed
/// by the encoding of the second.
pub proof fn lemma_encode_utf8_concat(a: Seq<char>, b: Seq<char>)
    ensures
        encode_utf8(a + b) == encode_utf8(a) + encode_utf8(b),
    decreases a.len(),
{
    if a.len() > 0 {
        lemma_encode_utf8_concat(a.drop_first(), b);
        assert((a + b).drop_first() =~= a.drop_first() + b);
    }
}

} // verus!
