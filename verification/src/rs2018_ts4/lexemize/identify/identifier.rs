//! Identifies an identifier, like `String` or `foo_bar`.

use vstd::prelude::*;
use vstd::string::StringSliceAdditionalSpecFns;
use vstd::utf8::*;
use crate::rs2018_ts4::lexemize::text::{
    char_at, lemma_step_over_character, on_boundary, scalar_at,
};

verus! {

/// Whether a character is alphabetic in Unicode, as `char::is_alphabetic`
/// tells it.
pub uninterp spec fn alphabetic(c: char) -> bool;

/// Whether a character is alphabetic or numeric in Unicode, as
/// `char::is_alphanumeric` tells it.
pub uninterp spec fn alphanumeric(c: char) -> bool;

/// Tells whether a character is alphabetic.
///
/// Calls `char::is_alphabetic`. Nothing is proved of it: its result is what
/// [`alphabetic`] stands for, and nothing more is known of that.
#[verifier::external_body]
fn is_alphabetic(c: char) -> (r: bool)
    ensures
        r == alphabetic(c),
{
    c.is_alphabetic()
}

/// Tells whether a character is alphabetic or numeric.
///
/// Calls `char::is_alphanumeric`. Nothing is proved of it: its result is
/// what [`alphanumeric`] stands for, and all that is known of that is what
/// the name says, that an alphabetic character is alphanumeric.
#[verifier::external_body]
fn is_alphanumeric(c: char) -> (r: bool)
    ensures
        r == alphanumeric(c),
        alphabetic(c) ==> r,
{
    c.is_alphanumeric()
}

/// A character that may begin an identifier: an underscore or a letter, of
/// ASCII or beyond.
pub open spec fn identifier_start(c: char) -> bool {
    c == '_' || alphabetic(c)
}

/// A character that may go on an identifier: an underscore, a letter or a
/// digit, of ASCII or beyond.
pub open spec fn identifier_part(c: char) -> bool {
    c == '_' || alphanumeric(c)
}

/// Tells whether a character may begin an identifier, given whether it is
/// alphabetic.
pub fn is_identifier_start(c: char, is_alphabetic: bool) -> (r: bool)
    ensures
        r == (c == '_' || is_alphabetic),
{
    c == '_' || is_alphabetic
}

/// Tells whether a character may go on an identifier, given whether it is
/// alphabetic or numeric.
pub fn is_identifier_part(c: char, is_alphanumeric: bool) -> (r: bool)
    ensures
        r == (c == '_' || is_alphanumeric),
{
    c == '_' || is_alphanumeric
}

/// Where the longest run of identifier characters that starts at offset `i`
/// ends. The run is read character by character, and ends before a byte
/// that begins no character.
pub open spec fn identifier_run(s: Seq<u8>, i: int) -> int
    decreases s.len() - i,
{
    match scalar_at(s, i) {
        Some((c, width)) => {
            if identifier_part(c) {
                identifier_run(s, i + width)
            } else {
                i
            }
        },
        None => i,
    }
}

/// Where the identifier that begins at `p` ends, or `p` itself where none
/// begins there. An identifier is an underscore or a letter, and after it as
/// many underscores, letters and digits as there are. A lone underscore is
/// no identifier.
pub open spec fn identifier_end(s: Seq<u8>, p: int) -> int {
    match scalar_at(s, p) {
        Some((c, width)) => {
            let end = identifier_run(s, p + width);
            if !identifier_start(c) || (c == '_' && end == p + width) {
                p
            } else {
                end
            }
        },
        None => p,
    }
}

/// Identifies an identifier, like `String` or `foo_bar`.
///
/// ### Arguments
/// * `raw` The Rust code, assumed to conform to the 2018 edition
/// * `pos` The byte position in `raw` to look at
///
/// ### Returns
/// If `pos` begins a valid looking identifier, `identify_identifier()`
/// returns the position after the identifier ends.
/// Otherwise, `identify_identifier()` just returns the `pos` argument.
pub fn identify_identifier(raw: &str, pos: usize) -> (end: usize)
    ensures
        end == identifier_end(raw.spec_bytes(), pos as int),
        end == pos || pos < end <= raw.spec_bytes().len(),
        end != pos ==> end == identifier_run(raw.spec_bytes(), pos as int),
{
    let len = raw.as_bytes().len();
    let ghost s = raw.spec_bytes();
    // If the current char is past the last char in `raw`, or `pos` is inside
    // a char, bail out!
    let (c, width) = match char_at(raw, pos) {
        Some(found) => found,
        None => {
            return pos;
        },
    };
    // If the current char is not an underscore or a letter, it does not
    // begin an identifier. A char that begins an identifier goes on it too.
    let starts_u = c == '_';  // true if the current char is an underscore
    if !is_identifier_start(c, is_alphabetic(c)) || !is_identifier_part(c, is_alphanumeric(c)) {
        return pos;
    }
    // Step through each char, to the end of the input code.
    let first = pos + width;
    let mut i: usize = first;
    let mut going = true;
    while going && i < len
        invariant
            s == raw.spec_bytes(),
            len == s.len(),
            pos < first <= i <= len,
            identifier_run(s, i as int) == identifier_run(s, first as int),
            !going ==> identifier_run(s, i as int) == i,
        decreases len - i + if going { 1int } else { 0int },
    {
        match char_at(raw, i) {
            Some((c, width)) => {
                if is_identifier_part(c, is_alphanumeric(c)) {
                    i += width;
                } else {
                    // This char is not an underscore, letter or digit: the
                    // identifier ends here.
                    going = false;
                }
            },
            None => {
                going = false;
            },
        }
    }
    // A lone "_" is not an identifier.
    if starts_u && i == first {
        pos
    } else {
        i
    }
}

/// A run of identifier characters ends after the offset at which it starts,
/// within the text.
pub proof fn lemma_identifier_run(s: Seq<u8>, i: int)
    requires
        0 <= i <= s.len(),
    ensures
        i <= identifier_run(s, i) <= s.len(),
    decreases s.len() - i,
{
    match scalar_at(s, i) {
        Some((c, width)) => {
            if identifier_part(c) {
                lemma_identifier_run(s, i + width);
            }
        },
        None => {},
    }
}

/// An identifier ends after the offset at which it begins, within the text.
pub proof fn lemma_identifier_end(s: Seq<u8>, p: int)
    ensures
        p <= identifier_end(s, p),
        identifier_end(s, p) > p ==> 0 <= p && identifier_end(s, p) <= s.len(),
{
    match scalar_at(s, p) {
        Some((c, width)) => {
            lemma_identifier_run(s, p + width);
        },
        None => {},
    }
}

/// A run of identifier characters that ends at `e`, cut off at `e` and read
/// on its own from the text's offset `p` on, runs to the end.
pub proof fn lemma_identifier_run_isolated(s: Seq<u8>, p: int, i: int, e: int)
    requires
        0 <= p <= i <= e <= s.len(),
        identifier_run(s, i) == e,
    ensures
        identifier_run(s.subrange(p, e), i - p) == e - p,
    decreases s.len() - i,
{
    match scalar_at(s, i) {
        Some((c, width)) => {
            if identifier_part(c) {
                lemma_identifier_run(s, i + width);
                lemma_identifier_run_isolated(s, p, i + width, e);
            }
        },
        None => {},
    }
}

/// An identifier, read on its own, is an identifier from its first byte to
/// its last.
pub proof fn lemma_identifier_isolated(s: Seq<u8>, p: int)
    requires
        identifier_end(s, p) > p,
    ensures
        0 <= p < identifier_end(s, p) <= s.len(),
        identifier_end(s.subrange(p, identifier_end(s, p)), 0) == identifier_end(s, p) - p,
{
    let e = identifier_end(s, p);
    let (c, width) = scalar_at(s, p)->0;
    lemma_identifier_run(s, p + width);
    lemma_identifier_run_isolated(s, p, p + width, e);
}

/// A run of identifier characters in a cut of a text is no longer than the
/// run in the whole text that starts at the same byte.
pub proof fn lemma_identifier_run_extends(s: Seq<u8>, p: int, e: int, i: int)
    requires
        0 <= p <= i <= e <= s.len(),
    ensures
        p + identifier_run(s.subrange(p, e), i - p) <= identifier_run(s, i),
    decreases e - i,
{
    let t = s.subrange(p, e);
    match scalar_at(t, i - p) {
        Some((c, width)) => {
            if identifier_part(c) {
                lemma_identifier_run_extends(s, p, e, i + width);
            }
        },
        None => {
            lemma_identifier_run(s, i);
        },
    }
}

/// An identifier that begins a cut of a text begins in the text where the
/// cut begins.
pub proof fn lemma_identifier_extends(s: Seq<u8>, p: int, e: int)
    requires
        0 <= p < e <= s.len(),
        identifier_end(s.subrange(p, e), 0) > 0,
    ensures
        p < identifier_end(s, p) <= s.len(),
{
    let t = s.subrange(p, e);
    let (c, width) = scalar_at(t, 0)->0;
    lemma_identifier_run_extends(s, p, e, p + width);
    lemma_identifier_run(t, width);
    lemma_identifier_run(s, p + width);
}

/// In well-formed UTF-8 a run of identifier characters that starts on a
/// character boundary ends on one.
pub proof fn lemma_identifier_run_on_boundary(s: Seq<u8>, i: int)
    requires
        valid_utf8(s),
        0 <= i <= s.len(),
        on_boundary(s, i),
    ensures
        on_boundary(s, identifier_run(s, i)),
    decreases s.len() - i,
{
    match scalar_at(s, i) {
        Some((c, width)) => {
            if identifier_part(c) {
                lemma_step_over_character(s, i);
                lemma_identifier_run_on_boundary(s, i + width);
            }
        },
        None => {},
    }
}

/// In well-formed UTF-8 an identifier ends on a character boundary.
pub proof fn lemma_identifier_end_on_boundary(s: Seq<u8>, p: int)
    requires
        valid_utf8(s),
    ensures
        p <= identifier_end(s, p),
        identifier_end(s, p) > p ==> 0 <= p && identifier_end(s, p) <= s.len() && on_boundary(
            s,
            identifier_end(s, p),
        ),
{
    lemma_identifier_end(s, p);
    if identifier_end(s, p) > p {
        // A character begins at `p`, so `p` is on a boundary.
        lemma_step_over_character(s, p);
        let (c, width) = scalar_at(s, p)->0;
        lemma_identifier_run_on_boundary(s, p + width);
    }
}

} // verus!
