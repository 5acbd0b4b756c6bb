//! Identifies a multiline or inline comment.

use vstd::prelude::*;
use vstd::string::StringSliceAdditionalSpecFns;
use vstd::utf8::*;
use crate::rs2018_ts4::lexemize::ascii::{ASTERISK, LINE_FEED, SLASH};
use crate::rs2018_ts4::lexemize::text::{lemma_after_ascii, on_boundary};

verus! {

/// Where the inline comment ends that is read on from offset `i`: at the
/// next line feed, which is not part of the comment, or at the end of the
/// text if there is none. A carriage return is a byte like any other.
pub open spec fn inline_comment_end(s: Seq<u8>, i: int) -> int
    decreases s.len() - i,
{
    if i < 0 || i >= s.len() {
        s.len() as int
    } else if s[i] == LINE_FEED {
        i
    } else {
        inline_comment_end(s, i + 1)
    }
}

/// `i` is the offset of the two bytes `*/`.
pub open spec fn closes_block(s: Seq<u8>, i: int) -> bool {
    0 <= i && i + 1 < s.len() && s[i] == ASTERISK && s[i + 1] == SLASH
}

/// `i` is the offset of the two bytes `/*`.
pub open spec fn opens_block(s: Seq<u8>, i: int) -> bool {
    0 <= i && i + 1 < s.len() && s[i] == SLASH && s[i + 1] == ASTERISK
}

/// Looks for the end of a multiline comment from offset `i` inside it, where
/// `depth` nested comments are open. A `/*` opens one more and a `*/` closes
/// the innermost; the `*/` met at depth zero ends the comment. Both bytes of
/// each pair are stepped over at once, so that no byte is counted twice.
pub open spec fn block_comment_scan(s: Seq<u8>, i: int, depth: nat) -> Option<int>
    decreases s.len() - i,
{
    if i < 0 || i >= s.len() {
        None
    } else if closes_block(s, i) {
        if depth == 0 {
            Some(i + 2)
        } else {
            block_comment_scan(s, i + 2, (depth - 1) as nat)
        }
    } else if opens_block(s, i) {
        block_comment_scan(s, i + 2, depth + 1)
    } else {
        block_comment_scan(s, i + 1, depth)
    }
}

/// Where the comment that begins at `p` ends, or `p` itself where none
/// begins there: no `//` or `/*` stands at `p`, or the multiline comment is
/// never closed.
pub open spec fn comment_end(s: Seq<u8>, p: int) -> int {
    if 0 <= p && p + 2 <= s.len() && s[p] == SLASH && s[p + 1] == SLASH {
        inline_comment_end(s, p + 2)
    } else if opens_block(s, p) {
        match block_comment_scan(s, p + 2, 0) {
            Some(end) => end,
            None => p,
        }
    } else {
        p
    }
}

/// Identifies a multiline or inline comment.
///
/// ### Arguments
/// * `raw` The Rust code, assumed to conform to the 2018 edition
/// * `pos` The byte position in `raw` to look at
///
/// ### Returns
/// If `pos` begins a valid looking comment, `identify_comment()` returns
/// the position after the comment ends.
/// Otherwise, `identify_comment()` just returns the `pos` argument.
pub fn identify_comment(raw: &str, pos: usize) -> (end: usize)
    ensures
        end == comment_end(raw.spec_bytes(), pos as int),
        end == pos || pos < end <= raw.spec_bytes().len(),
{
    let bytes = raw.as_bytes();
    let len = bytes.len();
    // If the current char is the last in `raw`, or after it, it does not
    // begin a comment.
    if len < 2 || pos > len - 2 {
        return pos;
    }
    // If the current char is not a forward slash, it does not begin a comment.
    if bytes[pos] != SLASH {
        return pos;
    }
    proof {
        lemma_inline_comment_end(bytes@, pos as int + 2);
        lemma_block_comment_scan(bytes@, pos as int + 2, 0);
    }
    // If the next char is:
    let c1 = bytes[pos + 1];
    if c1 == SLASH {
        // Also a forward slash, `pos` begins an inline comment.
        identify_inline_comment(bytes, pos)
    } else if c1 == ASTERISK {
        // An asterisk, `pos` could begin a multiline comment.
        identify_multiline_comment(bytes, pos)
    } else {
        // Anything else, `pos` does not begin a comment.
        pos
    }
}

/// Finds the end of the inline comment whose `//` is at `pos`.
pub fn identify_inline_comment(raw: &[u8], pos: usize) -> (end: usize)
    requires
        pos + 2 <= raw.len(),
    ensures
        end == inline_comment_end(raw@, pos as int + 2),
{
    let len = raw.len();
    // Step through each byte, from `pos + 2` to the end of the input code.
    let mut i: usize = pos + 2;
    while i < len
        invariant
            pos + 2 <= i <= len,
            len == raw.len(),
            inline_comment_end(raw@, i as int) == inline_comment_end(raw@, pos as int + 2),
        decreases len - i,
    {
        // If this char is a newline:
        if raw[i] == LINE_FEED {
            // Advance to the start of the newline.
            return i;
        }
        // Step forward, ready for the next iteration.
        i += 1;
    }
    // No newline was found, so advance to the end of the input code.
    len
}

/// Finds the end of the multiline comment whose `/*` is at `pos`, or returns
/// `pos` where the comment is never closed.
pub fn identify_multiline_comment(raw: &[u8], pos: usize) -> (end: usize)
    requires
        pos + 2 <= raw.len(),
    ensures
        end == match block_comment_scan(raw@, pos as int + 2, 0) {
            Some(e) => e,
            None => pos as int,
        },
{
    let len = raw.len();
    // Track how deep into a nested multiline comment we are.
    let mut depth: usize = 0;
    let mut i: usize = pos + 2;
    // Step through each byte, from `pos + 2` to the end of the input code.
    while i < len
        invariant
            pos + 2 <= i,
            depth <= i,
            len == raw.len(),
            block_comment_scan(raw@, i as int, depth as nat) == block_comment_scan(
                raw@,
                pos as int + 2,
                0,
            ),
        decreases len - i,
    {
        let c0 = raw[i];
        let has_next = len - i > 1;
        if c0 == ASTERISK && has_next && raw[i + 1] == SLASH {
            // If the depth is zero (so we are at the outermost nesting level):
            if depth == 0 {
                // Advance to the end of the "*/".
                return i + 2;
            }
            // Otherwise we are some way inside a nested multiline comment.
            depth -= 1;
            // Skip the forward slash (avoids confusion in "/*/* */* */").
            i += 2;
        } else if c0 == SLASH && has_next && raw[i + 1] == ASTERISK {
            // Increment the nesting-depth.
            depth += 1;
            // Skip the asterisk (avoids confusion in "/*/*/ */ */").
            i += 2;
        } else {
            // Step forward, ready for the next iteration.
            i += 1;
        }
    }
    // The outermost "*/" was not found, so this is not a multiline comment.
    pos
}

/// An inline comment ends within the text, at the first line feed or, if
/// there is none, at the end: it holds no line feed.
pub proof fn lemma_inline_comment_end(s: Seq<u8>, i: int)
    requires
        0 <= i <= s.len(),
    ensures
        i <= inline_comment_end(s, i) <= s.len(),
        inline_comment_end(s, i) < s.len() ==> s[inline_comment_end(s, i)] == LINE_FEED,
        forall|k: int| i <= k < inline_comment_end(s, i) ==> s[k] != LINE_FEED,
    decreases s.len() - i,
{
    if i < s.len() && s[i] != LINE_FEED {
        lemma_inline_comment_end(s, i + 1);
    }
}

/// A multiline comment that is closed ends after a slash, within the text.
pub proof fn lemma_block_comment_scan(s: Seq<u8>, i: int, depth: nat)
    requires
        0 <= i,
    ensures
        block_comment_scan(s, i, depth) matches Some(e) ==> i + 2 <= e <= s.len() && s[e - 1]
            == SLASH,
    decreases s.len() - i,
{
    if i < s.len() {
        if closes_block(s, i) {
            if depth > 0 {
                lemma_block_comment_scan(s, i + 2, (depth - 1) as nat);
            }
        } else if opens_block(s, i) {
            lemma_block_comment_scan(s, i + 2, depth + 1);
        } else {
            lemma_block_comment_scan(s, i + 1, depth);
        }
    }
}

/// An inline comment runs to the end of the text, if no line feed stands
/// between offset `i` and the end of the text.
pub proof fn lemma_inline_comment_to_end(s: Seq<u8>, i: int)
    requires
        0 <= i <= s.len(),
        forall|k: int| i <= k < s.len() ==> s[k] != LINE_FEED,
    ensures
        inline_comment_end(s, i) == s.len(),
    decreases s.len() - i,
{
    if i < s.len() {
        lemma_inline_comment_to_end(s, i + 1);
    }
}

/// A multiline comment that ends at `e`, cut off at `e` and read on its
/// own from the text's offset `p` on, ends where it did.
pub proof fn lemma_block_comment_scan_isolated(s: Seq<u8>, p: int, i: int, depth: nat, e: int)
    requires
        0 <= p <= i,
        block_comment_scan(s, i, depth) == Some(e),
    ensures
        i + 2 <= e <= s.len(),
        block_comment_scan(s.subrange(p, e), i - p, depth) == Some(e - p),
    decreases s.len() - i,
{
    if closes_block(s, i) {
        if depth > 0 {
            lemma_block_comment_scan_isolated(s, p, i + 2, (depth - 1) as nat, e);
        }
    } else if opens_block(s, i) {
        lemma_block_comment_scan_isolated(s, p, i + 2, depth + 1, e);
    } else {
        lemma_block_comment_scan_isolated(s, p, i + 1, depth, e);
    }
}

/// A comment, read on its own, is a comment from its first byte to its
/// last.
pub proof fn lemma_comment_isolated(s: Seq<u8>, p: int)
    requires
        comment_end(s, p) > p,
    ensures
        0 <= p < comment_end(s, p) <= s.len(),
        comment_end(s.subrange(p, comment_end(s, p)), 0) == comment_end(s, p) - p,
{
    let e = comment_end(s, p);
    let t = s.subrange(p, e);
    if opens_block(s, p) {
        lemma_block_comment_scan_isolated(s, p, p + 2, 0, e);
    } else {
        lemma_inline_comment_end(s, p + 2);
        lemma_inline_comment_to_end(t, 2);
    }
}

/// A multiline comment that ends in a cut of a text ends at the same byte
/// in the text.
pub proof fn lemma_block_comment_scan_extends(s: Seq<u8>, p: int, e: int, i: int, depth: nat)
    requires
        0 <= p <= i,
        p <= e <= s.len(),
        block_comment_scan(s.subrange(p, e), i - p, depth) is Some,
    ensures
        block_comment_scan(s, i, depth) == Some(
            p + block_comment_scan(s.subrange(p, e), i - p, depth)->0,
        ),
    decreases e - i,
{
    let t = s.subrange(p, e);
    if closes_block(t, i - p) {
        if depth > 0 {
            lemma_block_comment_scan_extends(s, p, e, i + 2, (depth - 1) as nat);
        }
    } else if opens_block(t, i - p) {
        lemma_block_comment_scan_extends(s, p, e, i + 2, depth + 1);
    } else {
        // The comment ends later, so the byte at `i` is not the last of the
        // cut: what follows it is the same in the cut and in the text.
        lemma_block_comment_scan_extends(s, p, e, i + 1, depth);
    }
}

/// A comment that begins a cut of a text begins in the text where the cut
/// begins.
pub proof fn lemma_comment_extends(s: Seq<u8>, p: int, e: int)
    requires
        0 <= p < e <= s.len(),
        comment_end(s.subrange(p, e), 0) > 0,
    ensures
        p < comment_end(s, p) <= s.len(),
{
    let t = s.subrange(p, e);
    if opens_block(t, 0) {
        lemma_block_comment_scan_extends(s, p, e, p + 2, 0);
        lemma_block_comment_scan(s, p + 2, 0);
    } else {
        lemma_inline_comment_end(s, p + 2);
    }
}

/// In well-formed UTF-8 a comment ends on a character boundary.
pub proof fn lemma_comment_end_on_boundary(s: Seq<u8>, p: int)
    requires
        valid_utf8(s),
    ensures
        p <= comment_end(s, p),
        comment_end(s, p) > p ==> 0 <= p && comment_end(s, p) <= s.len() && on_boundary(
            s,
            comment_end(s, p),
        ),
{
    if 0 <= p && p + 2 <= s.len() {
        lemma_inline_comment_end(s, p + 2);
        lemma_block_comment_scan(s, p + 2, 0);
        let e = comment_end(s, p);
        if opens_block(s, p) && e > p {
            lemma_after_ascii(s, e - 1);
        }
    }
}

} // verus!
