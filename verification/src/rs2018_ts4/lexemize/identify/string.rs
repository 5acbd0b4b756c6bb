//! Identifies a string literal, like `"Hello \"Rust\""` or `r#"Hello "Rust""#`.

use vstd::prelude::*;
use vstd::string::StringSliceAdditionalSpecFns;
use vstd::utf8::*;
use crate::rs2018_ts4::lexemize::ascii::{BACKSLASH, DOUBLE_QUOTE, HASH, LOWER_R};
use crate::rs2018_ts4::lexemize::text::{ascii_or_tilde, lemma_after_ascii, on_boundary};

verus! {

/// Looks for the end of a regular string from offset `i` inside it: the
/// offset after the first double quote that no backslash escapes. A
/// backslash escapes the byte after it, whatever that is.
pub open spec fn regular_string_scan(s: Seq<u8>, i: int) -> Option<int>
    decreases s.len() - i,
{
    if i < 0 || i >= s.len() {
        None
    } else if s[i] == DOUBLE_QUOTE {
        Some(i + 1)
    } else if s[i] == BACKSLASH {
        if i + 1 < s.len() {
            regular_string_scan(s, i + 2)
        } else {
            None
        }
    } else {
        regular_string_scan(s, i + 1)
    }
}

/// How many hashes stand in a row from offset `i` on.
pub open spec fn hash_run_len(s: Seq<u8>, i: int) -> nat
    decreases s.len() - i,
{
    if 0 <= i < s.len() && s[i] == HASH {
        1 + hash_run_len(s, i + 1)
    } else {
        0
    }
}

/// Looks for the end of a raw string from offset `i` inside it. The first
/// double quote closes the string: at least `hashes` hashes have to follow
/// it, and the string ends after that many of them. Where fewer follow, the
/// hashes are not balanced, and there is no string. A backslash is a byte
/// like any other here.
pub open spec fn raw_string_scan(s: Seq<u8>, i: int, hashes: nat) -> Option<int>
    decreases s.len() - i,
{
    if i < 0 || i >= s.len() {
        None
    } else if s[i] == DOUBLE_QUOTE {
        if hash_run_len(s, i + 1) >= hashes {
            Some(i + 1 + hashes)
        } else {
            None
        }
    } else {
        raw_string_scan(s, i + 1, hashes)
    }
}

/// Where the raw string ends whose `r` stands at `p`, or `p` itself where
/// the `r` is not followed by hashes and a double quote, where no double
/// quote closes the string, or where fewer hashes follow the closing double
/// quote than lead the string.
pub open spec fn raw_string_end(s: Seq<u8>, p: int) -> int {
    let hashes = hash_run_len(s, p + 1);
    if ascii_or_tilde(s, p + 1 + hashes) == DOUBLE_QUOTE {
        match raw_string_scan(s, p + 2 + hashes, hashes) {
            Some(end) => end,
            None => p,
        }
    } else {
        p
    }
}

/// Where the string literal that begins at `p` ends, or `p` itself where
/// none begins there.
pub open spec fn string_end(s: Seq<u8>, p: int) -> int {
    if 0 <= p < s.len() && s[p] == DOUBLE_QUOTE {
        match regular_string_scan(s, p + 1) {
            Some(end) => end,
            None => p,
        }
    } else if 0 <= p < s.len() && s[p] == LOWER_R {
        raw_string_end(s, p)
    } else {
        p
    }
}

/// Identifies a string literal, like `"Hello \"Rust\""` or `r#"Hello "Rust""#`.
///
/// ### Arguments
/// * `raw` The Rust code, assumed to conform to the 2018 edition
/// * `pos` The byte position in `raw` to look at
///
/// ### Returns
/// If `pos` begins a string, `identify_string()` returns the position after
/// its closing double quote, or after the hashes that close a raw string.
/// Otherwise, `identify_string()` just returns the `pos` argument.
pub fn identify_string(raw: &str, pos: usize) -> (end: usize)
    ensures
        end == string_end(raw.spec_bytes(), pos as int),
        end == pos || pos < end <= raw.spec_bytes().len(),
{
    let bytes = raw.as_bytes();
    let len = bytes.len();
    // If the current char is past the last char in `raw`, it does not begin
    // a string.
    if pos >= len {
        return pos;
    }
    proof {
        lemma_regular_string_scan(bytes@, pos as int + 1);
        lemma_raw_string_end(bytes@, pos as int);
    }
    let c = bytes[pos];
    if c == DOUBLE_QUOTE {
        // A double quote, `pos` could begin a regular string.
        identify_regular_string(bytes, pos)
    } else if c == LOWER_R {
        // A lowercase "r", `pos` could begin a raw string.
        identify_raw_string(bytes, pos)
    } else {
        // Anything else, `pos` does not begin a string.
        pos
    }
}

/// Finds the end of the regular string whose opening double quote is at
/// `pos`, or returns `pos` where no double quote closes it.
pub fn identify_regular_string(raw: &[u8], pos: usize) -> (end: usize)
    requires
        pos < raw.len(),
    ensures
        end == match regular_string_scan(raw@, pos as int + 1) {
            Some(e) => e,
            None => pos as int,
        },
{
    let len = raw.len();
    let mut i: usize = pos + 1;
    // Step through each byte, from `pos` to the end of the input code.
    while i < len
        invariant
            pos < i,
            len == raw.len(),
            regular_string_scan(raw@, i as int) == regular_string_scan(raw@, pos as int + 1),
        decreases len - i,
    {
        let c = raw[i];
        if c == DOUBLE_QUOTE {
            // Advance to the end of the double quote.
            return i + 1;
        }
        if c == BACKSLASH {
            // Ignore the next byte.
            if len - i < 2 {
                return pos;
            }
            i += 1;
        }
        // Step forward.
        i += 1;
    }
    // The closing double quote was not found, so this is not a string.
    pos
}

/// Finds the end of the raw string whose `r` is at `pos`, or returns `pos`
/// where this is no raw string.
pub fn identify_raw_string(raw: &[u8], pos: usize) -> (end: usize)
    requires
        pos < raw.len(),
    ensures
        end == raw_string_end(raw@, pos as int),
{
    let len = raw.len();
    // Count the leading hashes.
    let mut i: usize = pos + 1;
    let mut hashes: usize = 0;
    while i < len && raw[i] == HASH
        invariant
            i == pos + 1 + hashes,
            i <= len,
            len == raw.len(),
            hash_run_len(raw@, pos as int + 1) == hashes + hash_run_len(raw@, i as int),
        decreases len - i,
    {
        hashes += 1;
        i += 1;
    }
    // Anything but a double quote is not valid for the start of a raw string.
    if i >= len || raw[i] != DOUBLE_QUOTE {
        return pos;
    }
    i += 1;
    // Step through each byte of the main part of the string, up to the
    // closing double quote.
    while i < len && raw[i] != DOUBLE_QUOTE
        invariant
            pos + 2 + hashes <= i <= len,
            len == raw.len(),
            raw_string_scan(raw@, i as int, hashes as nat) == raw_string_scan(
                raw@,
                pos as int + 2 + hashes,
                hashes as nat,
            ),
        decreases len - i,
    {
        i += 1;
    }
    // Without a closing double quote, this is not a raw string.
    if i >= len {
        return pos;
    }
    // Count the hashes after the closing double quote, as far as the leading
    // hashes need to be balanced.
    let mut trailing: usize = 0;
    while trailing < hashes && trailing < len - i - 1 && raw[i + 1 + trailing] == HASH
        invariant
            i < len,
            len == raw.len(),
            trailing <= hashes,
            trailing <= len - i - 1,
            hash_run_len(raw@, i as int + 1) == trailing + hash_run_len(
                raw@,
                i as int + 1 + trailing,
            ),
        decreases hashes - trailing,
    {
        trailing += 1;
    }
    // Any leading hashes have to be balanced by trailing hashes.
    if trailing == hashes {
        i + 1 + hashes
    } else {
        pos
    }
}

/// A run of hashes is made of hashes and lies within the text.
pub proof fn lemma_hash_run(s: Seq<u8>, i: int)
    requires
        0 <= i,
    ensures
        i + hash_run_len(s, i) <= s.len() || hash_run_len(s, i) == 0,
        forall|k: int| i <= k < i + hash_run_len(s, i) ==> s[k] == HASH,
    decreases s.len() - i,
{
    if i < s.len() && s[i] == HASH {
        lemma_hash_run(s, i + 1);
    }
}

/// A regular string that is found ends after a double quote, within the
/// text.
pub proof fn lemma_regular_string_scan(s: Seq<u8>, i: int)
    requires
        0 <= i,
    ensures
        regular_string_scan(s, i) matches Some(e) ==> i < e <= s.len() && s[e - 1] == DOUBLE_QUOTE,
    decreases s.len() - i,
{
    if i < s.len() && s[i] != DOUBLE_QUOTE {
        if s[i] == BACKSLASH {
            if i + 1 < s.len() {
                lemma_regular_string_scan(s, i + 2);
            }
        } else {
            lemma_regular_string_scan(s, i + 1);
        }
    }
}

/// A raw string that is found ends after a double quote or a hash, within
/// the text.
pub proof fn lemma_raw_string_scan(s: Seq<u8>, i: int, hashes: nat)
    requires
        0 <= i,
    ensures
        raw_string_scan(s, i, hashes) matches Some(e) ==> i < e <= s.len() && (s[e - 1]
            == DOUBLE_QUOTE || s[e - 1] == HASH),
    decreases s.len() - i,
{
    if i < s.len() {
        if s[i] == DOUBLE_QUOTE {
            lemma_hash_run(s, i + 1);
        } else {
            lemma_raw_string_scan(s, i + 1, hashes);
        }
    }
}

/// A raw string that is found ends after its `r`, on a double quote or a
/// hash, within the text.
pub proof fn lemma_raw_string_end(s: Seq<u8>, p: int)
    requires
        0 <= p,
    ensures
        p <= raw_string_end(s, p),
        raw_string_end(s, p) > p ==> raw_string_end(s, p) <= s.len() && (s[raw_string_end(s, p) - 1]
            == DOUBLE_QUOTE || s[raw_string_end(s, p) - 1] == HASH),
{
    let hashes = hash_run_len(s, p + 1);
    lemma_raw_string_scan(s, p + 2 + hashes, hashes);
}

/// A run of hashes has the length `n`, if `n` hashes stand from `i` on, and
/// the text ends after them or goes on with another byte.
pub proof fn lemma_hash_run_is(s: Seq<u8>, i: int, n: nat)
    requires
        0 <= i,
        i + n <= s.len(),
        forall|k: int| i <= k < i + n ==> s[k] == HASH,
        i + n == s.len() || s[i + n] != HASH,
    ensures
        hash_run_len(s, i) == n,
    decreases n,
{
    if n > 0 {
        lemma_hash_run_is(s, i + 1, (n - 1) as nat);
    }
}

/// A run of hashes in the first `e` bytes of a text is no longer than the
/// run in the whole text that starts at the same byte.
pub proof fn lemma_hash_run_cut(s: Seq<u8>, p: int, e: int, i: int)
    requires
        0 <= p <= i <= e <= s.len(),
    ensures
        hash_run_len(s.subrange(p, e), i - p) <= hash_run_len(s, i),
        hash_run_len(s, i) <= e - i ==> hash_run_len(s.subrange(p, e), i - p) == hash_run_len(s, i),
        hash_run_len(s, i) >= e - i ==> hash_run_len(s.subrange(p, e), i - p) == e - i,
    decreases e - i,
{
    if i < e && s[i] == HASH {
        lemma_hash_run_cut(s, p, e, i + 1);
    }
}

/// A regular string that ends at `e`, cut off at `e` and read on its own
/// from the text's offset `p` on, ends where it did.
pub proof fn lemma_regular_string_scan_isolated(s: Seq<u8>, p: int, i: int, e: int)
    requires
        0 <= p <= i,
        regular_string_scan(s, i) == Some(e),
    ensures
        i < e <= s.len(),
        regular_string_scan(s.subrange(p, e), i - p) == Some(e - p),
    decreases s.len() - i,
{
    if s[i] == BACKSLASH {
        lemma_regular_string_scan_isolated(s, p, i + 2, e);
    } else if s[i] != DOUBLE_QUOTE {
        lemma_regular_string_scan_isolated(s, p, i + 1, e);
    }
}

/// A raw string that ends at `e`, cut off at `e` and read on its own from
/// the text's offset `p` on, ends where it did.
pub proof fn lemma_raw_string_scan_isolated(s: Seq<u8>, p: int, i: int, hashes: nat, e: int)
    requires
        0 <= p <= i,
        raw_string_scan(s, i, hashes) == Some(e),
    ensures
        i < e <= s.len(),
        raw_string_scan(s.subrange(p, e), i - p, hashes) == Some(e - p),
    decreases s.len() - i,
{
    lemma_raw_string_scan(s, i, hashes);
    if s[i] == DOUBLE_QUOTE {
        lemma_hash_run_cut(s, p, e, i + 1);
    } else {
        lemma_raw_string_scan_isolated(s, p, i + 1, hashes, e);
    }
}

/// A string literal, read on its own, is a string literal from its first
/// byte to its last.
pub proof fn lemma_string_isolated(s: Seq<u8>, p: int)
    requires
        string_end(s, p) > p,
    ensures
        0 <= p < string_end(s, p) <= s.len(),
        string_end(s.subrange(p, string_end(s, p)), 0) == string_end(s, p) - p,
{
    let e = string_end(s, p);
    if s[p] == DOUBLE_QUOTE {
        lemma_regular_string_scan_isolated(s, p, p + 1, e);
    } else {
        let hashes = hash_run_len(s, p + 1);
        lemma_hash_run(s, p + 1);
        lemma_raw_string_scan_isolated(s, p, p + 2 + hashes, hashes, e);
        lemma_hash_run_is(s.subrange(p, e), 1, hashes);
    }
}

/// A regular string that ends in a cut of a text ends at the same byte in
/// the text.
pub proof fn lemma_regular_string_scan_extends(s: Seq<u8>, p: int, e: int, i: int)
    requires
        0 <= p <= i,
        p <= e <= s.len(),
        regular_string_scan(s.subrange(p, e), i - p) is Some,
    ensures
        regular_string_scan(s, i) == Some(p + regular_string_scan(s.subrange(p, e), i - p)->0),
    decreases e - i,
{
    let t = s.subrange(p, e);
    if s[i] == BACKSLASH {
        lemma_regular_string_scan_extends(s, p, e, i + 2);
    } else if s[i] != DOUBLE_QUOTE {
        lemma_regular_string_scan_extends(s, p, e, i + 1);
    }
}

/// A raw string that ends in a cut of a text ends at the same byte in the
/// text.
pub proof fn lemma_raw_string_scan_extends(s: Seq<u8>, p: int, e: int, i: int, hashes: nat)
    requires
        0 <= p <= i,
        p <= e <= s.len(),
        raw_string_scan(s.subrange(p, e), i - p, hashes) is Some,
    ensures
        raw_string_scan(s, i, hashes) == Some(
            p + raw_string_scan(s.subrange(p, e), i - p, hashes)->0,
        ),
    decreases e - i,
{
    if s.subrange(p, e)[i - p] == DOUBLE_QUOTE {
        // No fewer hashes follow the double quote in the text than in the
        // cut.
        lemma_hash_run_cut(s, p, e, i + 1);
    } else {
        lemma_raw_string_scan_extends(s, p, e, i + 1, hashes);
    }
}

/// A string literal that begins a cut of a text begins in the text where
/// the cut begins.
pub proof fn lemma_string_extends(s: Seq<u8>, p: int, e: int)
    requires
        0 <= p < e <= s.len(),
        string_end(s.subrange(p, e), 0) > 0,
    ensures
        p < string_end(s, p) <= s.len(),
{
    let t = s.subrange(p, e);
    if t[0] == DOUBLE_QUOTE {
        lemma_regular_string_scan_extends(s, p, e, p + 1);
        lemma_regular_string_scan(s, p + 1);
    } else {
        // The same hashes stand between the `r` and the double quote.
        let hashes = hash_run_len(t, 1);
        lemma_hash_run(t, 1);
        assert forall|k: int| p + 1 <= k < p + 1 + hashes implies s[k] == HASH by {
            assert(s[k] == t[k - p]);
        }
        lemma_hash_run_is(s, p + 1, hashes);
        lemma_raw_string_scan_extends(s, p, e, p + 2 + hashes, hashes);
        lemma_raw_string_end(s, p);
    }
}

/// In well-formed UTF-8 a string literal ends on a character boundary.
pub proof fn lemma_string_end_on_boundary(s: Seq<u8>, p: int)
    requires
        valid_utf8(s),
    ensures
        p <= string_end(s, p),
        string_end(s, p) > p ==> 0 <= p && string_end(s, p) <= s.len() && on_boundary(
            s,
            string_end(s, p),
        ),
{
    if 0 <= p < s.len() {
        lemma_regular_string_scan(s, p + 1);
        lemma_raw_string_end(s, p);
        let e = string_end(s, p);
        if e > p {
            lemma_after_ascii(s, e - 1);
        }
    }
}

} // verus!
