//! Tools for transpiling Rust 2018 to TypeScript 4 using the ‘Gungho’ strategy.

use vstd::prelude::*;
use vstd::string::StringSliceAdditionalSpecFns;
use crate::transpile::transpile::is_one_line_result;
use crate::transpile::transpile_result::TranspileResult;

verus! {

/// `needle` stands in `text` at offset `i`.
pub open spec fn occurs_at(text: Seq<u8>, needle: Seq<u8>, i: int) -> bool {
    0 <= i && i + needle.len() <= text.len() && text.subrange(i, i + needle.len()) == needle
}

/// `needle` stands somewhere in `text`.
pub open spec fn occurs(text: Seq<u8>, needle: Seq<u8>) -> bool {
    exists|i: int| occurs_at(text, needle, i)
}

/// The line of TypeScript that stands for a Rust program, so far: one
/// constant if the program holds the word `FOUR`, another if it does not.
pub open spec fn gungho_line(orig: Seq<u8>) -> &'static str {
    if occurs(orig, "FOUR".spec_bytes()) {
        "const FOUR: Number = 4;"
    } else {
        "const ROUGHLY_PI: Number = 3.14;"
    }
}

/// Tells whether `needle` stands in `text` at position `i`.
pub fn is_at(text: &[u8], needle: &[u8], i: usize) -> (found: bool)
    requires
        i + needle.len() <= text.len(),
    ensures
        found == occurs_at(text@, needle@, i as int),
{
    let n = needle.len();
    let mut k: usize = 0;
    while k < n
        invariant
            n == needle.len(),
            i + n <= text.len(),
            k <= n,
            forall|j: int| 0 <= j < k ==> text@[i + j] == needle@[j],
        decreases n - k,
    {
        if text[i + k] != needle[k] {
            return false;
        }
        k += 1;
    }
    assert(text@.subrange(i as int, i + n) =~= needle@);
    true
}

/// Tells whether `needle` stands somewhere in `text`.
pub fn contains(text: &[u8], needle: &[u8]) -> (found: bool)
    ensures
        found == occurs(text@, needle@),
{
    let len = text.len();
    let n = needle.len();
    if n > len {
        return false;
    }
    // The last position at which there is room for `needle`.
    let last = len - n;
    let mut i: usize = 0;
    while i < last
        invariant
            len == text.len(),
            n == needle.len(),
            last == len - n,
            i <= last,
            forall|j: int| 0 <= j < i ==> !occurs_at(text@, needle@, j),
        decreases last - i,
    {
        if is_at(text, needle, i) {
            return true;
        }
        i += 1;
    }
    is_at(text, needle, last)
}

/// Transpiles Rust 2018 code to TypeScript 4 code using the ‘Gungho’ strategy.
///
/// ### Arguments
/// * `orig` The Rust code, assumed to conform to the 2018 edition
///
/// ### Returns
/// A [`TranspileResult`] without errors, whose one main line is
/// [`gungho_line`] of the code.
pub fn rs2018_ts4_gungho(orig: &str) -> (result: TranspileResult)
    ensures
        is_one_line_result(result, gungho_line(orig.spec_bytes())),
{
    let result = if contains(orig.as_bytes(), "FOUR".as_bytes()) {
        TranspileResult::new().push_main_line("const FOUR: Number = 4;")
    } else {
        TranspileResult::new().push_main_line("const ROUGHLY_PI: Number = 3.14;")
    };
    assert(result.main_lines@ =~= seq![gungho_line(orig.spec_bytes())]);
    result
}

} // verus!
