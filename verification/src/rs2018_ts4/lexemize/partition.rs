//! What holds of the lexemes of every input.
//!
//! The lexemes part the input: they lie in a row from its first byte to its
//! last, and their texts, one after the other, are the input. What is
//! `Xtraneous` is what nothing identifies, in runs that are as long as they
//! can be.

use vstd::prelude::*;
use crate::rs2018_ts4::lexemize::lexeme::{
    contiguous, lemma_contiguous_concat, lemma_text_bytes_concat, text_bytes, LexemeKind,
    LexemeView,
};
use crate::rs2018_ts4::lexemize::lexemize::{
    first_match, lemma_first_match_from, lexemes_from, lexemes_of, pending,
};

verus! {

/// The text of what was not identified from `from` up to `to`.
pub proof fn lemma_pending_text(s: Seq<u8>, from: int, to: int)
    requires
        0 <= from <= to <= s.len(),
    ensures
        text_bytes(pending(s, from, to)) == s.subrange(from, to),
{
    reveal_with_fuel(text_bytes, 2);
}

/// The texts of the lexemes read from `pos` on, with what was not
/// identified before `pos`, are the input from `xtra_pos` on: nothing is
/// left out, nothing is read twice, and the order is kept.
pub proof fn lemma_lexemes_from_cover(s: Seq<u8>, pos: int, xtra_pos: int)
    requires
        0 <= xtra_pos <= pos <= s.len(),
    ensures
        text_bytes(lexemes_from(s, pos, xtra_pos)) == s.subrange(xtra_pos, s.len() as int),
    decreases s.len() - pos,
{
    let len = s.len() as int;
    if pos >= len {
        lemma_pending_text(s, xtra_pos, len);
    } else {
        match first_match(s, pos) {
            Some((kind, end)) => {
                lemma_first_match_from(s, pos, 0);
                let found = seq![LexemeView { kind: kind, pos: pos, text: s.subrange(pos, end) }];
                let rest = lexemes_from(s, end, end);
                lemma_lexemes_from_cover(s, end, end);
                lemma_pending_text(s, xtra_pos, pos);
                lemma_text_bytes_concat(pending(s, xtra_pos, pos), found);
                lemma_text_bytes_concat(pending(s, xtra_pos, pos) + found, rest);
                assert(text_bytes(found) =~= s.subrange(pos, end)) by {
                    reveal_with_fuel(text_bytes, 2);
                }
            },
            None => {
                lemma_lexemes_from_cover(s, pos + 1, xtra_pos);
            },
        }
    }
}

/// The lexemes read from `pos` on, with what was not identified before
/// `pos`, lie in a row from `xtra_pos` to the end of the input.
pub proof fn lemma_lexemes_from_contiguous(s: Seq<u8>, pos: int, xtra_pos: int)
    requires
        0 <= xtra_pos <= pos <= s.len(),
    ensures
        contiguous(lexemes_from(s, pos, xtra_pos), xtra_pos, s.len() as int),
    decreases s.len() - pos,
{
    let len = s.len() as int;
    if pos >= len {
        reveal_with_fuel(contiguous, 2);
    } else {
        match first_match(s, pos) {
            Some((kind, end)) => {
                lemma_first_match_from(s, pos, 0);
                let found = seq![LexemeView { kind: kind, pos: pos, text: s.subrange(pos, end) }];
                lemma_lexemes_from_contiguous(s, end, end);
                assert(contiguous(found, pos, end)) by {
                    reveal_with_fuel(contiguous, 2);
                }
                assert(contiguous(pending(s, xtra_pos, pos), xtra_pos, pos)) by {
                    reveal_with_fuel(contiguous, 2);
                }
                lemma_contiguous_concat(pending(s, xtra_pos, pos), found, xtra_pos, pos, end);
                lemma_contiguous_concat(
                    pending(s, xtra_pos, pos) + found,
                    lexemes_from(s, end, end),
                    xtra_pos,
                    end,
                    len,
                );
            },
            None => {
                lemma_lexemes_from_contiguous(s, pos + 1, xtra_pos);
            },
        }
    }
}

/// The text of each lexeme read from `pos` on is the text of the input
/// from the position of the lexeme on.
pub proof fn lemma_lexemes_from_are_slices(s: Seq<u8>, pos: int, xtra_pos: int, i: int)
    requires
        0 <= xtra_pos <= pos <= s.len(),
        0 <= i < lexemes_from(s, pos, xtra_pos).len(),
    ensures
        lexemes_from(s, pos, xtra_pos)[i].is_slice_of(s),
    decreases s.len() - pos,
{
    if pos < s.len() {
        match first_match(s, pos) {
            Some((kind, end)) => {
                lemma_first_match_from(s, pos, 0);
                let before = pending(s, xtra_pos, pos);
                if i >= before.len() + 1 {
                    lemma_lexemes_from_are_slices(s, end, end, i - before.len() - 1);
                }
            },
            None => {
                lemma_lexemes_from_are_slices(s, pos + 1, xtra_pos, i);
            },
        }
    }
}

/// The texts of the lexemes of an input, one after the other, are the
/// input, and the lexemes lie in a row from its first byte to its last.
pub proof fn lemma_lexemes_part_the_input(s: Seq<u8>)
    ensures
        text_bytes(lexemes_of(s)) == s,
        contiguous(lexemes_of(s), 0, s.len() as int),
{
    lemma_lexemes_from_cover(s, 0, 0);
    lemma_lexemes_from_contiguous(s, 0, 0);
}

/// Nothing is identified from `from` up to `to`.
pub open spec fn unmatched(s: Seq<u8>, from: int, to: int) -> bool {
    forall|q: int| from <= q < to ==> (#[trigger] first_match(s, q)) is None
}

/// Nothing is identified at any offset inside an `Xtraneous` lexeme, and the
/// lexeme after an `Xtraneous` lexeme is not `Xtraneous`.
pub proof fn lemma_xtraneous_from(s: Seq<u8>, pos: int, xtra_pos: int, i: int)
    requires
        0 <= xtra_pos <= pos <= s.len(),
        unmatched(s, xtra_pos, pos),
        0 <= i < lexemes_from(s, pos, xtra_pos).len(),
        lexemes_from(s, pos, xtra_pos)[i].kind == LexemeKind::Xtraneous,
    ensures
        ({
            let lexemes = lexemes_from(s, pos, xtra_pos);
            &&& unmatched(s, lexemes[i].pos, lexemes[i].pos + lexemes[i].text.len())
            &&& i + 1 < lexemes.len() ==> lexemes[i + 1].kind != LexemeKind::Xtraneous
        }),
    decreases s.len() - pos,
{
    if pos < s.len() {
        match first_match(s, pos) {
            Some((kind, end)) => {
                lemma_first_match_from(s, pos, 0);
                let before = pending(s, xtra_pos, pos);
                if i >= before.len() + 1 {
                    lemma_xtraneous_from(s, end, end, i - before.len() - 1);
                }
            },
            None => {
                lemma_xtraneous_from(s, pos + 1, xtra_pos, i);
            },
        }
    }
}

/// An `Xtraneous` lexeme of an input is a run of bytes at which nothing is
/// identified, and it is as long as it can be: it is followed by a lexeme
/// of another kind, or by the end of the input.
pub proof fn lemma_xtraneous_run(s: Seq<u8>, i: int)
    requires
        0 <= i < lexemes_of(s).len(),
        lexemes_of(s)[i].kind == LexemeKind::Xtraneous,
    ensures
        unmatched(s, lexemes_of(s)[i].pos, lexemes_of(s)[i].pos + lexemes_of(s)[i].text.len()),
        i + 1 < lexemes_of(s).len() ==> lexemes_of(s)[i + 1].kind != LexemeKind::Xtraneous,
{
    lemma_xtraneous_from(s, 0, 0, i);
}

} // verus!
