//! What becomes of a lexeme that is read again, on its own.
//!
//! The text of a lexeme that `lexemize()` has found, given to `lexemize()`
//! as an input of its own, is one lexeme of the same kind, from the first
//! byte to the last. This holds of every kind but `Xtraneous`.

use vstd::prelude::*;
use crate::rs2018_ts4::lexemize::identify::character::{
    character_end, lemma_character_extends, lemma_character_isolated,
};
use crate::rs2018_ts4::lexemize::identify::comment::{
    comment_end, lemma_comment_extends, lemma_comment_isolated,
};
use crate::rs2018_ts4::lexemize::identify::identifier::{
    identifier_end, lemma_identifier_extends, lemma_identifier_isolated,
};
use crate::rs2018_ts4::lexemize::identify::number::lemma_number_isolated;
use crate::rs2018_ts4::lexemize::identify::punctuation::lemma_punctuation_isolated;
use crate::rs2018_ts4::lexemize::identify::string::{
    lemma_string_extends, lemma_string_isolated, string_end,
};
use crate::rs2018_ts4::lexemize::identify::whitespace::lemma_whitespace_isolated;
use crate::rs2018_ts4::lexemize::lexeme::{LexemeKind, LexemeView};
use crate::rs2018_ts4::lexemize::lexemize::{
    begins, first_match, first_match_from, kind_end, lemma_first_match_from, lexemes_from,
    lexemes_of, pending,
};

verus! {

/// A lexeme of any kind, read on its own, is a lexeme of that kind from its
/// first byte to its last.
pub proof fn lemma_kind_isolated(kind: LexemeKind, s: Seq<u8>, p: int)
    requires
        begins(kind, s, p),
    ensures
        0 <= p < kind_end(kind, s, p) <= s.len(),
        kind_end(kind, s.subrange(p, kind_end(kind, s, p)), 0) == kind_end(kind, s, p) - p,
{
    match kind {
        LexemeKind::Character => lemma_character_isolated(s, p),
        LexemeKind::Comment => lemma_comment_isolated(s, p),
        LexemeKind::Identifier => lemma_identifier_isolated(s, p),
        LexemeKind::Number => lemma_number_isolated(s, p),
        LexemeKind::Punctuation => lemma_punctuation_isolated(s, p),
        LexemeKind::String => lemma_string_isolated(s, p),
        LexemeKind::Whitespace => lemma_whitespace_isolated(s, p),
        LexemeKind::Xtraneous => {},
    }
}

/// The lexeme that begins at `p`, read on its own, is the lexeme that
/// begins the text: no kind that comes before its own in the order of
/// priority has a lexeme there.
pub proof fn lemma_first_match_isolated(s: Seq<u8>, p: int)
    requires
        first_match(s, p) is Some,
    ensures
        ({
            let (kind, end) = first_match(s, p)->0;
            &&& 0 <= p < end <= s.len()
            &&& first_match(s.subrange(p, end), 0) == Some((kind, end - p))
        }),
{
    reveal_with_fuel(first_match_from, 8);
    let (kind, end) = first_match(s, p)->0;
    let t = s.subrange(p, end);
    lemma_kind_isolated(kind, s, p);
    // A char literal, a comment, a string or an identifier that begins the
    // lexeme read on its own begins in the text where the lexeme begins: so
    // none of a kind that comes before the kind of the lexeme begins there.
    // A number and a punctuation begin with bytes of their own.
    if character_end(t, 0) > 0 {
        lemma_character_extends(s, p, end);
    }
    if comment_end(t, 0) > 0 {
        lemma_comment_extends(s, p, end);
    }
    if string_end(t, 0) > 0 {
        lemma_string_extends(s, p, end);
    }
    if identifier_end(t, 0) > 0 {
        lemma_identifier_extends(s, p, end);
    }
}

/// A lexeme of a text that is not `Xtraneous` is the first match at its
/// position, and its text is the text from there to where the match ends.
pub proof fn lemma_lexeme_is_first_match(s: Seq<u8>, pos: int, xtra_pos: int, i: int)
    requires
        0 <= xtra_pos <= pos <= s.len(),
        0 <= i < lexemes_from(s, pos, xtra_pos).len(),
        lexemes_from(s, pos, xtra_pos)[i].kind != LexemeKind::Xtraneous,
    ensures
        ({
            let lexeme = lexemes_from(s, pos, xtra_pos)[i];
            &&& first_match(s, lexeme.pos) == Some((lexeme.kind, lexeme.pos + lexeme.text.len()))
            &&& lexeme.text == s.subrange(lexeme.pos, lexeme.pos + lexeme.text.len())
        }),
    decreases s.len() - pos,
{
    if pos < s.len() {
        match first_match(s, pos) {
            Some((kind, end)) => {
                lemma_first_match_from(s, pos, 0);
                let before = pending(s, xtra_pos, pos);
                if i >= before.len() + 1 {
                    lemma_lexeme_is_first_match(s, end, end, i - before.len() - 1);
                }
            },
            None => {
                lemma_lexeme_is_first_match(s, pos + 1, xtra_pos, i);
            },
        }
    }
}

/// Each lexeme of a text that is not `Xtraneous`, read on its own, is one
/// lexeme of the same kind, which begins at position zero and has the same
/// text.
pub proof fn lemma_lexeme_rescanned(s: Seq<u8>, i: int)
    requires
        0 <= i < lexemes_of(s).len(),
        lexemes_of(s)[i].kind != LexemeKind::Xtraneous,
    ensures
        lexemes_of(lexemes_of(s)[i].text) == seq![
            LexemeView { kind: lexemes_of(s)[i].kind, pos: 0, text: lexemes_of(s)[i].text },
        ],
{
    let lexeme = lexemes_of(s)[i];
    lemma_lexeme_is_first_match(s, 0, 0, i);
    lemma_first_match_isolated(s, lexeme.pos);
    // The lexeme that begins its own text ends it, and nothing follows.
    let t = lexeme.text;
    assert(t.subrange(0, t.len() as int) =~= t);
    reveal_with_fuel(lexemes_from, 2);
}

} // verus!
