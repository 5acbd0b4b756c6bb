//! Transforms raw Rust 2018 code into Lexemes.

use vstd::prelude::*;
use vstd::string::StringSliceAdditionalSpecFns;
use vstd::utf8::*;
use crate::rs2018_ts4::lexemize::identify::character::{
    character_end, identify_character, lemma_character_end_on_boundary,
};
use crate::rs2018_ts4::lexemize::identify::comment::{
    comment_end, identify_comment, lemma_comment_end_on_boundary,
};
use crate::rs2018_ts4::lexemize::identify::identifier::{
    identifier_end, identify_identifier, lemma_identifier_end_on_boundary,
};
use crate::rs2018_ts4::lexemize::identify::number::{
    identify_number, lemma_number_end_on_boundary, number_end,
};
use crate::rs2018_ts4::lexemize::identify::punctuation::{
    identify_punctuation, lemma_punctuation_end_on_boundary, punctuation_end,
};
use crate::rs2018_ts4::lexemize::identify::string::{
    identify_string, lemma_string_end_on_boundary, string_end,
};
use crate::rs2018_ts4::lexemize::identify::whitespace::{
    identify_whitespace, lemma_whitespace_end_on_boundary, whitespace_end,
};
use crate::rs2018_ts4::lexemize::lexeme::{
    contiguous, lemma_texts_encode, rendered_lines, texts, views, Lexeme, LexemeKind, LexemeView,
    KIND_WIDTH, POS_WIDTH,
};
use crate::rs2018_ts4::lexemize::partition::{
    lemma_lexemes_from_are_slices, lemma_lexemes_from_contiguous, lemma_lexemes_from_cover,
};
use crate::rs2018_ts4::lexemize::render::{
    append_decimal, append_decimal_right, append_spaces, append_text_left, decimal, pad_left,
    pad_right, spaces,
};
use crate::rs2018_ts4::lexemize::text::{lemma_boundary_is_char_boundary, on_boundary};

verus! {

/// What `lexemize()` returns: the lexemes of the input in the order of the
/// input, and the position at which the input ends.
pub struct LexemizeResult {
    /// The byte length of the input.
    pub end_pos: usize,
    /// The lexemes. Each starts where the one before it ends, the first at
    /// position zero, and the last ends at `end_pos`.
    pub lexemes: Vec<Lexeme>,
}

impl LexemizeResult {
    /// The lexemes part the input: they lie in a row from position zero to
    /// `end_pos`, without gaps and without overlaps.
    pub open spec fn is_partition(self) -> bool {
        contiguous(views(self.lexemes@), 0, self.end_pos as int)
    }

    /// The result on several lines: `Lexemes found: ` and how many there
    /// are; each lexeme on a line of its own; and a last line that is laid
    /// out like a lexeme, with `EndOfInput` as the kind, the position at
    /// which the input ends, and `<EOI>` as the text.
    pub open spec fn rendered(self) -> Seq<char> {
        "Lexemes found: "@ + decimal(self.lexemes@.len()).push('\n') + rendered_lines(
            self.lexemes@,
        ) + pad_right("EndOfInput"@, KIND_WIDTH as nat) + spaces(1) + pad_left(
            decimal(self.end_pos as nat),
            POS_WIDTH as nat,
        ) + spaces(2) + "<EOI>"@
    }

    /// Renders the result on several lines, for tests and tooling.
    pub fn to_string(&self) -> (out: String)
        ensures
            out@ == self.rendered(),
    {
        let mut out = String::new();
        let n = self.lexemes.len();
        let ghost all = self.lexemes@;
        out.append("Lexemes found: ");
        append_decimal(&mut out, n);
        proof {
            reveal_strlit("\n");
        }
        out.append("\n");
        let ghost head = "Lexemes found: "@ + decimal(n as nat).push('\n');
        let mut i: usize = 0;
        while i < n
            invariant
                n == self.lexemes.len(),
                all == self.lexemes@,
                i <= n,
                "\n"@ == seq!['\n'],
                out@ == head + rendered_lines(all.take(i as int)),
            decreases n - i,
        {
            self.lexemes[i].render_into(&mut out);
            out.append("\n");
            proof {
                assert(all.take(i + 1).drop_last() =~= all.take(i as int));
            }
            i += 1;
        }
        assert(all.take(n as int) =~= all);
        append_text_left(&mut out, "EndOfInput", KIND_WIDTH);
        append_spaces(&mut out, 1);
        append_decimal_right(&mut out, self.end_pos, POS_WIDTH);
        append_spaces(&mut out, 2);
        out.append("<EOI>");
        out
    }
}

/// How many kinds of lexeme have a function that identifies them.
pub const IDENTIFIERS: usize = 7;

/// The kinds in the order in which `lexemize()` tries to identify them.
///
/// Note that a `String` can start with an `"r"` character, so it is placed
/// before `Identifier`.
pub open spec fn kind_by_priority(rank: int) -> LexemeKind {
    if rank == 0 {
        LexemeKind::Character
    } else if rank == 1 {
        LexemeKind::Comment
    } else if rank == 2 {
        LexemeKind::String
    } else if rank == 3 {
        LexemeKind::Identifier
    } else if rank == 4 {
        LexemeKind::Number
    } else if rank == 5 {
        LexemeKind::Punctuation
    } else {
        LexemeKind::Whitespace
    }
}

/// Where the lexeme of the given kind that begins at `p` ends, or `p`
/// itself where none begins there. Nothing identifies `Xtraneous`.
pub open spec fn kind_end(kind: LexemeKind, s: Seq<u8>, p: int) -> int {
    match kind {
        LexemeKind::Character => character_end(s, p),
        LexemeKind::Comment => comment_end(s, p),
        LexemeKind::Identifier => identifier_end(s, p),
        LexemeKind::Number => number_end(s, p),
        LexemeKind::Punctuation => punctuation_end(s, p),
        LexemeKind::String => string_end(s, p),
        LexemeKind::Whitespace => whitespace_end(s, p),
        LexemeKind::Xtraneous => p,
    }
}

/// A lexeme of the given kind begins at `p`.
pub open spec fn begins(kind: LexemeKind, s: Seq<u8>, p: int) -> bool {
    p < kind_end(kind, s, p) <= s.len()
}

/// The first kind, from the given rank on, of which a lexeme begins at `p`,
/// with the offset at which that lexeme ends.
pub open spec fn first_match_from(s: Seq<u8>, p: int, rank: int) -> Option<(LexemeKind, int)>
    decreases IDENTIFIERS - rank,
{
    if rank < 0 || rank >= IDENTIFIERS {
        None
    } else if begins(kind_by_priority(rank), s, p) {
        Some((kind_by_priority(rank), kind_end(kind_by_priority(rank), s, p)))
    } else {
        first_match_from(s, p, rank + 1)
    }
}

/// The lexeme that begins at `p`, if `p` is on a character boundary and any
/// begins there: its kind, the first in the order of priority, and the
/// offset at which it ends.
pub open spec fn first_match(s: Seq<u8>, p: int) -> Option<(LexemeKind, int)> {
    if on_boundary(s, p) {
        first_match_from(s, p, 0)
    } else {
        None
    }
}

/// The `Xtraneous` lexeme that holds the bytes from `from` up to `to`, if
/// there are any.
pub open spec fn pending(s: Seq<u8>, from: int, to: int) -> Seq<LexemeView> {
    if from != to {
        seq![LexemeView { kind: LexemeKind::Xtraneous, pos: from, text: s.subrange(from, to) }]
    } else {
        Seq::empty()
    }
}

/// The lexemes of the input from `pos` on, where the bytes from `xtra_pos`
/// up to `pos` have not been identified.
///
/// Where a lexeme begins at `pos`, the bytes not identified so far become
/// an `Xtraneous` lexeme, that lexeme follows, and reading goes on after
/// it. Where none begins, the byte at `pos` is not identified either. What
/// is not identified at the end of the input is a last `Xtraneous` lexeme.
pub open spec fn lexemes_from(s: Seq<u8>, pos: int, xtra_pos: int) -> Seq<LexemeView>
    decreases s.len() - pos,
    via lexemes_from_decreases
{
    if pos < 0 || pos >= s.len() {
        pending(s, xtra_pos, s.len() as int)
    } else {
        match first_match(s, pos) {
            Some((kind, end)) => pending(s, xtra_pos, pos) + seq![
                LexemeView { kind: kind, pos: pos, text: s.subrange(pos, end) },
            ] + lexemes_from(s, end, end),
            None => lexemes_from(s, pos + 1, xtra_pos),
        }
    }
}

/// Reading goes on after a lexeme that is found, and never beyond the end
/// of the input.
#[via_fn]
proof fn lexemes_from_decreases(s: Seq<u8>, pos: int, xtra_pos: int) {
    lemma_first_match_from(s, pos, 0);
}

/// The lexemes of an input.
pub open spec fn lexemes_of(s: Seq<u8>) -> Seq<LexemeView> {
    lexemes_from(s, 0, 0)
}

/// A lexeme that is found ends after `p`, within the input.
pub proof fn lemma_first_match_from(s: Seq<u8>, p: int, rank: int)
    ensures
        first_match_from(s, p, rank) matches Some((kind, end)) ==> p < end <= s.len() && end
            == kind_end(kind, s, p) && kind != LexemeKind::Xtraneous,
    decreases IDENTIFIERS - rank,
{
    if 0 <= rank < IDENTIFIERS && !begins(kind_by_priority(rank), s, p) {
        lemma_first_match_from(s, p, rank + 1);
    }
}

/// In well-formed UTF-8 a lexeme of any kind ends on a character boundary.
pub proof fn lemma_kind_end_on_boundary(kind: LexemeKind, s: Seq<u8>, p: int)
    requires
        valid_utf8(s),
    ensures
        p <= kind_end(kind, s, p),
        kind_end(kind, s, p) > p ==> 0 <= p && kind_end(kind, s, p) <= s.len() && on_boundary(
            s,
            kind_end(kind, s, p),
        ),
{
    match kind {
        LexemeKind::Character => lemma_character_end_on_boundary(s, p),
        LexemeKind::Comment => lemma_comment_end_on_boundary(s, p),
        LexemeKind::Identifier => lemma_identifier_end_on_boundary(s, p),
        LexemeKind::Number => lemma_number_end_on_boundary(s, p),
        LexemeKind::Punctuation => lemma_punctuation_end_on_boundary(s, p),
        LexemeKind::String => lemma_string_end_on_boundary(s, p),
        LexemeKind::Whitespace => lemma_whitespace_end_on_boundary(s, p),
        LexemeKind::Xtraneous => {},
    }
}

/// The kind of lexeme that `lexemize()` tries to identify at the given rank
/// in the order of priority.
pub fn classifier_kind(rank: usize) -> (kind: LexemeKind)
    requires
        rank < IDENTIFIERS,
    ensures
        kind == kind_by_priority(rank as int),
{
    if rank == 0 {
        LexemeKind::Character
    } else if rank == 1 {
        LexemeKind::Comment
    } else if rank == 2 {
        LexemeKind::String
    } else if rank == 3 {
        LexemeKind::Identifier
    } else if rank == 4 {
        LexemeKind::Number
    } else if rank == 5 {
        LexemeKind::Punctuation
    } else {
        LexemeKind::Whitespace
    }
}

/// Calls the function that identifies lexemes of the given kind.
pub fn identify_kind(kind: LexemeKind, raw: &str, pos: usize) -> (end: usize)
    ensures
        end == kind_end(kind, raw.spec_bytes(), pos as int),
        end == pos || pos < end <= raw.spec_bytes().len(),
{
    match kind {
        LexemeKind::Character => identify_character(raw, pos),
        LexemeKind::Comment => identify_comment(raw, pos),
        LexemeKind::Identifier => identify_identifier(raw, pos),
        LexemeKind::Number => identify_number(raw, pos),
        LexemeKind::Punctuation => identify_punctuation(raw, pos),
        LexemeKind::String => identify_string(raw, pos),
        LexemeKind::Whitespace => identify_whitespace(raw, pos),
        LexemeKind::Xtraneous => pos,
    }
}

/// Copies the text from byte position `from` up to `to` out of `raw`.
pub fn snippet(raw: &str, from: usize, to: usize) -> (text: String)
    requires
        from <= to <= raw.spec_bytes().len(),
        on_boundary(raw.spec_bytes(), from as int),
        on_boundary(raw.spec_bytes(), to as int),
    ensures
        encode_utf8(text@) == raw.spec_bytes().subrange(from as int, to as int),
{
    let ghost s = raw.spec_bytes();
    proof {
        encode_utf8_valid_utf8(raw@);
        lemma_boundary_is_char_boundary(s, to as int);
    }
    let (head, _) = raw.split_at(to);
    proof {
        encode_utf8_valid_utf8(head@);
        lemma_boundary_is_char_boundary(head.spec_bytes(), from as int);
    }
    let (_, tail) = head.split_at(from);
    tail.to_owned()
}

/// Tries to identify a lexeme of the given kind at `pos`. If there is one,
/// `identify()` records what was not identified before `pos` as an
/// `Xtraneous` lexeme, then records the lexeme, and returns the position at
/// which it ends. If there is none, it records nothing and returns `pos`.
pub fn identify(
    kind: LexemeKind,
    raw: &str,
    pos: usize,
    xtra_pos: usize,
    result: &mut LexemizeResult,
) -> (next_pos: usize)
    requires
        xtra_pos <= pos <= raw.spec_bytes().len(),
        on_boundary(raw.spec_bytes(), xtra_pos as int),
        on_boundary(raw.spec_bytes(), pos as int),
    ensures
        next_pos == kind_end(kind, raw.spec_bytes(), pos as int),
        next_pos == pos || pos < next_pos <= raw.spec_bytes().len(),
        final(result).end_pos == old(result).end_pos,
        next_pos == pos ==> final(result).lexemes@ == old(result).lexemes@,
        next_pos != pos ==> views(final(result).lexemes@) == views(old(result).lexemes@) + pending(
            raw.spec_bytes(),
            xtra_pos as int,
            pos as int,
        ) + seq![
            LexemeView {
                kind: kind,
                pos: pos as int,
                text: raw.spec_bytes().subrange(pos as int, next_pos as int),
            },
        ],
{
    let ghost s = raw.spec_bytes();
    // If there is no Lexeme of this kind at `pos`, just return `pos`.
    let next_pos = identify_kind(kind, raw, pos);
    if next_pos == pos {
        return pos;
    }
    proof {
        encode_utf8_valid_utf8(raw@);
        lemma_kind_end_on_boundary(kind, s, pos as int);
    }
    // If any ‘Xtraneous’ characters precede this Lexeme, record them before
    // recording this Lexeme.
    if xtra_pos != pos {
        let text = snippet(raw, xtra_pos, pos);
        result.lexemes.push(Lexeme { kind: LexemeKind::Xtraneous, pos: xtra_pos, snippet: text });
    }
    result.lexemes.push(Lexeme { kind, pos, snippet: snippet(raw, pos, next_pos) });
    // Tell `lexemize()` the position of the end of the Lexeme.
    next_pos
}

/// Transforms a Rust 2018 program into a vector of `Lexemes`.
///
/// The primary purpose of `lexemize()` is to quickly divide Rust code into
/// three basic sections: comments, strings, and everything else.
///
/// The ‘everything else’ section is then divided into literals, punctuation,
/// whitespace and identifiers. Anything left over is marked as ‘xtraneous’.
///
/// Any input string can be lexemized, so this function never returns any kind
/// of error. Checking `raw` for semantic correctness should be done later on,
/// during tokenization and parsing.
///
/// ### Arguments
/// * `raw` The Rust code, assumed to conform to the 2018 edition
///
/// ### Returns
/// `lexemize()` returns a [`LexemizeResult`] object. Its lexemes are those
/// of [`lexemes_of`]. The text of each is the text of `raw` from its
/// position on. They part the input, and their texts, one after the other,
/// are `raw`.
pub fn lexemize(raw: &str) -> (result: LexemizeResult)
    ensures
        result.end_pos == raw.spec_bytes().len(),
        views(result.lexemes@) == lexemes_of(raw.spec_bytes()),
        forall|i: int|
            0 <= i < result.lexemes@.len() ==> (#[trigger] result.lexemes@[i])@.is_slice_of(
                raw.spec_bytes(),
            ),
        result.is_partition(),
        texts(result.lexemes@) == raw@,
{
    // Initialise `len`, and some mutable variables.
    let len = raw.as_bytes().len();
    let mut pos: usize = 0;
    let mut xtra_pos: usize = 0;
    let mut result = LexemizeResult { end_pos: 0, lexemes: Vec::new() };
    let ghost s = raw.spec_bytes();

    // Loop until we reach the last character of the input string.
    while pos < len
        invariant
            s == raw.spec_bytes(),
            len == s.len(),
            xtra_pos <= pos <= len,
            on_boundary(s, xtra_pos as int),
            views(result.lexemes@) + lexemes_from(s, pos as int, xtra_pos as int) == lexemes_of(s),
        decreases len - pos,
    {
        let ghost before = views(result.lexemes@);
        let mut next_pos: usize = pos;
        proof {
            encode_utf8_valid_utf8(raw@);
            lemma_boundary_is_char_boundary(s, pos as int);
        }
        // Only try to identify a Lexeme if this is the start of a character.
        if raw.is_char_boundary(pos) {
            // Step through the kinds in their order of priority.
            let mut rank: usize = 0;
            while rank < IDENTIFIERS && next_pos == pos
                invariant
                    s == raw.spec_bytes(),
                    len == s.len(),
                    xtra_pos <= pos < len,
                    on_boundary(s, xtra_pos as int),
                    on_boundary(s, pos as int),
                    rank <= IDENTIFIERS,
                    next_pos == pos ==> views(result.lexemes@) == before && first_match_from(
                        s,
                        pos as int,
                        rank as int,
                    ) == first_match(s, pos as int),
                    next_pos != pos ==> pos < next_pos <= len && exists|kind: LexemeKind|
                        first_match(s, pos as int) == Some((kind, next_pos as int)) && views(
                            result.lexemes@,
                        ) == before + pending(s, xtra_pos as int, pos as int) + seq![
                            LexemeView {
                                kind: kind,
                                pos: pos as int,
                                text: s.subrange(pos as int, next_pos as int),
                            },
                        ],
                decreases IDENTIFIERS - rank,
            {
                // Possibly add one or two Lexemes to `result`. If a Lexeme
                // has been identified at this position, `identify()`
                // returns the position of the end of that Lexeme.
                next_pos = identify(classifier_kind(rank), raw, pos, xtra_pos, &mut result);
                rank += 1;
            }
            // Anything else is an unidentifiable character, which will be
            // picked up as `Xtraneous` later on.
        }
        if next_pos != pos {
            proof {
                let kind = choose|kind: LexemeKind|
                    first_match(s, pos as int) == Some((kind, next_pos as int)) && views(
                        result.lexemes@,
                    ) == before + pending(s, xtra_pos as int, pos as int) + seq![
                        LexemeView {
                            kind: kind,
                            pos: pos as int,
                            text: s.subrange(pos as int, next_pos as int),
                        },
                    ];
                lemma_first_match_from(s, pos as int, 0);
                lemma_kind_end_on_boundary(kind, s, pos as int);
            }
            pos = next_pos;
            xtra_pos = pos;
        } else {
            // Step forward one byte.
            pos += 1;
        }
    }

    // If there are unidentifiable characters at the end of `raw`, add a final
    // `Xtraneous` Lexeme before returning `result`.
    if xtra_pos != pos {
        let text = snippet(raw, xtra_pos, pos);
        result.lexemes.push(Lexeme { kind: LexemeKind::Xtraneous, pos: xtra_pos, snippet: text });
    }
    result.end_pos = pos;
    proof {
        lemma_lexemes_from_cover(s, 0, 0);
        lemma_lexemes_from_contiguous(s, 0, 0);
        assert forall|i: int| 0 <= i < result.lexemes@.len() implies (#[trigger] result.lexemes@[i])@
            .is_slice_of(s) by {
            lemma_lexemes_from_are_slices(s, 0, 0, i);
        }
        lemma_texts_encode(result.lexemes@);
        assert(s.subrange(0, s.len() as int) =~= s);
        encode_utf8_decode_utf8(texts(result.lexemes@));
        encode_utf8_decode_utf8(raw@);
    }
    result
}

} // verus!
