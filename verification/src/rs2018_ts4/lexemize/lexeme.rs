//! The kinds of lexeme, and the lexeme itself.

use vstd::prelude::*;
use vstd::utf8::*;
use crate::rs2018_ts4::lexemize::render::{
    append_decimal_right, append_marked, append_spaces, append_text_left, decimal,
    mark_line_feeds, pad_left, pad_right, spaces,
};
use crate::rs2018_ts4::lexemize::text::lemma_encode_utf8_concat;

verus! {

/// The category of a lexeme.
#[derive(Clone, Copy, PartialEq, Eq, Structural)]
pub enum LexemeKind {
    /// A char literal, like `'A'`.
    Character,
    /// An inline or multiline comment.
    Comment,
    /// An identifier, like `foo_bar`.
    Identifier,
    /// A number, like `12.34`.
    Number,
    /// An operator, a separator or a bracket.
    Punctuation,
    /// A string literal, regular or raw.
    String,
    /// A run of whitespace.
    Whitespace,
    /// Anything that is none of the above.
    Xtraneous,
}

impl LexemeKind {
    /// The name of the kind.
    pub open spec fn name(self) -> Seq<char> {
        match self {
            LexemeKind::Character => "Character"@,
            LexemeKind::Comment => "Comment"@,
            LexemeKind::Identifier => "Identifier"@,
            LexemeKind::Number => "Number"@,
            LexemeKind::Punctuation => "Punctuation"@,
            LexemeKind::String => "String"@,
            LexemeKind::Whitespace => "Whitespace"@,
            LexemeKind::Xtraneous => "Xtraneous"@,
        }
    }

    /// Returns the name of the kind.
    pub fn to_string(&self) -> (name: &'static str)
        ensures
            name@ == self.name(),
    {
        match self {
            Self::Character => "Character",
            Self::Comment => "Comment",
            Self::Identifier => "Identifier",
            Self::Number => "Number",
            Self::Punctuation => "Punctuation",
            Self::String => "String",
            Self::Whitespace => "Whitespace",
            Self::Xtraneous => "Xtraneous",
        }
    }
}

/// A classified span of the input.
pub struct Lexeme {
    /// Category of the Lexeme.
    pub kind: LexemeKind,
    /// The byte position at which the Lexeme starts, relative to the start
    /// of the input. Zero indexed.
    pub pos: usize,
    /// The text of the Lexeme, a copy of the input from `pos` on.
    pub snippet: String,
}

/// What a lexeme is, mathematically: a kind, a byte offset into the input,
/// and the bytes of its text.
pub struct LexemeView {
    /// Category of the lexeme.
    pub kind: LexemeKind,
    /// The offset of its first byte in the input.
    pub pos: int,
    /// Its text, as UTF-8.
    pub text: Seq<u8>,
}

impl LexemeView {
    /// The text of the lexeme is the text of the input `s` from the
    /// position of the lexeme on, byte for byte.
    pub open spec fn is_slice_of(self, s: Seq<u8>) -> bool {
        &&& 0 <= self.pos
        &&& self.pos + self.text.len() <= s.len()
        &&& self.text == s.subrange(self.pos, self.pos + self.text.len())
    }
}

impl View for Lexeme {
    type V = LexemeView;

    open spec fn view(&self) -> LexemeView {
        LexemeView { kind: self.kind, pos: self.pos as int, text: encode_utf8(self.snippet@) }
    }
}

/// The views of a sequence of lexemes, one by one.
pub open spec fn views(lexemes: Seq<Lexeme>) -> Seq<LexemeView> {
    lexemes.map_values(|l: Lexeme| l@)
}

/// The lexemes lie in a row from offset `from` to offset `to`: the first
/// starts at `from`, each of the others starts where the one before it ends,
/// the last ends at `to`, and none is empty. So there are no gaps between
/// them, and no two of them overlap.
pub open spec fn contiguous(lexemes: Seq<LexemeView>, from: int, to: int) -> bool
    decreases lexemes.len(),
{
    if lexemes.len() == 0 {
        from == to
    } else {
        &&& lexemes[0].pos == from
        &&& lexemes[0].text.len() > 0
        &&& contiguous(lexemes.drop_first(), from + lexemes[0].text.len(), to)
    }
}

/// Lexemes in a row, followed by lexemes in a row that starts where the
/// first row ends, are lexemes in a row.
pub proof fn lemma_contiguous_concat(
    a: Seq<LexemeView>,
    b: Seq<LexemeView>,
    from: int,
    mid: int,
    to: int,
)
    requires
        contiguous(a, from, mid),
        contiguous(b, mid, to),
    ensures
        contiguous(a + b, from, to),
    decreases a.len(),
{
    if a.len() > 0 {
        lemma_contiguous_concat(a.drop_first(), b, from + a[0].text.len(), mid, to);
        assert((a + b).drop_first() =~= a.drop_first() + b);
    }
}

/// The texts of a sequence of lexemes, one after the other, as characters.
pub open spec fn texts(lexemes: Seq<Lexeme>) -> Seq<char>
    decreases lexemes.len(),
{
    if lexemes.len() == 0 {
        Seq::empty()
    } else {
        texts(lexemes.drop_last()) + lexemes.last().snippet@
    }
}

/// The texts of a sequence of lexemes, one after the other, as bytes.
pub open spec fn text_bytes(lexemes: Seq<LexemeView>) -> Seq<u8>
    decreases lexemes.len(),
{
    if lexemes.len() == 0 {
        Seq::empty()
    } else {
        text_bytes(lexemes.drop_last()) + lexemes.last().text
    }
}

/// The texts of two sequences of lexemes, one after the other, are the
/// texts of the first followed by the texts of the second.
pub proof fn lemma_text_bytes_concat(a: Seq<LexemeView>, b: Seq<LexemeView>)
    ensures
        text_bytes(a + b) == text_bytes(a) + text_bytes(b),
    decreases b.len(),
{
    if b.len() > 0 {
        lemma_text_bytes_concat(a, b.drop_last());
        assert((a + b).drop_last() =~= a + b.drop_last());
    }
}

/// The characters of the texts of some lexemes encode to their bytes.
pub proof fn lemma_texts_encode(lexemes: Seq<Lexeme>)
    ensures
        encode_utf8(texts(lexemes)) == text_bytes(views(lexemes)),
    decreases lexemes.len(),
{
    if lexemes.len() > 0 {
        lemma_texts_encode(lexemes.drop_last());
        lemma_encode_utf8_concat(texts(lexemes.drop_last()), lexemes.last().snippet@);
        assert(views(lexemes).drop_last() =~= views(lexemes.drop_last()));
    }
}

/// How many characters wide the column of the kind is in a rendered lexeme.
pub const KIND_WIDTH: usize = 16;

/// How many characters wide the column of the position is in a rendered
/// lexeme.
pub const POS_WIDTH: usize = 4;

/// Some lexemes, each on a line of its own that ends in a line feed.
pub open spec fn rendered_lines(lexemes: Seq<Lexeme>) -> Seq<char>
    decreases lexemes.len(),
{
    if lexemes.len() == 0 {
        Seq::empty()
    } else {
        rendered_lines(lexemes.drop_last()) + lexemes.last().rendered().push('\n')
    }
}

/// Some lexemes, each on a line of its own, with a line feed between one
/// line and the next.
pub open spec fn rendered_list(lexemes: Seq<Lexeme>) -> Seq<char> {
    if lexemes.len() == 0 {
        Seq::empty()
    } else {
        rendered_lines(lexemes.drop_last()) + lexemes.last().rendered()
    }
}

impl Lexeme {
    /// The lexeme on one line: the name of its kind, with spaces after it up
    /// to 16 characters; a space; its position in decimal, with spaces
    /// before it up to 4 characters; two spaces; and its text, with `<NL>`
    /// in place of each line feed.
    pub open spec fn rendered(self) -> Seq<char> {
        pad_right(self.kind.name(), KIND_WIDTH as nat) + spaces(1) + pad_left(
            decimal(self.pos as nat),
            POS_WIDTH as nat,
        ) + spaces(2) + mark_line_feeds(self.snippet@)
    }

    /// Appends the lexeme to `out`, on one line.
    pub fn render_into(&self, out: &mut String)
        ensures
            final(out)@ == old(out)@ + self.rendered(),
    {
        append_text_left(out, self.kind.to_string(), KIND_WIDTH);
        append_spaces(out, 1);
        append_decimal_right(out, self.pos, POS_WIDTH);
        append_spaces(out, 2);
        append_marked(out, self.snippet.as_str());
    }

    /// Renders the lexeme on one line, for tests and tooling.
    pub fn to_string(&self) -> (out: String)
        ensures
            out@ == self.rendered(),
    {
        let mut out = String::new();
        self.render_into(&mut out);
        out
    }
}

/// A list of lexemes, with the column, the line number and the position at
/// which the input ends.
pub struct Lexemes {
    /// The column at which the input ends.
    pub end_column: usize,
    /// The line number at which the input ends.
    pub end_line_number: usize,
    /// The position at which the input ends.
    pub end_pos: usize,
    /// The lexemes.
    pub lexemes: Vec<Lexeme>,
}

impl Lexemes {
    /// Renders the lexemes, one on each line, for tests and tooling.
    pub fn to_string(&self) -> (out: String)
        ensures
            out@ == rendered_list(self.lexemes@),
    {
        let mut out = String::new();
        let n = self.lexemes.len();
        let ghost all = self.lexemes@;
        if n == 0 {
            return out;
        }
        let mut i: usize = 0;
        while i < n - 1
            invariant
                0 < n == self.lexemes.len(),
                all == self.lexemes@,
                i <= n - 1,
                out@ == rendered_lines(all.take(i as int)),
            decreases n - i,
        {
            self.lexemes[i].render_into(&mut out);
            proof {
                reveal_strlit("\n");
                assert(all.take(i + 1).drop_last() =~= all.take(i as int));
            }
            out.append("\n");
            i += 1;
        }
        self.lexemes[n - 1].render_into(&mut out);
        out
    }
}

} // verus!
