//! Building blocks for the debug rendering of lexemes.

use vstd::prelude::*;
use vstd::string::StringSliceAdditionalSpecFns;
use vstd::utf8::*;
use crate::rs2018_ts4::lexemize::ascii::LINE_FEED;
use crate::rs2018_ts4::lexemize::text::{
    lemma_after_ascii, lemma_boundary_is_char_boundary, on_boundary,
};

verus! {

/// `n` spaces.
pub open spec fn spaces(n: nat) -> Seq<char> {
    Seq::new(n, |i: int| ' ')
}

/// The text, with spaces after it where it is shorter than `width`.
pub open spec fn pad_right(text: Seq<char>, width: nat) -> Seq<char> {
    if text.len() < width {
        text + spaces((width - text.len()) as nat)
    } else {
        text
    }
}

/// The text, with spaces before it where it is shorter than `width`.
pub open spec fn pad_left(text: Seq<char>, width: nat) -> Seq<char> {
    if text.len() < width {
        spaces((width - text.len()) as nat) + text
    } else {
        text
    }
}

/// The decimal digit that stands for a number below ten.
pub open spec fn digit(d: nat) -> char {
    if d == 0 {
        '0'
    } else if d == 1 {
        '1'
    } else if d == 2 {
        '2'
    } else if d == 3 {
        '3'
    } else if d == 4 {
        '4'
    } else if d == 5 {
        '5'
    } else if d == 6 {
        '6'
    } else if d == 7 {
        '7'
    } else if d == 8 {
        '8'
    } else {
        '9'
    }
}

/// The decimal digits of a number, without leading zeros.
pub open spec fn decimal(n: nat) -> Seq<char>
    decreases n,
{
    if n < 10 {
        seq![digit(n)]
    } else {
        decimal(n / 10).push(digit(n % 10))
    }
}

/// What stands for a line feed in rendered text: `<NL>`.
pub open spec fn line_feed_mark() -> Seq<char> {
    seq!['<', 'N', 'L', '>']
}

/// The text, with `<NL>` in place of each line feed.
pub open spec fn mark_line_feeds(text: Seq<char>) -> Seq<char>
    decreases text.len(),
{
    if text.len() == 0 {
        Seq::empty()
    } else if text.last() == '\n' {
        mark_line_feeds(text.drop_last()) + line_feed_mark()
    } else {
        mark_line_feeds(text.drop_last()).push(text.last())
    }
}

/// A text without line feeds is rendered as it is.
pub proof fn lemma_mark_line_feeds_plain(text: Seq<char>)
    requires
        forall|i: int| 0 <= i < text.len() ==> text[i] != '\n',
    ensures
        mark_line_feeds(text) == text,
    decreases text.len(),
{
    if text.len() > 0 {
        lemma_mark_line_feeds_plain(text.drop_last());
    }
}

/// Two texts in a row are rendered one after the other.
pub proof fn lemma_mark_line_feeds_concat(a: Seq<char>, b: Seq<char>)
    ensures
        mark_line_feeds(a + b) == mark_line_feeds(a) + mark_line_feeds(b),
    decreases b.len(),
{
    if b.len() > 0 {
        lemma_mark_line_feeds_concat(a, b.drop_last());
        assert((a + b).drop_last() =~= a + b.drop_last());
    }
}

/// Well-formed UTF-8 without a line feed byte encodes a text without a line
/// feed.
pub proof fn lemma_decode_without_line_feed(bytes: Seq<u8>)
    requires
        valid_utf8(bytes),
        forall|k: int| 0 <= k < bytes.len() ==> bytes[k] != LINE_FEED,
    ensures
        forall|j: int| 0 <= j < decode_utf8(bytes).len() ==> decode_utf8(bytes)[j] != '\n',
    decreases bytes.len(),
{
    if bytes.len() > 0 {
        let first = decode_first_scalar(bytes) as char;
        let rest = pop_first_scalar(bytes);
        assert(first != '\n') by {
            decode_utf8_first_scalar(bytes);
            if first == '\n' {
                assert(leading_byte_width_1(0x0A) == 0x0A) by (bit_vector);
                assert(encode_scalar(0x0A)[0] == 0x0A);
            }
        }
        lemma_decode_without_line_feed(rest);
        assert(decode_utf8(bytes) =~= seq![first] + decode_utf8(rest));
    }
}

/// The one byte of a line feed encodes a line feed.
pub proof fn lemma_decode_line_feed()
    ensures
        valid_utf8(seq![LINE_FEED]),
        decode_utf8(seq![LINE_FEED]) == seq!['\n'],
{
    reveal_with_fuel(encode_utf8, 2);
    assert(leading_byte_width_1(0x0A) == 0x0A) by (bit_vector);
    encode_utf8_valid_utf8(seq!['\n']);
    encode_utf8_decode_utf8(seq!['\n']);
}

/// A line that ends in a line feed: in well-formed UTF-8, the text up to
/// and with a line feed byte is the text before that byte, followed by a
/// line feed.
pub proof fn lemma_decode_line(bytes: Seq<u8>, start: int, i: int)
    requires
        valid_utf8(bytes),
        0 <= start <= i < bytes.len(),
        on_boundary(bytes, start),
        bytes[i] == LINE_FEED,
    ensures
        decode_utf8(bytes.subrange(0, i + 1)) == decode_utf8(bytes.subrange(0, start))
            + decode_utf8(bytes.subrange(start, i)).push('\n'),
        valid_utf8(bytes.subrange(start, i)),
{
    lemma_after_ascii(bytes, i);
    lemma_boundary_is_char_boundary(bytes, i + 1);
    valid_utf8_split(bytes, i + 1);
    let head = bytes.subrange(0, i + 1);
    // The head is what stands before the line feed, and the line feed.
    lemma_boundary_is_char_boundary(head, i);
    valid_utf8_split(head, i);
    decode_utf8_split(head, i);
    assert(head.subrange(i, i + 1) =~= seq![LINE_FEED]);
    assert(head.subrange(0, i) =~= bytes.subrange(0, i));
    lemma_decode_line_feed();
    // What stands before the line feed is what was done, and the line.
    let body = bytes.subrange(0, i);
    lemma_boundary_is_char_boundary(body, start);
    valid_utf8_split(body, start);
    decode_utf8_split(body, start);
    assert(body.subrange(0, start) =~= bytes.subrange(0, start));
    assert(body.subrange(start, i) =~= bytes.subrange(start, i));
}

/// Appends `n` spaces to `out`.
pub fn append_spaces(out: &mut String, n: usize)
    ensures
        final(out)@ == old(out)@ + spaces(n as nat),
{
    let mut i: usize = 0;
    while i < n
        invariant
            i <= n,
            out@ == old(out)@ + spaces(i as nat),
        decreases n - i,
    {
        proof {
            reveal_strlit(" ");
        }
        out.append(" ");
        i += 1;
    }
}

/// The text of a decimal digit.
pub fn digit_text(d: usize) -> (text: &'static str)
    requires
        d < 10,
    ensures
        text@ == seq![digit(d as nat)],
{
    proof {
        reveal_strlit("0");
        reveal_strlit("1");
        reveal_strlit("2");
        reveal_strlit("3");
        reveal_strlit("4");
        reveal_strlit("5");
        reveal_strlit("6");
        reveal_strlit("7");
        reveal_strlit("8");
        reveal_strlit("9");
    }
    let text = if d == 0 {
        "0"
    } else if d == 1 {
        "1"
    } else if d == 2 {
        "2"
    } else if d == 3 {
        "3"
    } else if d == 4 {
        "4"
    } else if d == 5 {
        "5"
    } else if d == 6 {
        "6"
    } else if d == 7 {
        "7"
    } else if d == 8 {
        "8"
    } else {
        "9"
    };
    text
}

/// How many decimal digits a number has: one, or no more than the number
/// itself, so that counting them cannot overflow.
pub fn decimal_len(n: usize) -> (digits: usize)
    ensures
        digits == decimal(n as nat).len(),
        digits == 1 || digits <= n,
    decreases n,
{
    if n < 10 {
        1
    } else {
        1 + decimal_len(n / 10)
    }
}

/// Appends the decimal digits of `n` to `out`.
pub fn append_decimal(out: &mut String, n: usize)
    ensures
        final(out)@ == old(out)@ + decimal(n as nat),
    decreases n,
{
    if n >= 10 {
        append_decimal(out, n / 10);
    }
    out.append(digit_text(n % 10));
}

/// Appends the decimal digits of `n` to `out`, after spaces where there are
/// fewer than `width` of them.
pub fn append_decimal_right(out: &mut String, n: usize, width: usize)
    ensures
        final(out)@ == old(out)@ + pad_left(decimal(n as nat), width as nat),
{
    let digits = decimal_len(n);
    if digits < width {
        append_spaces(out, width - digits);
    }
    append_decimal(out, n);
}

/// Appends a text to `out`, and after it spaces where it is shorter than
/// `width` characters.
pub fn append_text_left(out: &mut String, piece: &str, width: usize)
    ensures
        final(out)@ == old(out)@ + pad_right(piece@, width as nat),
{
    let len = piece.unicode_len();
    out.append(piece);
    if len < width {
        append_spaces(out, width - len);
    }
}

/// Appends a text to `out`, with `<NL>` in place of each line feed.
pub fn append_marked(out: &mut String, text: &str)
    ensures
        final(out)@ == old(out)@ + mark_line_feeds(text@),
{
    let bytes = text.as_bytes();
    let len = bytes.len();
    let ghost s = text.spec_bytes();
    let mut rest: &str = text;
    let mut start: usize = 0;
    let mut i: usize = 0;
    proof {
        encode_utf8_valid_utf8(text@);
        encode_utf8_decode_utf8(text@);
    }
    while i < len
        invariant
            s == text.spec_bytes(),
            bytes@ == s,
            len == s.len(),
            valid_utf8(s),
            start <= i <= len,
            on_boundary(s, start as int),
            rest.spec_bytes() == s.subrange(start as int, len as int),
            forall|k: int| start <= k < i ==> s[k] != LINE_FEED,
            out@ == old(out)@ + mark_line_feeds(decode_utf8(s.subrange(0, start as int))),
        decreases len - i,
    {
        if bytes[i] == LINE_FEED {
            let ghost tail = rest.spec_bytes();
            proof {
                encode_utf8_valid_utf8(rest@);
                lemma_after_ascii(tail, i - start);
                lemma_boundary_is_char_boundary(tail, i - start);
                lemma_boundary_is_char_boundary(tail, i - start + 1);
            }
            // Copy what stands before the line feed, then mark the line feed.
            let (plain, _) = rest.split_at(i - start);
            let (_, after) = rest.split_at(i - start + 1);
            out.append(plain);
            proof {
                reveal_strlit("<NL>");
            }
            out.append("<NL>");
            proof {
                let done = decode_utf8(s.subrange(0, start as int));
                let line = s.subrange(start as int, i as int);
                assert(plain.spec_bytes() =~= line);
                encode_utf8_decode_utf8(plain@);
                lemma_decode_line(s, start as int, i as int);
                lemma_decode_without_line_feed(line);
                lemma_mark_line_feeds_plain(plain@);
                lemma_mark_line_feeds_concat(done, plain@.push('\n'));
                assert(plain@.push('\n').drop_last() =~= plain@);
            }
            rest = after;
            start = i + 1;
        }
        i += 1;
    }
    // Copy what stands after the last line feed.
    out.append(rest);
    proof {
        let done = decode_utf8(s.subrange(0, start as int));
        let line = s.subrange(start as int, len as int);
        encode_utf8_decode_utf8(rest@);
        lemma_boundary_is_char_boundary(s, start as int);
        valid_utf8_split(s, start as int);
        decode_utf8_split(s, start as int);
        lemma_decode_without_line_feed(line);
        lemma_mark_line_feeds_plain(rest@);
        lemma_mark_line_feeds_concat(done, rest@);
    }
}

} // verus!
