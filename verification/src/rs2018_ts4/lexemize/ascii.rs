//! The ASCII bytes that the classifiers look for, by name.

use vstd::prelude::*;

verus! {

/// The byte of horizontal tabulation.
pub const TAB: u8 = 0x09;

/// The byte of line feed, `\n`.
pub const LINE_FEED: u8 = 0x0A;

/// The byte of vertical tabulation.
pub const VERTICAL_TAB: u8 = 0x0B;

/// The byte of form feed.
pub const FORM_FEED: u8 = 0x0C;

/// The byte of carriage return, `\r`.
pub const CARRIAGE_RETURN: u8 = 0x0D;

/// The byte of space.
pub const SPACE: u8 = 0x20;

/// The byte of `!`.
pub const BANG: u8 = 0x21;

/// The byte of `"`.
pub const DOUBLE_QUOTE: u8 = 0x22;

/// The byte of `#`.
pub const HASH: u8 = 0x23;

/// The byte of `$`.
pub const DOLLAR: u8 = 0x24;

/// The byte of `%`.
pub const PERCENT: u8 = 0x25;

/// The byte of `&`.
pub const AMPERSAND: u8 = 0x26;

/// The byte of `'`.
pub const SINGLE_QUOTE: u8 = 0x27;

/// The byte of `(`.
pub const PAREN_OPEN: u8 = 0x28;

/// The byte of `)`.
pub const PAREN_CLOSE: u8 = 0x29;

/// The byte of `*`.
pub const ASTERISK: u8 = 0x2A;

/// The byte of `+`.
pub const PLUS: u8 = 0x2B;

/// The byte of `,`.
pub const COMMA: u8 = 0x2C;

/// The byte of `-`.
pub const MINUS: u8 = 0x2D;

/// The byte of `.`.
pub const DOT: u8 = 0x2E;

/// The byte of `/`.
pub const SLASH: u8 = 0x2F;

/// The byte of `0`.
pub const DIGIT_0: u8 = 0x30;

/// The byte of `1`.
pub const DIGIT_1: u8 = 0x31;

/// The byte of `7`.
pub const DIGIT_7: u8 = 0x37;

/// The byte of `9`.
pub const DIGIT_9: u8 = 0x39;

/// The byte of `:`.
pub const COLON: u8 = 0x3A;

/// The byte of `;`.
pub const SEMICOLON: u8 = 0x3B;

/// The byte of `<`.
pub const LESS: u8 = 0x3C;

/// The byte of `=`.
pub const EQUALS: u8 = 0x3D;

/// The byte of `>`.
pub const GREATER: u8 = 0x3E;

/// The byte of `?`.
pub const QUESTION: u8 = 0x3F;

/// The byte of `@`.
pub const AT: u8 = 0x40;

/// The byte of `A`.
pub const UPPER_A: u8 = 0x41;

/// The byte of `E`.
pub const UPPER_E: u8 = 0x45;

/// The byte of `F`.
pub const UPPER_F: u8 = 0x46;

/// The byte of `[`.
pub const BRACKET_OPEN: u8 = 0x5B;

/// The byte of `\`.
pub const BACKSLASH: u8 = 0x5C;

/// The byte of `]`.
pub const BRACKET_CLOSE: u8 = 0x5D;

/// The byte of `^`.
pub const CARET: u8 = 0x5E;

/// The byte of `_`.
pub const UNDERSCORE: u8 = 0x5F;

/// The byte of `a`.
pub const LOWER_A: u8 = 0x61;

/// The byte of `b`.
pub const LOWER_B: u8 = 0x62;

/// The byte of `e`.
pub const LOWER_E: u8 = 0x65;

/// The byte of `f`.
pub const LOWER_F: u8 = 0x66;

/// The byte of `n`.
pub const LOWER_N: u8 = 0x6E;

/// The byte of `o`.
pub const LOWER_O: u8 = 0x6F;

/// The byte of `r`.
pub const LOWER_R: u8 = 0x72;

/// The byte of `t`.
pub const LOWER_T: u8 = 0x74;

/// The byte of `u`.
pub const LOWER_U: u8 = 0x75;

/// The byte of `x`.
pub const LOWER_X: u8 = 0x78;

/// The byte of `{`.
pub const BRACE_OPEN: u8 = 0x7B;

/// The byte of `|`.
pub const PIPE: u8 = 0x7C;

/// The byte of `}`.
pub const BRACE_CLOSE: u8 = 0x7D;

/// The byte of `~`, which also stands for "no ASCII character here".
pub const TILDE: u8 = 0x7E;

} // verus!
