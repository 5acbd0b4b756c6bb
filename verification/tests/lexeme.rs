use opinionated_rust_to_typescript::rs2018_ts4::lexemize::lexeme::{Lexeme, LexemeKind, Lexemes};

#[test]
fn lexeme_kind_to_string_as_expected() {
    assert_eq!(LexemeKind::Character.to_string(),   "Character");
    assert_eq!(LexemeKind::Comment.to_string(),     "Comment");
    assert_eq!(LexemeKind::Identifier.to_string(),  "Identifier");
    assert_eq!(LexemeKind::Number.to_string(),      "Number");
    assert_eq!(LexemeKind::Punctuation.to_string(), "Punctuation");
    assert_eq!(LexemeKind::String.to_string(),      "String");
    assert_eq!(LexemeKind::Whitespace.to_string(),  "Whitespace");
    assert_eq!(LexemeKind::Xtraneous.to_string(),   "Xtraneous");
}

#[test]
fn lexeme_to_string_as_expected() {
    let lexeme = Lexeme {
        kind: LexemeKind::Character,
        pos: 123,
        snippet: "yup".into(),
    };
    assert_eq!(lexeme.to_string(), "Character         123  yup");
}

#[test]
fn lexemes_to_string_as_expected() {
    let lexemes = Lexemes {
        end_column: 5,
        end_line_number: 20,
        end_pos: 123,
        lexemes: vec![
            Lexeme {
                kind: LexemeKind::Comment,
                pos: 0,
                snippet: "/* This is a comment */".into(),
            },
            Lexeme {
                kind: LexemeKind::Number,
                pos: 23,
                snippet: "44.4".into(),
            },
        ],
    };
    assert_eq!(lexemes.to_string(),
        "Comment             0  /* This is a comment */\n\
         Number             23  44.4"
    );
}

#[test]
fn lexemes_to_string_without_lexemes() {
    let lexemes = Lexemes { end_column: 0, end_line_number: 0, end_pos: 0, lexemes: vec![] };
    assert_eq!(lexemes.to_string(), "");
}

#[test]
fn lexemes_to_string_with_one_lexeme() {
    let lexemes = Lexemes {
        end_column: 0,
        end_line_number: 1,
        end_pos: 1,
        lexemes: vec![Lexeme { kind: LexemeKind::Whitespace, pos: 0, snippet: "\n".into() }],
    };
    assert_eq!(lexemes.to_string(), "Whitespace          0  <NL>");
}
