use opinionated_rust_to_typescript::rs2018_ts4::lexemize::lexemize::{lexemize, LexemizeResult};
use opinionated_rust_to_typescript::rs2018_ts4::lexemize::lexeme::{Lexeme, LexemeKind};

#[test]
fn lexemize_result_to_string_as_expected() {
    let result = LexemizeResult {
        end_pos: 123,
        lexemes: vec![
            Lexeme {
                kind: LexemeKind::Comment,
                pos: 0,
                snippet: "/* This is a comment */".into(),
            },
            Lexeme {
                kind: LexemeKind::Number,
                pos: 23,
                snippet: "44.4".into(),
            },
        ],
    };
    assert_eq!(result.to_string(),
        "Lexemes found: 2\n\
         Comment             0  /* This is a comment */\n\
         Number             23  44.4\n\
         EndOfInput        123  <EOI>"
    );
}

#[test]
fn lexemize_all_lexemes() {
    // Empty string.
    assert_eq!(lexemize("").to_string(),
        "Lexemes found: 0\n\
         EndOfInput          0  <EOI>");
}

#[test]
fn lexemize_characters() {
    // Three Characters.
    assert_eq!(lexemize("'Z''\\t''\\0'").to_string(),
        "Lexemes found: 3\n\
         Character           0  'Z'\n\
         Character           3  '\\t'\n\
         Character           7  '\\0'\n\
         EndOfInput         11  <EOI>"
    );
}

#[test]
fn lexemize_comments() {
    // Three Comments.
    assert_eq!(lexemize("/**A/*A'*/*///B\n//C").to_string(),
        "Lexemes found: 4\n\
         Comment             0  /**A/*A'*/*/\n\
         Comment            12  //B\n\
         Whitespace         15  <NL>\n\
         Comment            16  //C\n\
         EndOfInput         19  <EOI>"
    );
}

#[test]
fn lexemize_identifiers() {
    // Three Identifiers.
    assert_eq!(lexemize("abc;_D,__12").to_string(),
        "Lexemes found: 5\n\
         Identifier          0  abc\n\
         Punctuation         3  ;\n\
         Identifier          4  _D\n\
         Punctuation         6  ,\n\
         Identifier          7  __12\n\
         EndOfInput         11  <EOI>"
    );
}

#[test]
fn lexemize_numbers() {
    // Three Numbers.
    assert_eq!(lexemize("0b1001_0011 0x__01aB__ 1_2.3_4E+_5_").to_string(),
        "Lexemes found: 5\n\
         Number              0  0b1001_0011\n\
         Whitespace         11   \n\
         Number             12  0x__01aB__\n\
         Whitespace         22   \n\
         Number             23  1_2.3_4E+_5_\n\
         EndOfInput         35  <EOI>"
    );
}

#[test]
fn lexemize_punctuations() {
    // Three Punctuations.
    assert_eq!(lexemize(";*=>>=").to_string(),
        "Lexemes found: 3\n\
         Punctuation         0  ;\n\
         Punctuation         1  *=\n\
         Punctuation         3  >>=\n\
         EndOfInput          6  <EOI>"
    );
}

#[test]
fn lexemize_strings() {
    // Two Strings, and what looks like a raw String. A backslash escapes
    // nothing in a raw String, so the double quote after it closes the raw
    // String, and no hashes balance the leading ones: it is no raw String.
    assert_eq!(lexemize("\"\"\"ok\"r##\"\\\"\"##").to_string(),
        "Lexemes found: 8\n\
         String              0  \"\"\n\
         String              2  \"ok\"\n\
         Identifier          6  r\n\
         Punctuation         7  #\n\
         Punctuation         8  #\n\
         String              9  \"\\\"\"\n\
         Punctuation        13  #\n\
         Punctuation        14  #\n\
         EndOfInput         15  <EOI>"
  );
    // Three Strings.
    assert_eq!(lexemize("\"\"\"ok\"r##\"\\\"##").to_string(),
        "Lexemes found: 3\n\
         String              0  \"\"\n\
         String              2  \"ok\"\n\
         String              6  r##\"\\\"##\n\
         EndOfInput         14  <EOI>"
  );
}

#[test]
fn lexemize_whitespace() {
    // Three Whitespace.
    assert_eq!(lexemize("\t\ta \n\nb\r ").to_string(),
        "Lexemes found: 5\n\
         Whitespace          0  \t\t\n\
         Identifier          2  a\n\
         Whitespace          3   <NL><NL>\n\
         Identifier          6  b\n\
         Whitespace          7  \r \n\
         EndOfInput          9  <EOI>"
  );
}

#[test]
fn lexemize_xtraneous() {
    // Mixture.
    assert_eq!(lexemize("~¶ €").to_string(),
        "Lexemes found: 3\n\
         Xtraneous           0  ~¶\n\
         Whitespace          3   \n\
         Xtraneous           4  €\n\
         EndOfInput          7  <EOI>"
    );
    // Non-ascii.
    assert_eq!(lexemize("~`\\").to_string(),
        "Lexemes found: 1\n\
         Xtraneous           0  ~`\\\n\
         EndOfInput          3  <EOI>"
    );
    // Ascii.
    assert_eq!(lexemize("é¢€±").to_string(),
        "Lexemes found: 2\n\
         Identifier          0  é\n\
         Xtraneous           2  ¢€±\n\
         EndOfInput          9  <EOI>"
    );
}
