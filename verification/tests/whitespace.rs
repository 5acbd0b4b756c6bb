use opinionated_rust_to_typescript::rs2018_ts4::lexemize::identify::whitespace::identify_whitespace as identify;

#[test]
fn identify_whitespace_correct() {
    // Typical.
    let raw = "~abc \t\nxyz~";
    assert_eq!(identify(raw, 3), 3); // c
    assert_eq!(identify(raw, 4), 7); // <SP><TB><NL> advance three spaces
    assert_eq!(identify(raw, 5), 7); // <TB><NL> advance two spaces
    assert_eq!(identify(raw, 6), 7); // <NL> advance one space
    assert_eq!(identify(raw, 7), 7); // xyz~

    // Exhaustive.
    //doc.rust-lang.org/reference/whitespace.html
    assert_eq!(identify("\u{0000}", 0), 0); // null is not whitespace
    assert_eq!(identify("\u{0009}", 0), 1); // horizontal tab
    assert_eq!(identify("\u{000A}", 0), 1); // line feed
    assert_eq!(identify("\u{000B}", 0), 1); // vertical tab
    assert_eq!(identify("\u{000C}", 0), 1); // form feed
    assert_eq!(identify("\u{000D}", 0), 1); // carriage return
    assert_eq!(identify("\u{0020}", 0), 1); // space
    assert_eq!(identify("\u{0085}", 0), 2); // next line
    assert_eq!(identify("\u{00A0}", 0), 0); // NBSP is not whitespace
    assert_eq!(identify("\u{200E}", 0), 3); // left-to-right
    assert_eq!(identify("\u{200F}", 0), 3); // right-to-left
    assert_eq!(identify("\u{2028}", 0), 3); // line separator
    assert_eq!(identify("\u{2029}", 0), 3); // just paragraph separator
    let raw = "\u{0000}\u{0009}\u{000A}\u{000B}\u{000C}\u{000D}\u{0020}\u{0085}";
    assert_eq!(identify(&raw, 0), 0); // null is not whitespace
    assert_eq!(identify(&raw, 1), 9); // "next line" is two bytes
    let raw = "\u{00A0}\u{200E}\u{200F}\u{2028}\u{2029}";
    assert_eq!(identify(&raw, 0), 0); // NBSP is not whitespace
    assert_eq!(identify(&raw, 2), 14); // 2 + (4 * 3)

    // Ends with newline.
    let raw = "xyz~ \n";
    assert_eq!(identify(raw, 2), 2); // z~ <NL>
    assert_eq!(identify(raw, 3), 3); // ~ <NL>
    assert_eq!(identify(raw, 4), 6); //  <NL> advance to eoi
    assert_eq!(identify(raw, 5), 6); // <NL> advance to eoi
}

#[test]
fn identify_whitespace_will_not_panic() {
    // Near the end of `raw` input code.
    assert_eq!(identify("", 0), 0); // empty string
    assert_eq!(identify("~", 0), 0); // ~
    assert_eq!(identify("\n", 0), 1); // <NL>
    // Invalid `pos`.
    assert_eq!(identify("abc", 2), 2); // 2 is before "c", so in range
    assert_eq!(identify("abc", 3), 3); // 3 is after "c", so incorrect
    assert_eq!(identify("abc", 4), 4); // 4 is out of range
    assert_eq!(identify("abc", 100), 100); // 100 is way out of range
    let raw = "\u{00A0}\u{200E}\u{200F}\u{2028}\u{2029}";
    identify(&raw, 1); // `pos` is halfway through the two NBSP bytes
    // Non-ascii.
    assert_eq!(identify("€", 1), 1); // part way through the three eurobytes
    assert_eq!(identify(" €", 0), 1); // non-ascii after space
    assert_eq!(identify("\u{2029}€", 0), 3); // non-ascii after U+2029
}
