use opinionated_rust_to_typescript::rs2018_ts4::lexemize::identify::string::identify_string as identify;


#[test]
fn identify_string_typical() {
    let raw = "abc\"ok\"xyz";
    assert_eq!(identify(raw, 2), 2); // c"ok
    assert_eq!(identify(raw, 3), 7); // "ok" advance four places
    assert_eq!(identify(raw, 4), 4); // ok"x
}

#[test]
fn identify_string_basic_raw() {
    assert_eq!(identify("-r\"ok\"-", 1), 6);
    assert_eq!(identify("r#\"ok\"#", 0), 7);
    assert_eq!(identify("abcr###\"ok\"###xyz", 3), 14);
}

#[test]
fn identify_string_escaped_double_quote() {
    let raw = "a\"b\\\"c\"d";
    assert_eq!(identify(raw, 0), 0); // a"b\"c
    assert_eq!(identify(raw, 1), 7); // "b\"c" advance six places
    assert_eq!(identify(raw, 2), 2); // b\"c"d
    assert_eq!(identify(raw, 3), 3); // \"c"d
    assert_eq!(identify(raw, 4), 7); // "c"d no ‘lookbehind’ happens!
}

#[test]
fn identify_string_escapes() {
    // Valid escapes, regular string.
    let raw = r#"a"\0\\\\\"\\\n"z"#;
    assert_eq!(identify(raw, 0),  0);  // a"\0\\\\\"\\\n"
    assert_eq!(identify(raw, 1),  15); // "\0\\\\\"\\\n"z
    assert_eq!(identify(raw, 2),  2);  // \0\\\\\"\\\n"z
    assert_eq!(identify(raw, 9),  15); // "\\\n"z no ‘lookbehind’s!
    assert_eq!(identify(raw, 14), 14); // "z not a string, has no end
    // Invalid escapes, regular string.
    assert_eq!(identify("\\a\\b\\c", 0), 0); // \a\b\c
    // Valid escapes, raw string.
    assert_eq!(identify("r\"\\0\\n\\t\"", 0), 9); // r"\0\n\t"
    // Invalid escapes, raw string.
    assert_eq!(identify("r#\"\\X\\Y\\Z\"#", 0), 11); // r#"\X\Y\Z"#
}

#[test]
fn identify_string_invalid_raw() {
    assert_eq!(identify("r##X#\" X in leading hashes \"###", 0), 0);
    assert_eq!(identify("r###\" X in trailing hashes \"##X#", 0), 0);
    assert_eq!(identify("r###\" too few trailing hashes \"##", 0), 0);
    assert_eq!(identify("-r###\" no trailing hashes \"-", 1), 1);
}
