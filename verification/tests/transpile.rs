use opinionated_rust_to_typescript::rs2018_ts4::rs2018_ts4_gungho::{contains, rs2018_ts4_gungho};
use opinionated_rust_to_typescript::transpile::config::{Config, RsEdition, Strategy, TsMajor};
use opinionated_rust_to_typescript::transpile::error::TranspileErrorKind;
use opinionated_rust_to_typescript::transpile::transpile::{make_not_implemented_result, rs_to_ts};
use opinionated_rust_to_typescript::transpile::transpile_result::TranspileResult;

#[test]
fn config_to_string_default() {
    assert_eq!(Config::new().to_string(),
        "Latest Rust edition (2018), Latest TypeScript (4), Gungho");
}

#[test]
fn config_to_string_after_modifying() {
    assert_eq!(Config::new().rs_edition(RsEdition::Rs2015).to_string(),
        "Rust edition 2015, Latest TypeScript (4), Gungho");
    assert_eq!(Config::new().strategy(Strategy::Cautious).to_string(),
        "Latest Rust edition (2018), Latest TypeScript (4), Cautious");
    assert_eq!(Config::new().ts_major(TsMajor::Ts3).to_string(),
        "Latest Rust edition (2018), TypeScript 3, Gungho");
    assert_eq!(Config::new()
        .strategy(Strategy::Cautious)
        .rs_edition(RsEdition::Rs2015)
        .ts_major(TsMajor::Ts3)
        .rs_edition(RsEdition::Rs2018)
        .ts_major(TsMajor::Ts4)
        .to_string(),
        "Rust edition 2018, TypeScript 4, Cautious");
}

#[test]
fn config_builders_set_one_field_each() {
    let config = Config::new().strategy(Strategy::Cautious);
    assert!(config.rs_edition == RsEdition::Latest);
    assert!(config.strategy == Strategy::Cautious);
    assert!(config.ts_major == TsMajor::Latest);
    let config = config.ts_major(TsMajor::Ts4).strategy(Strategy::Gungho);
    assert!(config.rs_edition == RsEdition::Latest);
    assert!(config.strategy == Strategy::Gungho);
    assert!(config.ts_major == TsMajor::Ts4);
}

#[test]
fn rs_to_ts_default_config() {
    let result = rs_to_ts("const ROUGHLY_PI: f32 = 3.14;", Config::new());
    assert_eq!(result.main_lines.len(), 1);
    assert_eq!(result.main_lines[0], "const ROUGHLY_PI: Number = 3.14;");
    assert_eq!(result.errors.len(), 0);
    let result = rs_to_ts("const FOUR: u8 = 4;", Config::new());
    assert_eq!(result.main_lines.len(), 1);
    assert_eq!(result.main_lines[0], "const FOUR: Number = 4;");
    assert_eq!(result.errors.len(), 0);
}

#[test]
fn rs_to_ts_supported_config() {
    let config = Config::new()
        .rs_edition(RsEdition::Rs2018)
        .strategy(Strategy::Gungho)
        .ts_major(TsMajor::Ts4);
    let result = rs_to_ts("let x = FOUR;", config);
    assert_eq!(result.errors.len(), 0);
    assert_eq!(result.to_string(), "const FOUR: Number = 4;");
}

#[test]
fn rs_to_ts_placeholder_config() {
    let result = rs_to_ts("Nope", Config::new().rs_edition(RsEdition::Rs2015));
    assert_eq!(result.errors.len(), 1);
    assert_eq!(result.errors[0].message, "RsEdition::Rs2015 is not implemented yet");
    assert!(result.errors[0].kind == TranspileErrorKind::ConfigNotImplemented);
    assert_eq!(result.errors[0].column, 0);
    assert_eq!(result.errors[0].line_number, 0);
    assert_eq!(result.main_lines.len(), 0);
    assert_eq!(rs_to_ts("Nope",
        Config::new().strategy(Strategy::Cautious)).errors[0].message,
        "Strategy::Cautious is not implemented yet");
    assert_eq!(rs_to_ts("Nope",
        Config::new().ts_major(TsMajor::Ts3)).errors[0].message,
        "TsMajor::Ts3 is not implemented yet");
}

#[test]
fn rs_to_ts_reports_the_first_placeholder_only() {
    // The edition is looked at before the strategy, the strategy before the
    // major version.
    let config = Config::new()
        .ts_major(TsMajor::Ts3)
        .strategy(Strategy::Cautious)
        .rs_edition(RsEdition::Rs2015);
    let result = rs_to_ts("FOUR", config);
    assert_eq!(result.errors.len(), 1);
    assert_eq!(result.errors[0].message, "RsEdition::Rs2015 is not implemented yet");
    let config = Config::new().ts_major(TsMajor::Ts3).strategy(Strategy::Cautious);
    let result = rs_to_ts("FOUR", config);
    assert_eq!(result.errors.len(), 1);
    assert_eq!(result.errors[0].message, "Strategy::Cautious is not implemented yet");
}

#[test]
fn make_not_implemented_result_holds_one_error() {
    let result = make_not_implemented_result("Not yet");
    assert_eq!(result.errors.len(), 1);
    assert_eq!(result.errors[0].message, "Not yet");
    assert!(result.errors[0].kind == TranspileErrorKind::ConfigNotImplemented);
    assert_eq!(result.main_lines.len(), 0);
    assert_eq!(result.to_string(), "");
}

#[test]
fn gungho_looks_for_four() {
    assert_eq!(rs2018_ts4_gungho("").main_lines[0], "const ROUGHLY_PI: Number = 3.14;");
    assert_eq!(rs2018_ts4_gungho("FOU").main_lines[0], "const ROUGHLY_PI: Number = 3.14;");
    assert_eq!(rs2018_ts4_gungho("four").main_lines[0], "const ROUGHLY_PI: Number = 3.14;");
    assert_eq!(rs2018_ts4_gungho("FOUR").main_lines[0], "const FOUR: Number = 4;");
    assert_eq!(rs2018_ts4_gungho("€FOUR€").main_lines[0], "const FOUR: Number = 4;");
    assert_eq!(rs2018_ts4_gungho("FOFOUFOUR").main_lines[0], "const FOUR: Number = 4;");
}

#[test]
fn contains_finds_a_needle_anywhere() {
    assert!(contains("abc".as_bytes(), "".as_bytes()));
    assert!(contains("".as_bytes(), "".as_bytes()));
    assert!(!contains("".as_bytes(), "a".as_bytes()));
    assert!(contains("abc".as_bytes(), "abc".as_bytes()));
    assert!(!contains("abc".as_bytes(), "abcd".as_bytes()));
    assert!(contains("abc".as_bytes(), "a".as_bytes()));
    assert!(contains("abc".as_bytes(), "bc".as_bytes()));
    assert!(!contains("abc".as_bytes(), "ac".as_bytes()));
    assert!(contains("aab".as_bytes(), "ab".as_bytes()));
}

#[test]
fn transpile_error_kind_to_string_as_expected() {
    assert_eq!(TranspileErrorKind::ConfigNotImplemented.to_string(), "ConfigNotImplemented");
    assert_eq!(TranspileErrorKind::UnknownError.to_string(), "UnknownError");
}

#[test]
fn transpile_result_new_is_empty() {
    let result = TranspileResult::new();
    assert_eq!(result.errors.len(), 0);
    assert_eq!(result.main_lines.len(), 0);
    assert_eq!(result.polyfill_lines.len(), 0);
    assert_eq!(result.type_lines.len(), 0);
    assert_eq!(result.main_section_begins, "");
    assert_eq!(result.main_section_ends, "");
    assert_eq!(result.polyfill_section_begins, "");
    assert_eq!(result.polyfill_section_ends, "");
    assert_eq!(result.to_string(), "");
}

#[test]
fn transpile_result_pushes_in_order() {
    let result = TranspileResult::new()
        .push_main_line("a;")
        .push_config_not_implemented_error(3, 7, "first")
        .push_main_line("b;")
        .push_config_not_implemented_error(4, 8, "second");
    assert_eq!(result.main_lines, vec!["a;", "b;"]);
    assert_eq!(result.errors.len(), 2);
    assert_eq!(result.errors[0].column, 3);
    assert_eq!(result.errors[0].line_number, 7);
    assert_eq!(result.errors[0].message, "first");
    assert_eq!(result.errors[1].column, 4);
    assert_eq!(result.errors[1].line_number, 8);
    assert_eq!(result.errors[1].message, "second");
    assert!(result.errors[1].kind == TranspileErrorKind::ConfigNotImplemented);
}

#[test]
fn transpile_result_to_string_concatenates_the_sections() {
    let mut result = TranspileResult::new().push_main_line("main1;").push_main_line("main2;");
    result.main_section_begins = "[";
    result.main_section_ends = "]";
    result.type_lines.push("type1;");
    result.type_lines.push("type2;");
    result.polyfill_section_begins = "{";
    result.polyfill_lines.push("poly;");
    result.polyfill_section_ends = "}";
    assert_eq!(result.to_string(), "[main1;main2;]type1;type2;{poly;}");
}
