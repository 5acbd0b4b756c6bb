//! Contains the library's main function, `rs_to_ts()`.

use vstd::prelude::*;
use vstd::string::StringSliceAdditionalSpecFns;
use crate::rs2018_ts4::rs2018_ts4_gungho::{gungho_line, rs2018_ts4_gungho};
use crate::transpile::config::{Config, RsEdition, Strategy, TsMajor};
use crate::transpile::error::{TranspileError, TranspileErrorKind};
use crate::transpile::transpile_result::TranspileResult;

verus! {

/// Why a configuration cannot be used yet, if it cannot: the edition of
/// Rust is looked at first, then the strategy, then the major version of
/// TypeScript.
pub open spec fn not_implemented(config: Config) -> Option<&'static str> {
    if config.rs_edition == RsEdition::Rs2015 {
        Some("RsEdition::Rs2015 is not implemented yet")
    } else if config.strategy == Strategy::Cautious {
        Some("Strategy::Cautious is not implemented yet")
    } else if config.ts_major == TsMajor::Ts3 {
        Some("TsMajor::Ts3 is not implemented yet")
    } else {
        None
    }
}

/// A result that holds one `ConfigNotImplemented` error with the given
/// message, at line and column zero, and nothing else.
pub open spec fn is_not_implemented_result(result: TranspileResult, message: &'static str) -> bool {
    &&& result.errors@ == seq![
        TranspileError {
            column: 0,
            kind: TranspileErrorKind::ConfigNotImplemented,
            line_number: 0,
            message: message,
        },
    ]
    &&& result.main_lines@.len() == 0
    &&& result.has_bare_sections()
}

/// A result that holds one main line, and nothing else.
pub open spec fn is_one_line_result(result: TranspileResult, line: &'static str) -> bool {
    &&& result.main_lines@ == seq![line]
    &&& result.errors@.len() == 0
    &&& result.has_bare_sections()
}

/// Transpiles Rust code to TypeScript.
///
/// This is the library's main function.
///
/// ### Arguments
/// * `raw` The Rust code
/// * `config` Defines code versions and transpilation strategy
///
/// ### Returns
/// A [`TranspileResult`]. For default configuration, just pass in
/// `Config::new()`.
///
/// ### Placeholder config
/// Currently `rs_to_ts()` only supports input code in the 2018 edition of Rust,
/// and will only output TypeScript 4 code using the ‘Gungho’ strategy. The
/// following enum values are placeholders:
/// * `RsEdition::Rs2015`
/// * `Strategy::Cautious`
/// * `TsMajor::Ts3`
///
/// Attempting to use placeholder config values leads to an error.
pub fn rs_to_ts(raw: &str, config: Config) -> (result: TranspileResult)
    ensures
        match not_implemented(config) {
            Some(message) => is_not_implemented_result(result, message),
            None => is_one_line_result(result, gungho_line(raw.spec_bytes())),
        },
{
    if config.rs_edition == RsEdition::Rs2015 {
        return make_not_implemented_result("RsEdition::Rs2015 is not implemented yet");
    }
    if config.strategy == Strategy::Cautious {
        return make_not_implemented_result("Strategy::Cautious is not implemented yet");
    }
    if config.ts_major == TsMajor::Ts3 {
        return make_not_implemented_result("TsMajor::Ts3 is not implemented yet");
    }
    rs2018_ts4_gungho(raw)
}

/// Makes the result for a configuration that cannot be used yet.
pub fn make_not_implemented_result(message: &'static str) -> (result: TranspileResult)
    ensures
        is_not_implemented_result(result, message),
{
    let result = TranspileResult::new().push_config_not_implemented_error(0, 0, message);
    assert(result.errors@ =~= seq![
        TranspileError {
            column: 0,
            kind: TranspileErrorKind::ConfigNotImplemented,
            line_number: 0,
            message: message,
        },
    ]);
    result
}

} // verus!
