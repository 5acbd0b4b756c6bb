//! A configuration object which controls how Rust is transpiled to TypeScript.

use vstd::prelude::*;

verus! {

/// The edition of Rust that the input code is written in.
#[derive(PartialEq, Eq, Structural)]
pub enum RsEdition {
    /// The most recent Rust edition that this library supports.
    Latest,
    /// _`Rs2015` is a placeholder. This edition is currently not supported._
    Rs2015,
    /// Currently, only the 2018 edition of Rust is supported.
    Rs2018,
}

/// Which strategy to use when transpiling Rust code into TypeScript.
#[derive(PartialEq, Eq, Structural)]
pub enum Strategy {
    /// __Favours safety over readability.__
    ///
    /// A strategy which is quite verbose, and looks very different to the input
    /// Rust code, but does not pollute global scope.
    ///
    /// _`Cautious` is a placeholder. This strategy is currently not supported._
    Cautious,
    /// __Favours readability over safety.__
    ///
    /// Pollutes global scope by adding
    /// methods to native `prototype` objects, eg `String.prototype.len()`.
    /// Looks very similar to the input Rust code, and attempts to preserve line
    /// numbers.
    ///
    /// _Currently the only strategy which `rs_to_ts()` supports._
    Gungho,
}

/// The major version of TypeScript that `rs_to_ts` should output.
#[derive(PartialEq, Eq, Structural)]
pub enum TsMajor {
    /// The most recent TypeScript major-version that this library supports.
    Latest,
    /// _`Ts3` is a placeholder. This version is currently not supported._
    Ts3,
    /// Currently, only TypeScript 4 is supported.
    Ts4,
}

/// A configuration object which controls how Rust is transpiled to TypeScript.
///
/// ### The `to_string()` method
/// `Config::to_string()` provides a handy summary of your confguration. The
/// default is `"Latest Rust edition (2018), Latest TypeScript (4), Gungho"`:
/// `rs_to_ts()` will expect 2018 edition Rust, and will output very readable
/// TypeScript 4, which pollutes global scope.
///
/// ### Modifying `Config`
/// Use `rs_edition()`, `strategy()` and `ts_major()` to set the parameters,
/// one after the other, in the manner of a builder.
pub struct Config {
    /// The edition of Rust that the input code is written in.
    pub rs_edition: RsEdition,
    /// Which strategy to use when transpiling Rust code into TypeScript.
    pub strategy: Strategy,
    /// The major version of TypeScript that `rs_to_ts` should output.
    pub ts_major: TsMajor,
}

/// How a summary names the edition of Rust.
pub open spec fn rs_edition_text(rs_edition: RsEdition) -> Seq<char> {
    match rs_edition {
        RsEdition::Latest => "Latest Rust edition (2018), "@,
        RsEdition::Rs2015 => "Rust edition 2015, "@,
        RsEdition::Rs2018 => "Rust edition 2018, "@,
    }
}

/// How a summary names the major version of TypeScript.
pub open spec fn ts_major_text(ts_major: TsMajor) -> Seq<char> {
    match ts_major {
        TsMajor::Latest => "Latest TypeScript (4), "@,
        TsMajor::Ts3 => "TypeScript 3, "@,
        TsMajor::Ts4 => "TypeScript 4, "@,
    }
}

/// How a summary names the strategy.
pub open spec fn strategy_text(strategy: Strategy) -> Seq<char> {
    match strategy {
        Strategy::Cautious => "Cautious"@,
        Strategy::Gungho => "Gungho"@,
    }
}

impl Config {
    /// The summary of a configuration: the edition of Rust, the major
    /// version of TypeScript, and the strategy.
    pub open spec fn summary(self) -> Seq<char> {
        rs_edition_text(self.rs_edition) + ts_major_text(self.ts_major) + strategy_text(
            self.strategy,
        )
    }

    /// Creates a default Config object, to pass to `rs_to_ts()`.
    pub fn new() -> (config: Self)
        ensures
            config == (Config {
                rs_edition: RsEdition::Latest,
                strategy: Strategy::Gungho,
                ts_major: TsMajor::Latest,
            }),
    {
        Config {
            rs_edition: RsEdition::Latest,
            strategy: Strategy::Gungho,
            ts_major: TsMajor::Latest,
        }
    }

    /// Overrides the configuration's default ‘Rust edition’.
    pub fn rs_edition(self, replacement_value: RsEdition) -> (config: Self)
        ensures
            config == (Config { rs_edition: replacement_value, ..self }),
    {
        let mut config = self;
        config.rs_edition = replacement_value;
        config
    }

    /// Overrides the configuration's default transpilation strategy.
    pub fn strategy(self, replacement_value: Strategy) -> (config: Self)
        ensures
            config == (Config { strategy: replacement_value, ..self }),
    {
        let mut config = self;
        config.strategy = replacement_value;
        config
    }

    /// Overrides the configuration's default ‘TypeScript major-version’.
    pub fn ts_major(self, replacement_value: TsMajor) -> (config: Self)
        ensures
            config == (Config { ts_major: replacement_value, ..self }),
    {
        let mut config = self;
        config.ts_major = replacement_value;
        config
    }

    /// Displays the configuration in a human-readable CSV format.
    pub fn to_string(&self) -> (out: String)
        ensures
            out@ == self.summary(),
    {
        let mut out = String::new();
        out.append(
            match &self.rs_edition {
                RsEdition::Latest => "Latest Rust edition (2018), ",
                RsEdition::Rs2015 => "Rust edition 2015, ",
                RsEdition::Rs2018 => "Rust edition 2018, ",
            },
        );
        out.append(
            match &self.ts_major {
                TsMajor::Latest => "Latest TypeScript (4), ",
                TsMajor::Ts3 => "TypeScript 3, ",
                TsMajor::Ts4 => "TypeScript 4, ",
            },
        );
        out.append(
            match &self.strategy {
                Strategy::Cautious => "Cautious",
                Strategy::Gungho => "Gungho",
            },
        );
        out
    }
}

} // verus!
