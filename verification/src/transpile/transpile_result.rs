//! Used for returning the result of transpilation.

use vstd::prelude::*;
use crate::transpile::error::{TranspileError, TranspileErrorKind};

verus! {

/// Used for returning the result of transpilation.
///
/// When Rust is transpiled to TypeScript, the main program logic is returned
/// inside `main_lines`. But to run it, TypeScript will need some extra code:
/// - `main_section_begins/ends` which wraps `main_lines`
/// - `polyfill_section_begins/ends` which wraps `polyfill_lines`
/// - `type_lines` which declares any enums, interfaces, and other types
pub struct TranspileResult {
    /// If there are no transpilation errors, this vector will be empty.
    pub errors: Vec<TranspileError>,
    /// Lines of TypeScript code
    pub main_lines: Vec<&'static str>,
    /// Should be added before `main`, typically `;r$t$();`
    pub main_section_begins: &'static str,
    /// Should be added after `main`
    pub main_section_ends: &'static str,
    /// For example, `String.prototype.len=function(){return this.length}`
    pub polyfill_lines: Vec<&'static str>,
    /// Typically `;function r$t$(){...};`
    pub polyfill_section_begins: &'static str,
    /// Typically `};`
    pub polyfill_section_ends: &'static str,
    /// For example, `interface String { len(): Number }`
    pub type_lines: Vec<&'static str>,
}

/// Some lines, one directly after the other.
pub open spec fn joined(lines: Seq<&'static str>) -> Seq<char>
    decreases lines.len(),
{
    if lines.len() == 0 {
        Seq::empty()
    } else {
        joined(lines.drop_last()) + lines.last()@
    }
}

/// Appends some lines to `out`, one directly after the other.
pub fn append_lines(out: &mut String, lines: &Vec<&'static str>)
    ensures
        final(out)@ == old(out)@ + joined(lines@),
{
    let n = lines.len();
    let mut i: usize = 0;
    while i < n
        invariant
            n == lines.len(),
            i <= n,
            out@ == old(out)@ + joined(lines@.take(i as int)),
        decreases n - i,
    {
        out.append(lines[i]);
        proof {
            assert(lines@.take(i + 1).drop_last() =~= lines@.take(i as int));
        }
        i += 1;
    }
    assert(lines@.take(n as int) =~= lines@);
}

impl TranspileResult {
    /// A result without polyfill lines, without type lines, and with empty
    /// texts around its sections.
    pub open spec fn has_bare_sections(self) -> bool {
        &&& self.main_section_begins@.len() == 0
        &&& self.main_section_ends@.len() == 0
        &&& self.polyfill_lines@.len() == 0
        &&& self.polyfill_section_begins@.len() == 0
        &&& self.polyfill_section_ends@.len() == 0
        &&& self.type_lines@.len() == 0
    }

    /// A result without errors, without lines, and with empty texts around
    /// its sections.
    pub open spec fn is_empty(self) -> bool {
        &&& self.errors@.len() == 0
        &&& self.main_lines@.len() == 0
        &&& self.has_bare_sections()
    }

    /// The result as standalone TypeScript: the main section, the types,
    /// and the polyfill section.
    pub open spec fn standalone(self) -> Seq<char> {
        self.main_section_begins@ + joined(self.main_lines@) + self.main_section_ends@ + joined(
            self.type_lines@,
        ) + self.polyfill_section_begins@ + joined(self.polyfill_lines@)
            + self.polyfill_section_ends@
    }

    /// Creates an empty [`TranspileResult`] object.
    pub fn new() -> (result: Self)
        ensures
            result.is_empty(),
    {
        proof {
            reveal_strlit("");
        }
        TranspileResult {
            errors: Vec::new(),
            type_lines: Vec::new(),
            main_lines: Vec::new(),
            main_section_begins: "",
            main_section_ends: "",
            polyfill_lines: Vec::new(),
            polyfill_section_begins: "",
            polyfill_section_ends: "",
        }
    }

    /// Adds a `ConfigNotImplemented` [`TranspileError`] to the `errors` vector.
    pub fn push_config_not_implemented_error(
        self,
        column: usize,
        line_number: usize,
        message: &'static str,
    ) -> (result: Self)
        ensures
            result.errors@ == self.errors@.push(
                TranspileError {
                    column,
                    kind: TranspileErrorKind::ConfigNotImplemented,
                    line_number,
                    message,
                },
            ),
            result == (TranspileResult { errors: result.errors, ..self }),
    {
        let mut result = self;
        result.errors.push(
            TranspileError {
                column,
                kind: TranspileErrorKind::ConfigNotImplemented,
                line_number,
                message,
            },
        );
        result
    }

    /// Adds a line to the `main_lines` vector.
    pub fn push_main_line(self, line: &'static str) -> (result: Self)
        ensures
            result.main_lines@ == self.main_lines@.push(line),
            result == (TranspileResult { main_lines: result.main_lines, ..self }),
    {
        let mut result = self;
        result.main_lines.push(line);
        result
    }

    /// Concatenates `TranspileResult` to run as standalone TypeScript.
    pub fn to_string(&self) -> (out: String)
        ensures
            out@ == self.standalone(),
    {
        let mut out = String::new();

        // Add the main section.
        out.append(self.main_section_begins);
        append_lines(&mut out, &self.main_lines);
        out.append(self.main_section_ends);

        // Add the types.
        append_lines(&mut out, &self.type_lines);

        // Add the polyfill section.
        out.append(self.polyfill_section_begins);
        append_lines(&mut out, &self.polyfill_lines);
        out.append(self.polyfill_section_ends);

        out
    }
}

} // verus!
