//! How findings are written out.

use vstd::prelude::*;

use crate::diagnostic::Diagnostic;
use crate::diagnostic::DiagnosticView;
use crate::output::concise::is_concise_line_of;
use crate::output::markdownlint::markdownlint_line_of;
use crate::output::mdl::is_line_of;

pub mod concise;
pub mod markdownlint;
pub mod mdl;
pub mod style;

pub use concise::Concise;
pub use markdownlint::Markdownlint;
pub use mdl::Mdl;

verus! {

/// The style in which findings are written.
#[derive(Debug, Clone, Copy, PartialEq, Eq, Structural)]
#[non_exhaustive]
pub enum Format {
    /// Path, line and column, then the name of the rule and its description.
    Concise,
    /// As `mdl` writes: path and line, then the name of the rule and its
    /// description.
    Mdl,
    /// As `markdownlint` writes: path, line and column, then the name and
    /// the alias of the rule and its description.
    Markdownlint,
}

/// `line` is the line of `diagnostic` in the style `format`.
pub open spec fn is_line_in(line: Seq<char>, diagnostic: DiagnosticView, format: Format) -> bool {
    match format {
        Format::Concise => is_concise_line_of(line, diagnostic),
        Format::Mdl => is_line_of(line, diagnostic),
        Format::Markdownlint => line == markdownlint_line_of(diagnostic),
    }
}

/// Writes `diagnostic` as a line in the style `format`.
pub fn write_line(diagnostic: &Diagnostic, format: Format) -> (line: String)
    ensures
        is_line_in(line@, diagnostic@, format),
{
    match format {
        Format::Concise => Concise::new(diagnostic).to_string(),
        Format::Mdl => Mdl::new(diagnostic).to_string(),
        Format::Markdownlint => Markdownlint::new(diagnostic).to_string(),
    }
}

impl Default for Format {
    fn default() -> (format: Self)
        ensures
            format == Format::Concise,
    {
        Format::Concise
    }
}

} // verus!
