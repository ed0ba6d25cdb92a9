//! The configuration of a run.

use vstd::prelude::*;

pub mod lint;

pub use lint::Lint;

verus! {

/// The configuration of a run, as it is once read and resolved.
#[derive(Debug, Clone, PartialEq, Eq)]
pub struct Config {
    /// What the linter is to do.
    pub lint: Lint,
}

impl Default for Config {
    fn default() -> (config: Self)
        ensures
            lint::is_default(config.lint),
    {
        Config { lint: Lint::default() }
    }
}

} // verus!
