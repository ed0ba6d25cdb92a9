//! The characters that a heading is not to end with.

use vstd::prelude::*;

verus! {

/// The parameters of the rule MD026.
#[derive(Debug, Clone, PartialEq, Eq)]
pub struct MD026 {
    /// The characters that a heading is not to end with.
    pub punctuation: String,
}

impl Default for MD026 {
    fn default() -> (config: Self)
        ensures
            config.punctuation@ == ".,;:!?"@,
    {
        MD026 { punctuation: ".,;:!?".to_owned() }
    }
}

} // verus!
