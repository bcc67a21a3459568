//! Basic participant data shared across the crate.

use vstd::prelude::*;

verus! {

/// Grammatical gender of a participant, as far as the game distinguishes it.
#[derive(Debug, PartialEq, Eq, Clone, Copy, Structural)]
pub enum Gender {
    Male,
    Female,
}

impl Gender {
    /// Short display form: `"M"` or `"F"`.
    pub fn to_string(&self) -> (s: String)
        ensures
            s@ == if self is Male {
                "M"@
            } else {
                "F"@
            },
    {
        match self {
            Gender::Male => String::from_str("M"),
            Gender::Female => String::from_str("F"),
        }
    }
}

} // verus!
