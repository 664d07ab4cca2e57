//! What the engine's integer statuses mean.

use vstd::prelude::*;

verus! {

/// Whether the engine knows a word.
#[derive(Debug, Clone, Copy, PartialEq, Eq)]
pub enum CheckResult {
    FoundInDictionary,
    MissingInDictionary,
}

impl CheckResult {
    /// Reads the status that the engine's spell query returned: zero means
    /// the word is unknown, anything else that it is recognised.
    pub fn from_status(status: i32) -> (r: CheckResult)
        ensures
            r == (if status == 0 {
                CheckResult::MissingInDictionary
            } else {
                CheckResult::FoundInDictionary
            }),
    {
        if status == 0 {
            CheckResult::MissingInDictionary
        } else {
            CheckResult::FoundInDictionary
        }
    }
}

/// Reads the status that the engine returned for a change of its
/// dictionaries (a word added, a dictionary added): zero means that the
/// engine took it, anything else that it did not.
pub fn accepted(status: i32) -> (ok: bool)
    ensures
        ok == (status == 0),
{
    status == 0
}

} // verus!
