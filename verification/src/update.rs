//! The summary of an available signed update.

use vstd::prelude::*;

verus! {

/// A newer signed release that the update endpoint advertises.
pub struct UpdateSummary {
    pub version: String,
    pub current_version: String,
    pub notes: Option<String>,
}

impl UpdateSummary {
    /// The summary of a release from its fields.
    pub fn new(version: String, current_version: String, notes: Option<String>) -> (res: Self)
        ensures
            res.version@ == version@,
            res.current_version@ == current_version@,
            res.notes == notes,
    {
        UpdateSummary { version, current_version, notes }
    }
}

} // verus!
