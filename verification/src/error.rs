//! The catalog's error taxonomy: every fatal outcome of the core workflow.

use vstd::prelude::*;

verus! {

/// Why a catalog operation failed.
#[derive(Debug, Clone, Copy, PartialEq, Eq, Structural)]
pub enum Error {
    /// A part reached validation without an assigned identifier.
    IdUnassigned,
    /// A part's category is not a key of the active category configuration.
    UnknownCategory,
    /// A catalog file row could not be parsed.
    MalformedRow,
    /// An edited template could not be parsed back into a form.
    MalformedForm,
    /// No snapshot file is available to resume from.
    NothingToResume,
}

impl Error {
    /// A human-readable description of the failure.
    pub fn message(&self) -> (r: &'static str)
        ensures
            r@.len() > 0,
    {
        let m: &'static str = match self {
            Error::IdUnassigned => "Validation error: ID was not assigned to Part",
            Error::UnknownCategory => "Validation error: Category does not match config file",
            Error::MalformedRow => "Error: malformed catalog row",
            Error::MalformedForm => "Error: malformed form",
            Error::NothingToResume => "Error: Could not find temporary file to resume from",
        };
        proof {
            reveal_strlit("Validation error: ID was not assigned to Part");
            reveal_strlit("Validation error: Category does not match config file");
            reveal_strlit("Error: malformed catalog row");
            reveal_strlit("Error: malformed form");
            reveal_strlit("Error: Could not find temporary file to resume from");
        }
        m
    }
}

} // verus!
