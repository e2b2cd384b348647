//! The outcome of one compatibility check.

use vstd::prelude::*;
use crate::text::to_owned_string;

verus! {

/// Outcome of a single hardware compatibility check.
#[derive(Debug, Clone, Copy, PartialEq, Eq, Structural)]
pub enum Status {
    Pass,
    Warn,
    Fail,
}

/// A single compatibility check result shown on the diagnostics page.
#[derive(Debug, Clone, PartialEq, Eq)]
pub struct Check {
    pub id: String,
    pub label: String,
    pub status: Status,
    pub detail: String,
}

/// Mathematical model of a [`Check`].
pub struct CheckView {
    pub id: Seq<char>,
    pub label: Seq<char>,
    pub status: Status,
    pub detail: Seq<char>,
}

impl View for Check {
    type V = CheckView;

    open spec fn view(&self) -> CheckView {
        CheckView { id: self.id@, label: self.label@, status: self.status, detail: self.detail@ }
    }
}

impl Check {
    /// A check with the given id, label, status and detail text.
    pub fn new(id: &str, label: &str, status: Status, detail: &str) -> (c: Check)
        ensures
            c@ == (CheckView { id: id@, label: label@, status: status, detail: detail@ }),
    {
        Check {
            id: to_owned_string(id),
            label: to_owned_string(label),
            status,
            detail: to_owned_string(detail),
        }
    }
}

} // verus!
