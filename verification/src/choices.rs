//! The fixed choices the wizard offers (keyboard layouts, time zones) and how
//! a check's status is shown.

use vstd::prelude::*;
use crate::diag::check::Status;

verus! {

/// The keyboard layouts offered, as (code, name) pairs; the first is the default.
pub open spec fn layouts() -> Seq<(Seq<char>, Seq<char>)> {
    seq![("us"@, "English (US)"@), ("br"@, "Portuguese (Brazil)"@)]
}

/// The layout code for the entry picked at `index`; `us` when out of range.
pub fn layout_code(index: usize) -> (code: &'static str)
    ensures
        code@ == if index < layouts().len() { layouts()[index as int].0 } else { "us"@ },
{
    if index == 0 {
        "us"
    } else if index == 1 {
        "br"
    } else {
        "us"
    }
}

/// The layout names, in the order they are offered.
pub fn layout_names() -> (names: Vec<&'static str>)
    ensures
        names@.len() == layouts().len(),
        forall|i: int| 0 <= i < names@.len() ==> (#[trigger] names@[i])@ == layouts()[i].1,
{
    let mut names: Vec<&'static str> = Vec::new();
    names.push("English (US)");
    names.push("Portuguese (Brazil)");
    names
}

/// The time zones offered, in order.
pub open spec fn zones() -> Seq<Seq<char>> {
    seq!["America/Sao_Paulo"@, "America/New_York"@, "Europe/London"@, "UTC"@]
}

/// The time zone picked at `index`; `UTC` when out of range.
pub fn zone_at(index: usize) -> (zone: &'static str)
    ensures
        zone@ == if index < zones().len() { zones()[index as int] } else { "UTC"@ },
{
    if index == 0 {
        "America/Sao_Paulo"
    } else if index == 1 {
        "America/New_York"
    } else if index == 2 {
        "Europe/London"
    } else {
        "UTC"
    }
}

/// The time zones, in the order they are offered.
pub fn zone_names() -> (names: Vec<&'static str>)
    ensures
        names@.len() == zones().len(),
        forall|i: int| 0 <= i < names@.len() ==> (#[trigger] names@[i])@ == zones()[i],
{
    let mut names: Vec<&'static str> = Vec::new();
    names.push("America/Sao_Paulo");
    names.push("America/New_York");
    names.push("Europe/London");
    names.push("UTC");
    names
}

/// The icon and style class shown next to a check of this status.
pub fn status_icon(status: Status) -> (r: (&'static str, &'static str))
    ensures
        status == Status::Pass ==> r.0@ == "object-select-symbolic"@ && r.1@ == "success"@,
        status == Status::Warn ==> r.0@ == "dialog-warning-symbolic"@ && r.1@ == "warning"@,
        status == Status::Fail ==> r.0@ == "dialog-error-symbolic"@ && r.1@ == "error"@,
{
    match status {
        Status::Pass => ("object-select-symbolic", "success"),
        Status::Warn => ("dialog-warning-symbolic", "warning"),
        Status::Fail => ("dialog-error-symbolic", "error"),
    }
}

} // verus!
