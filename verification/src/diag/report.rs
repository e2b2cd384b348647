//! The full compatibility report, and whether the diagnostics page may proceed.

use vstd::prelude::*;
use crate::diag::check::{Check, CheckView, Status};
use crate::diag::config::{DiagnosticsConfig, DiagnosticsConfigView, DEFAULT_MIN_RAM_GIB};
use crate::diag::facts::SystemFacts;
use crate::diag::probes::{
    probe_disk_space, probe_network, probe_ram, probe_secure_boot, probe_uefi, probe_virt,
    gib_bytes, ram_sufficient,
};
use crate::text::str_eq;

verus! {

/// Minimum RAM in GiB required to install.
pub const MIN_RAM_GIB: u64 = DEFAULT_MIN_RAM_GIB;

/// Minimum disk size in bytes required to install (20 GiB).
pub const MIN_DISK_BYTES: u64 = 21474836480;

/// The report for `facts`: six checks in a fixed order, each with the status
/// its probe gives (the UEFI one depends on whether the EFI path exists).
pub open spec fn report_for(r: Seq<CheckView>, facts: SystemFacts, min_ram_gib: u64) -> bool {
    &&& r.len() == 6
    &&& r[0].id == "uefi"@
    &&& (r[0].status == Status::Pass || r[0].status == Status::Fail)
    &&& r[1].id == "ram"@
    &&& r[1].status == (if ram_sufficient(facts.total_ram_bytes, min_ram_gib) { Status::Pass } else { Status::Fail })
    &&& r[2].id == "disk_space"@
    &&& r[2].status == (if facts.largest_disk_bytes >= MIN_DISK_BYTES { Status::Pass } else { Status::Fail })
    &&& r[3].id == "secure_boot"@
    &&& r[3].status == (if facts.secure_boot == Some(true) { Status::Pass } else { Status::Warn })
    &&& r[4].id == "virt"@
    &&& r[4].status == (if facts.virt is None { Status::Pass } else { Status::Warn })
    &&& r[5].id == "network"@
    &&& r[5].status == (if facts.online { Status::Pass } else { Status::Warn })
}

fn run_all_checks_with_min_ram(facts: &SystemFacts, min_ram_gib: u64) -> (checks: Vec<Check>)
    ensures
        report_for(checks@.map_values(|c: Check| c@), *facts, min_ram_gib),
{
    let mut checks: Vec<Check> = Vec::new();
    checks.push(probe_uefi(facts.efi_path.as_str()));
    checks.push(probe_ram(facts.total_ram_bytes, min_ram_gib));
    checks.push(probe_disk_space(facts.largest_disk_bytes, MIN_DISK_BYTES));
    checks.push(probe_secure_boot(facts.secure_boot));
    let virt = match &facts.virt {
        Some(kind) => probe_virt(Some(kind.as_str())),
        None => probe_virt(None),
    };
    checks.push(virt);
    checks.push(probe_network(facts.online));
    checks
}

/// Run every probe against the gathered facts with the built-in RAM minimum.
pub fn run_all_checks(facts: &SystemFacts) -> (checks: Vec<Check>)
    ensures
        report_for(checks@.map_values(|c: Check| c@), *facts, MIN_RAM_GIB),
{
    run_all_checks_with_min_ram(facts, MIN_RAM_GIB)
}

/// Run every probe with the RAM threshold from the diagnostics config.
pub fn run_all_checks_with_config(facts: &SystemFacts, diagnostics: &DiagnosticsConfig) -> (checks: Vec<Check>)
    ensures
        report_for(checks@.map_values(|c: Check| c@), *facts, diagnostics.min_ram_gib),
{
    run_all_checks_with_min_ram(facts, diagnostics.min_ram_gib)
}

/// Some check both failed and is required.
pub open spec fn blocked_by(checks: Seq<CheckView>, require: Seq<Seq<char>>) -> bool {
    exists|i: int| 0 <= i < checks.len() && (#[trigger] checks[i]).status == Status::Fail && require.contains(checks[i].id)
}

/// Whether the install is held back: only when a check whose id is in
/// `require` reports `Fail`. Warnings never block, nor do failures of checks
/// that are not required.
pub fn is_blocked(checks: &[Check], require: &[String]) -> (r: bool)
    ensures
        r == blocked_by(checks@.map_values(|c: Check| c@), require@.map_values(|s: String| s@)),
{
    let ghost cv = checks@.map_values(|c: Check| c@);
    let ghost rv = require@.map_values(|s: String| s@);
    let mut i: usize = 0;
    while i < checks.len()
        invariant
            i <= checks@.len(),
            cv == checks@.map_values(|c: Check| c@),
            rv == require@.map_values(|s: String| s@),
            forall|k: int| 0 <= k < i ==> !((#[trigger] cv[k]).status == Status::Fail && rv.contains(cv[k].id)),
        decreases checks@.len() - i,
    {
        if checks[i].status == Status::Fail {
            let mut j: usize = 0;
            while j < require.len()
                invariant
                    i < checks@.len(),
                    checks@[i as int].status == Status::Fail,
                    j <= require@.len(),
                    cv == checks@.map_values(|c: Check| c@),
                    rv == require@.map_values(|s: String| s@),
                    forall|k: int| 0 <= k < j ==> (#[trigger] rv[k]) != cv[i as int].id,
                decreases require@.len() - j,
            {
                if str_eq(require[j].as_str(), checks[i].id.as_str()) {
                    assert(rv[j as int] == cv[i as int].id);
                    assert(cv[i as int].status == Status::Fail && rv.contains(cv[i as int].id));
                    return true;
                }
                j = j + 1;
            }
            assert(!rv.contains(cv[i as int].id));
        }
        i = i + 1;
    }
    false
}

/// A report whose checks only pass or warn never blocks, whatever is required.
pub proof fn law_warnings_never_block(checks: Seq<CheckView>, require: Seq<Seq<char>>)
    requires
        forall|i: int| 0 <= i < checks.len() ==> (#[trigger] checks[i]).status != Status::Fail,
    ensures
        !blocked_by(checks, require),
{
}

/// With nothing required, nothing blocks.
pub proof fn law_nothing_required_never_blocks(checks: Seq<CheckView>)
    ensures
        !blocked_by(checks, Seq::empty()),
{
}

/// Requiring more checks can only block more: a report blocked under
/// `require` stays blocked when further ids are required.
pub proof fn law_blocking_grows_with_require(checks: Seq<CheckView>, require: Seq<Seq<char>>, extra: Seq<Seq<char>>)
    requires
        blocked_by(checks, require),
    ensures
        blocked_by(checks, require + extra),
{
    let i = choose|i: int| 0 <= i < checks.len() && (#[trigger] checks[i]).status == Status::Fail && require.contains(checks[i].id);
    let j = choose|j: int| 0 <= j < require.len() && require[j] == checks[i].id;
    assert((require + extra)[j] == checks[i].id);
}

/// Two reports classify alike: the same checks in the same order, each with
/// the same status, the UEFI check aside (its status rests on whether the EFI
/// path exists at the moment it is probed).
pub open spec fn same_classification(r1: Seq<CheckView>, r2: Seq<CheckView>) -> bool {
    &&& r1.len() == r2.len()
    &&& forall|i: int| 0 <= i < r1.len() ==> (#[trigger] r1[i]).id == r2[i].id
    &&& forall|i: int| 1 <= i < r1.len() ==> (#[trigger] r1[i]).status == r2[i].status
}

/// Running the checks without a configuration classifies as the run with the
/// default diagnostics configuration does: six checks, uefi, ram, disk_space,
/// secure_boot, virt and network, with the same statuses.
pub proof fn law_plain_run_is_default_config_run(
    plain: Seq<CheckView>,
    configured: Seq<CheckView>,
    facts: SystemFacts,
    default_config: DiagnosticsConfigView,
)
    requires
        report_for(plain, facts, MIN_RAM_GIB),
        default_config.min_ram_gib == DEFAULT_MIN_RAM_GIB,
        report_for(configured, facts, default_config.min_ram_gib),
    ensures
        same_classification(plain, configured),
        plain.len() == 6,
{
}

/// The configuration never reclassifies a check: runs under two
/// configurations with the same RAM minimum classify alike whatever they
/// require or flag, and the RAM check passes exactly when the machine has at
/// least that many GiB (the byte count saturating at `u64::MAX`).
pub proof fn law_config_never_reclassifies(
    r1: Seq<CheckView>,
    r2: Seq<CheckView>,
    facts: SystemFacts,
    d1: DiagnosticsConfigView,
    d2: DiagnosticsConfigView,
)
    requires
        d1.min_ram_gib == d2.min_ram_gib,
        report_for(r1, facts, d1.min_ram_gib),
        report_for(r2, facts, d2.min_ram_gib),
    ensures
        same_classification(r1, r2),
        r1[1].status == (if facts.total_ram_bytes >= gib_bytes(d1.min_ram_gib) { Status::Pass } else { Status::Fail }),
{
}

} // verus!
