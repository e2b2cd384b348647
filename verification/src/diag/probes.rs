//! The hardware compatibility probes. Each judges one fact; its label and
//! detail text come from the translation catalogs.

use vstd::prelude::*;
use crate::diag::check::{Check, Status};
use crate::i18n::gettext;
use crate::storage::GIB;
use crate::text::{decimal, format_one_decimal, one_decimal, replace, replace_all, u64_to_string};

verus! {

/// `std::path::Path::exists`: whether the file system has an entry at `path`
/// that can be reached. The answer depends on the machine, so no clause states it.
#[verifier::external_body]
pub(crate) fn path_exists(path: &str) -> (r: bool) {
    std::path::Path::new(path).exists()
}

/// The untranslated texts (gettext msgids) of a check's outcome: its label,
/// and its detail or the template the detail is filled from.
pub struct CheckTexts {
    pub label: &'static str,
    pub detail: &'static str,
}

/// The UEFI check's texts, by whether the EFI firmware path exists.
pub open spec fn uefi_texts(present: bool) -> (Seq<char>, Seq<char>) {
    ("UEFI firmware"@, if present { "EFI firmware detected"@ } else { "System booted in legacy BIOS mode; UEFI is required"@ })
}

/// The RAM check's texts, by whether the RAM suffices (the detail is a template).
pub open spec fn ram_texts(sufficient: bool) -> (Seq<char>, Seq<char>) {
    ("Memory"@, if sufficient {
        "{available} GiB available (need {required} GiB)"@
    } else {
        "{available} GiB available, {required} GiB required"@
    })
}

/// The disk-space check's texts, by whether a disk is large enough (the
/// passing detail is a template).
pub open spec fn disk_space_texts(enough: bool) -> (Seq<char>, Seq<char>) {
    ("Disk space"@, if enough {
        "{available} GiB disk available (need {required} GiB)"@
    } else {
        "No disk large enough for the install image"@
    })
}

/// The Secure Boot check's texts, by the efivar state.
pub open spec fn secure_boot_texts(enabled: Option<bool>) -> (Seq<char>, Seq<char>) {
    ("Secure Boot"@, match enabled {
        Some(true) => "Secure Boot is enabled"@,
        Some(false) => "disabled; recommended for a secure system"@,
        None => "state could not be determined"@,
    })
}

/// The virtualization check's texts, by whether a hypervisor was detected
/// (the detail for one is a template).
pub open spec fn virt_texts(detected: bool) -> (Seq<char>, Seq<char>) {
    ("Virtualization"@, if detected {
        "running inside a virtual machine ({kind})"@
    } else {
        "running on bare metal"@
    })
}

/// The network check's texts, by whether the machine is online.
pub open spec fn network_texts(online: bool) -> (Seq<char>, Seq<char>) {
    ("Network"@, if online { "connected"@ } else { "no connection; some post-install steps may be skipped"@ })
}

/// `t` holds exactly the `expected` label and detail, and neither holds a NUL
/// character (gettext refuses those).
pub open spec fn texts_match(t: CheckTexts, expected: (Seq<char>, Seq<char>)) -> bool {
    &&& t.label@ == expected.0
    &&& t.detail@ == expected.1
    &&& !t.label@.contains('\0')
    &&& !t.detail@.contains('\0')
}

/// The UEFI check's texts.
pub fn uefi_msgids(present: bool) -> (t: CheckTexts)
    ensures
        texts_match(t, uefi_texts(present)),
{
    proof {
        reveal_strlit("UEFI firmware");
        reveal_strlit("EFI firmware detected");
        reveal_strlit("System booted in legacy BIOS mode; UEFI is required");
    }
    CheckTexts {
        label: "UEFI firmware",
        detail: if present { "EFI firmware detected" } else { "System booted in legacy BIOS mode; UEFI is required" },
    }
}

/// The RAM check's texts.
pub fn ram_msgids(sufficient: bool) -> (t: CheckTexts)
    ensures
        texts_match(t, ram_texts(sufficient)),
{
    proof {
        reveal_strlit("Memory");
        reveal_strlit("{available} GiB available (need {required} GiB)");
        reveal_strlit("{available} GiB available, {required} GiB required");
    }
    CheckTexts {
        label: "Memory",
        detail: if sufficient {
            "{available} GiB available (need {required} GiB)"
        } else {
            "{available} GiB available, {required} GiB required"
        },
    }
}

/// The disk-space check's texts.
pub fn disk_space_msgids(enough: bool) -> (t: CheckTexts)
    ensures
        texts_match(t, disk_space_texts(enough)),
{
    proof {
        reveal_strlit("Disk space");
        reveal_strlit("{available} GiB disk available (need {required} GiB)");
        reveal_strlit("No disk large enough for the install image");
    }
    CheckTexts {
        label: "Disk space",
        detail: if enough {
            "{available} GiB disk available (need {required} GiB)"
        } else {
            "No disk large enough for the install image"
        },
    }
}

/// The Secure Boot check's texts.
pub fn secure_boot_msgids(enabled: Option<bool>) -> (t: CheckTexts)
    ensures
        texts_match(t, secure_boot_texts(enabled)),
{
    proof {
        reveal_strlit("Secure Boot");
        reveal_strlit("Secure Boot is enabled");
        reveal_strlit("disabled; recommended for a secure system");
        reveal_strlit("state could not be determined");
    }
    CheckTexts {
        label: "Secure Boot",
        detail: match enabled {
            Some(true) => "Secure Boot is enabled",
            Some(false) => "disabled; recommended for a secure system",
            None => "state could not be determined",
        },
    }
}

/// The virtualization check's texts.
pub fn virt_msgids(detected: bool) -> (t: CheckTexts)
    ensures
        texts_match(t, virt_texts(detected)),
{
    proof {
        reveal_strlit("Virtualization");
        reveal_strlit("running inside a virtual machine ({kind})");
        reveal_strlit("running on bare metal");
    }
    CheckTexts {
        label: "Virtualization",
        detail: if detected { "running inside a virtual machine ({kind})" } else { "running on bare metal" },
    }
}

/// The network check's texts.
pub fn network_msgids(online: bool) -> (t: CheckTexts)
    ensures
        texts_match(t, network_texts(online)),
{
    proof {
        reveal_strlit("Network");
        reveal_strlit("connected");
        reveal_strlit("no connection; some post-install steps may be skipped");
    }
    CheckTexts {
        label: "Network",
        detail: if online { "connected" } else { "no connection; some post-install steps may be skipped" },
    }
}

/// The UEFI check for a machine whose EFI firmware path does (or does not) exist.
pub fn probe_uefi_present(present: bool) -> (c: Check)
    ensures
        c@.id == "uefi"@,
        c@.status == (if present { Status::Pass } else { Status::Fail }),
{
    let texts = uefi_msgids(present);
    let label = gettext(texts.label);
    let detail = gettext(texts.detail);
    let status = if present { Status::Pass } else { Status::Fail };
    Check::new("uefi", label.as_str(), status, detail.as_str())
}

/// UEFI check: passes when the EFI firmware path exists on this machine.
pub fn probe_uefi(efi_path: &str) -> (c: Check)
    ensures
        c@.id == "uefi"@,
        c@.status == Status::Pass || c@.status == Status::Fail,
{
    probe_uefi_present(path_exists(efi_path))
}

/// `min_gib` GiB in bytes, saturating at `u64::MAX`.
pub open spec fn gib_bytes(min_gib: u64) -> u64 {
    if min_gib * GIB <= u64::MAX { (min_gib * GIB) as u64 } else { u64::MAX }
}

/// The RAM requirement is met.
pub open spec fn ram_sufficient(total_bytes: u64, min_gib: u64) -> bool {
    total_bytes >= gib_bytes(min_gib)
}

/// The RAM detail: the template with `{available}` replaced by the usable RAM
/// in GiB with one decimal, and `{required}` by the requirement in GiB.
pub open spec fn ram_detail(template: Seq<char>, total_bytes: u64, min_gib: u64) -> Seq<char> {
    replace_all(
        replace_all(template, "{available}"@, one_decimal(total_bytes as nat, GIB as nat)),
        "{required}"@,
        decimal(min_gib as nat),
    )
}

/// Fills a RAM detail template.
pub fn fill_ram_detail(template: &str, total_bytes: u64, min_gib: u64) -> (s: String)
    ensures
        s@ == ram_detail(template@, total_bytes, min_gib),
{
    proof {
        reveal_strlit("{available}");
        reveal_strlit("{required}");
    }
    let available = format_one_decimal(total_bytes, GIB);
    let required = u64_to_string(min_gib);
    let first = replace(template, "{available}", available.as_str());
    replace(first.as_str(), "{required}", required.as_str())
}

/// RAM check: compares usable RAM (bytes) with a minimum in GiB. The
/// comparison is in bytes, and the detail shows the RAM with one decimal, so
/// about 3.8 GiB is neither shown as 3 nor wrongly failed.
pub fn probe_ram(total_bytes: u64, min_gib: u64) -> (c: Check)
    ensures
        c@.id == "ram"@,
        c@.status == (if ram_sufficient(total_bytes, min_gib) { Status::Pass } else { Status::Fail }),
        exists|template: Seq<char>| c@.detail == #[trigger] ram_detail(template, total_bytes, min_gib),
{
    let min_bytes: u64 = match min_gib.checked_mul(GIB) {
        Some(b) => b,
        None => u64::MAX,
    };
    let sufficient = total_bytes >= min_bytes;
    let texts = ram_msgids(sufficient);
    let label = gettext(texts.label);
    let template = gettext(texts.detail);
    let detail = fill_ram_detail(template.as_str(), total_bytes, min_gib);
    let status = if sufficient { Status::Pass } else { Status::Fail };
    let c = Check::new("ram", label.as_str(), status, detail.as_str());
    assert(c@.detail == ram_detail(template@, total_bytes, min_gib));
    c
}

/// The disk-space detail: `{available}` and `{required}` replaced by whole GiB (rounded down).
pub open spec fn disk_detail(template: Seq<char>, largest_disk_bytes: u64, required_bytes: u64) -> Seq<char> {
    replace_all(
        replace_all(template, "{available}"@, decimal((largest_disk_bytes / GIB) as nat)),
        "{required}"@,
        decimal((required_bytes / GIB) as nat),
    )
}

/// Fills a disk-space detail template.
pub fn fill_disk_detail(template: &str, largest_disk_bytes: u64, required_bytes: u64) -> (s: String)
    ensures
        s@ == disk_detail(template@, largest_disk_bytes, required_bytes),
{
    proof {
        reveal_strlit("{available}");
        reveal_strlit("{required}");
    }
    let available = u64_to_string(largest_disk_bytes / GIB);
    let required = u64_to_string(required_bytes / GIB);
    let first = replace(template, "{available}", available.as_str());
    replace(first.as_str(), "{required}", required.as_str())
}

/// Disk-space check: the largest disk must hold the install image.
pub fn probe_disk_space(largest_disk_bytes: u64, required_bytes: u64) -> (c: Check)
    ensures
        c@.id == "disk_space"@,
        c@.status == (if largest_disk_bytes >= required_bytes { Status::Pass } else { Status::Fail }),
        largest_disk_bytes >= required_bytes ==> exists|template: Seq<char>|
            c@.detail == #[trigger] disk_detail(template, largest_disk_bytes, required_bytes),
{
    let enough = largest_disk_bytes >= required_bytes;
    let texts = disk_space_msgids(enough);
    let label = gettext(texts.label);
    let text = gettext(texts.detail);
    if enough {
        let detail = fill_disk_detail(text.as_str(), largest_disk_bytes, required_bytes);
        let c = Check::new("disk_space", label.as_str(), Status::Pass, detail.as_str());
        assert(c@.detail == disk_detail(text@, largest_disk_bytes, required_bytes));
        c
    } else {
        Check::new("disk_space", label.as_str(), Status::Fail, text.as_str())
    }
}

/// Secure Boot check on the efivar state (`None` when unknown). Informational:
/// it warns rather than fails, so installs still proceed.
pub fn probe_secure_boot(enabled: Option<bool>) -> (c: Check)
    ensures
        c@.id == "secure_boot"@,
        c@.status == (if enabled == Some(true) { Status::Pass } else { Status::Warn }),
{
    let texts = secure_boot_msgids(enabled);
    let label = gettext(texts.label);
    let detail = gettext(texts.detail);
    let status = match enabled {
        Some(true) => Status::Pass,
        _ => Status::Warn,
    };
    Check::new("secure_boot", label.as_str(), status, detail.as_str())
}

/// The virtualization detail: `{kind}` replaced by the detected kind.
pub fn fill_virt_detail(template: &str, kind: &str) -> (s: String)
    ensures
        s@ == replace_all(template@, "{kind}"@, kind@),
{
    proof {
        reveal_strlit("{kind}");
    }
    replace(template, "{kind}", kind)
}

/// Virtualization check on the `systemd-detect-virt` value (`None` on bare metal).
pub fn probe_virt(detected: Option<&str>) -> (c: Check)
    ensures
        c@.id == "virt"@,
        c@.status == (if detected is None { Status::Pass } else { Status::Warn }),
        detected matches Some(kind) ==> exists|template: Seq<char>|
            c@.detail == #[trigger] replace_all(template, "{kind}"@, kind@),
{
    let texts = virt_msgids(detected.is_some());
    let label = gettext(texts.label);
    let text = gettext(texts.detail);
    match detected {
        None => Check::new("virt", label.as_str(), Status::Pass, text.as_str()),
        Some(kind) => {
            let detail = fill_virt_detail(text.as_str(), kind);
            let c = Check::new("virt", label.as_str(), Status::Warn, detail.as_str());
            assert(c@.detail == replace_all(text@, "{kind}"@, kind@));
            c
        },
    }
}

/// Network check: a missing connection only warns.
pub fn probe_network(online: bool) -> (c: Check)
    ensures
        c@.id == "network"@,
        c@.status == (if online { Status::Pass } else { Status::Warn }),
{
    let texts = network_msgids(online);
    let label = gettext(texts.label);
    let detail = gettext(texts.detail);
    let status = if online { Status::Pass } else { Status::Warn };
    Check::new("network", label.as_str(), status, detail.as_str())
}

} // verus!
