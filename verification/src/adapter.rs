//! Turns the UI's `InstallConfig` into the `InstallRequest` that crosses the
//! privilege boundary.
//!
//! The request carries only the user's choices (disk, encryption, locale,
//! account). What gets installed, the image and the partition layout, is read
//! by the privileged runner itself from the root-owned distro descriptor.

use vstd::prelude::*;
use crate::config_model::{
    account_is_empty, account_problem, copy_opt_plan, opt_plan_view, passphrase_problem, plan_error,
    InstallConfig, InstallConfigView, InstallType, PartitionPlan, PartitionPlanView,
};
use crate::diag::facts::EFI_PATH;
use crate::diag::probes::path_exists;
use crate::state::wants_encryption;
use crate::text::{str_eq, to_owned_string};

verus! {

/// The user's choices, as sent to the privileged runner.
#[derive(Debug, Clone, PartialEq)]
pub struct InstallRequest {
    pub target_disk: String,
    pub encrypt: bool,
    pub tpm: bool,
    pub encryption_key: String,
    pub locale: String,
    pub keyboard: String,
    pub timezone: String,
    pub hostname: String,
    pub username: String,
    pub full_name: String,
    pub partition_plan: Option<PartitionPlan>,
}

/// Mathematical model of an [`InstallRequest`].
pub struct InstallRequestView {
    pub target_disk: Seq<char>,
    pub encrypt: bool,
    pub tpm: bool,
    pub encryption_key: Seq<char>,
    pub locale: Seq<char>,
    pub keyboard: Seq<char>,
    pub timezone: Seq<char>,
    pub hostname: Seq<char>,
    pub username: Seq<char>,
    pub full_name: Seq<char>,
    pub partition_plan: Option<PartitionPlanView>,
}

impl View for InstallRequest {
    type V = InstallRequestView;

    open spec fn view(&self) -> InstallRequestView {
        InstallRequestView {
            target_disk: self.target_disk@,
            encrypt: self.encrypt,
            tpm: self.tpm,
            encryption_key: self.encryption_key@,
            locale: self.locale@,
            keyboard: self.keyboard@,
            timezone: self.timezone@,
            hostname: self.hostname@,
            username: self.username@,
            full_name: self.full_name@,
            partition_plan: opt_plan_view(self.partition_plan),
        }
    }
}

/// `o`'s value, or `default` when there is none.
pub open spec fn or_default(o: Option<Seq<char>>, default: Seq<char>) -> Seq<char> {
    match o {
        Some(v) => v,
        None => default,
    }
}

/// Why a configuration cannot become a request, in the order the checks run.
pub enum RequestProblem {
    /// No destination disk was chosen.
    NoDisk,
    /// No layout mode was chosen.
    NoMode,
    /// A manual layout without a plan.
    NoPlan,
    /// A manual plan for another disk.
    PlanForOtherDisk,
    /// The manual plan does not validate; the message is the plan's own.
    InvalidPlan(Seq<char>),
    /// An encrypted layout with an unacceptable passphrase pair.
    BadPassphrase,
    /// A partly filled account that does not validate.
    BadAccount,
}

/// The first problem with `c` (plans validated for a UEFI or BIOS machine), if any.
pub open spec fn request_problem(c: InstallConfigView, uefi: bool) -> Option<RequestProblem> {
    match c.destination_disk {
        None => Some(RequestProblem::NoDisk),
        Some(disk) => match c.install_type {
            None => Some(RequestProblem::NoMode),
            Some(mode) => {
                if mode == InstallType::Manual && c.partition_plan is None {
                    Some(RequestProblem::NoPlan)
                } else if mode == InstallType::Manual && c.partition_plan.unwrap().disk_path != disk {
                    Some(RequestProblem::PlanForOtherDisk)
                } else if mode == InstallType::Manual && plan_error(c.partition_plan.unwrap(), uefi) is Some {
                    Some(RequestProblem::InvalidPlan(plan_error(c.partition_plan.unwrap(), uefi).unwrap()))
                } else if wants_encryption(c) && passphrase_problem(c.encryption_passphrase, c.encryption_passphrase_confirm) is Some {
                    Some(RequestProblem::BadPassphrase)
                } else if !account_is_empty(c.user) && account_problem(c.user) is Some {
                    Some(RequestProblem::BadAccount)
                } else {
                    None
                }
            },
        },
    }
}

/// The request for a configuration without problems: the key only when
/// encrypting, TPM only with encryption, and `en_US`, `us` and `UTC` for
/// anything not chosen.
pub open spec fn request_of(c: InstallConfigView) -> InstallRequestView {
    let encrypt = wants_encryption(c);
    InstallRequestView {
        target_disk: c.destination_disk.unwrap(),
        encrypt: encrypt,
        tpm: c.tpm && encrypt,
        encryption_key: if encrypt { c.encryption_passphrase } else { Seq::empty() },
        locale: or_default(c.locale, "en_US"@),
        keyboard: or_default(c.keyboard, "us"@),
        timezone: or_default(c.timezone, "UTC"@),
        hostname: c.user.hostname,
        username: c.user.username,
        full_name: c.user.full_name,
        partition_plan: c.partition_plan,
    }
}

/// What building a request yields: the request when nothing is wrong, else an
/// error; the fixed messages are stated, the translated ones (passphrase and
/// account) are left to the catalogs.
pub open spec fn request_outcome(c: InstallConfigView, uefi: bool, r: Result<InstallRequest, String>) -> bool {
    match request_problem(c, uefi) {
        None => r matches Ok(req) && req@ == request_of(c),
        Some(RequestProblem::NoDisk) => r matches Err(e) && e@ == "no destination disk selected"@,
        Some(RequestProblem::NoMode) => r matches Err(e) && e@ == "no partition mode selected"@,
        Some(RequestProblem::NoPlan) => r matches Err(e) && e@ == "manual partitioning has no partition plan"@,
        Some(RequestProblem::PlanForOtherDisk) => r matches Err(e) && e@ == "manual partition plan targets a different disk"@,
        Some(RequestProblem::InvalidPlan(m)) => r matches Err(e) && e@ == m,
        Some(RequestProblem::BadPassphrase) => r is Err,
        Some(RequestProblem::BadAccount) => r is Err,
    }
}

fn text_or(o: &Option<String>, default: &str) -> (r: String)
    ensures
        r@ == or_default(o.deep_view(), default@),
{
    match o {
        Some(v) => to_owned_string(v.as_str()),
        None => to_owned_string(default),
    }
}

/// Build the request from the collected configuration, validating a manual
/// plan for a UEFI (`uefi`) or BIOS machine. Returns an error naming the first
/// missing or invalid required field.
pub fn build_request_for(cfg: &InstallConfig, uefi: bool) -> (r: Result<InstallRequest, String>)
    ensures
        request_outcome(cfg@, uefi, r),
{
    let target_disk = match &cfg.destination_disk {
        Some(d) => to_owned_string(d.as_str()),
        None => return Err(to_owned_string("no destination disk selected")),
    };
    let install_type = match cfg.install_type {
        Some(t) => t,
        None => return Err(to_owned_string("no partition mode selected")),
    };
    let encrypt = match install_type {
        InstallType::Encrypted => true,
        _ => cfg.encrypt,
    };
    if install_type == InstallType::Manual {
        let plan = match &cfg.partition_plan {
            Some(p) => p,
            None => return Err(to_owned_string("manual partitioning has no partition plan")),
        };
        if !str_eq(plan.disk_path.as_str(), target_disk.as_str()) {
            return Err(to_owned_string("manual partition plan targets a different disk"));
        }
        match plan.validate(uefi) {
            Ok(()) => {},
            Err(e) => return Err(e),
        }
    }
    if encrypt {
        match cfg.validate_encryption() {
            Ok(()) => {},
            Err(e) => return Err(e),
        }
    }
    if !cfg.user.is_empty() {
        match cfg.user.validate() {
            Ok(()) => {},
            Err(e) => return Err(e),
        }
    }
    let encryption_key = if encrypt {
        to_owned_string(cfg.encryption_passphrase.as_str())
    } else {
        String::new()
    };
    let req = InstallRequest {
        target_disk,
        encrypt,
        tpm: cfg.tpm && encrypt,
        encryption_key,
        locale: text_or(&cfg.locale, "en_US"),
        keyboard: text_or(&cfg.keyboard, "us"),
        timezone: text_or(&cfg.timezone, "UTC"),
        hostname: to_owned_string(cfg.user.hostname.as_str()),
        username: to_owned_string(cfg.user.username.as_str()),
        full_name: to_owned_string(cfg.user.full_name.as_str()),
        partition_plan: copy_opt_plan(&cfg.partition_plan),
    };
    proof {
        assert(req@.encryption_key == request_of(cfg@).encryption_key);
    }
    Ok(req)
}

/// Build the wire request from the collected configuration. A manual plan is
/// validated for the firmware this machine booted with (UEFI when the EFI
/// firmware path exists). Returns an error naming the first missing or
/// invalid required field.
pub fn build_request(cfg: &InstallConfig) -> (r: Result<InstallRequest, String>)
    ensures
        request_outcome(cfg@, true, r) || request_outcome(cfg@, false, r),
        cfg@.install_type != Some(InstallType::Manual) ==> request_outcome(cfg@, false, r),
{
    let uefi = match cfg.install_type {
        Some(InstallType::Manual) => path_exists(EFI_PATH),
        _ => false,
    };
    build_request_for(cfg, uefi)
}

/// A request is built exactly when the configuration has no problem, and
/// then it always names the chosen disk, binds TPM only to an encrypted
/// layout, and carries a key only when encrypting.
pub proof fn law_request_respects_choices(c: InstallConfigView, uefi: bool, r: Result<InstallRequest, String>)
    requires
        request_outcome(c, uefi, r),
    ensures
        r is Ok <==> request_problem(c, uefi) is None,
        r matches Ok(req) ==> {
            &&& c.destination_disk == Some(req@.target_disk)
            &&& (req@.tpm ==> req@.encrypt)
            &&& (!req@.encrypt ==> req@.encryption_key.len() == 0)
            &&& (req@.encrypt <==> wants_encryption(c))
        },
{
}

} // verus!
