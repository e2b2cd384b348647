use sirius::adapter::{build_request, build_request_for};
use sirius::config_model::{
    InstallConfig, InstallType, MountAssignment, PartitionOperation, PartitionPlan, PartitionRef,
    UserAccount,
};
use sirius::i18n::{tr, Lang};
use sirius::navigator::Navigator;
use sirius::pages::{PageOutput, StorageSelection};
use sirius::state::{StateEffect, WizardState};

const MIB: u64 = 1024 * 1024;
const GIB: u64 = 1024 * MIB;

fn nav() -> Navigator {
    Navigator::new(vec!["welcome".into(), "disk".into(), "finished".into()])
}

#[test]
fn starts_at_first() {
    let n = nav();
    assert_eq!(n.current(), "welcome");
    assert!(n.is_first());
    assert!(!n.is_last());
}

#[test]
fn next_advances_and_clamps() {
    let mut n = nav();
    assert_eq!(n.next(), "disk");
    assert_eq!(n.next(), "finished");
    assert!(n.is_last());
    assert_eq!(n.next(), "finished");
}

#[test]
fn prev_goes_back_and_clamps() {
    let mut n = nav();
    n.next();
    assert_eq!(n.prev(), "welcome");
    assert_eq!(n.prev(), "welcome");
}

fn state_at(page: &str, uefi: bool) -> WizardState {
    let mut state =
        WizardState::new(vec!["welcome".into(), page.into(), "summary".into()], false, uefi);
    state.next();
    state
}

fn valid_user() -> UserAccount {
    UserAccount {
        full_name: "Ada Lovelace".into(),
        username: "ada".into(),
        password: "long-enough".into(),
        password_confirm: "long-enough".into(),
        hostname: "sirius".into(),
    }
}

fn valid_bios_plan() -> PartitionPlan {
    let target = PartitionRef::Planned { id: "root".into() };
    PartitionPlan {
        disk_path: "/dev/sda".into(),
        disk_size_bytes: 40 * GIB,
        table_type: "gpt".into(),
        operations: vec![PartitionOperation::Create {
            id: "root".into(),
            offset_bytes: MIB,
            size_bytes: 30 * GIB,
            gpt_type: "0fc63daf-8483-4772-8e79-3d69d8477de4".into(),
            name: "Sirius".into(),
            filesystem: "btrfs".into(),
            label: "Sirius".into(),
        }],
        mounts: vec![MountAssignment {
            target,
            mount_point: "/".into(),
            filesystem: "btrfs".into(),
            label: "Sirius".into(),
        }],
    }
}

fn selection(install_type: InstallType, plan: Option<PartitionPlan>) -> StorageSelection {
    StorageSelection {
        path: "/dev/sda".into(),
        name: "Disk".into(),
        install_type,
        encrypt: false,
        tpm: false,
        encryption_passphrase: String::new(),
        encryption_passphrase_confirm: String::new(),
        partition_plan: plan,
    }
}

#[test]
fn user_gate_tracks_valid_to_invalid_drafts() {
    let mut state = state_at("user", false);
    state.apply(PageOutput::SetUser(valid_user()));
    assert!(state.can_proceed());

    let mut invalid = valid_user();
    invalid.password_confirm.clear();
    state.apply(PageOutput::SetUser(invalid));
    assert!(!state.can_proceed());
}

#[test]
fn whole_disk_selection_can_advance() {
    let mut state = state_at("storage", false);
    state.apply(PageOutput::SetStorage(selection(InstallType::WholeDisk, None)));
    assert!(state.can_proceed());
}

#[test]
fn manual_selection_requires_a_valid_plan() {
    let mut state = state_at("storage", false);
    state.apply(PageOutput::SetStorage(selection(InstallType::Manual, Some(valid_bios_plan()))));
    assert!(state.can_proceed());
}

#[test]
fn diagnostics_gate_uses_the_precomputed_result() {
    let mut blocked = WizardState::new(vec!["welcome".into(), "diagnostics".into()], true, false);
    blocked.next();
    assert!(!blocked.can_proceed());
}

fn full_config() -> InstallConfig {
    InstallConfig {
        locale: Some("pt_BR".into()),
        keyboard: Some("br".into()),
        timezone: Some("America/Sao_Paulo".into()),
        destination_disk: Some("/dev/sda".into()),
        destination_disk_name: Some("Test Disk".into()),
        install_type: Some(InstallType::Encrypted),
        partition_plan: None,
        encrypt: false,
        tpm: true,
        encryption_passphrase: "correct horse battery staple".into(),
        encryption_passphrase_confirm: "correct horse battery staple".into(),
        user: UserAccount {
            full_name: "Ada Lovelace".into(),
            username: "ada".into(),
            password: "hunter2hunter".into(),
            password_confirm: "hunter2hunter".into(),
            hostname: "localhost".into(),
        },
    }
}

#[test]
fn builds_request_from_full_config() {
    let req = build_request(&full_config()).unwrap();
    assert_eq!(req.target_disk, "/dev/sda");
    assert!(req.encrypt);
    assert!(req.tpm);
    assert_eq!(req.timezone, "America/Sao_Paulo");
    assert_eq!(req.encryption_key, "correct horse battery staple");
}

#[test]
fn missing_disk_errors() {
    let mut cfg = full_config();
    cfg.destination_disk = None;
    let err = build_request(&cfg).unwrap_err();
    assert_eq!(err, "no destination disk selected");
}

#[test]
fn tpm_requires_encryption() {
    let mut cfg = full_config();
    cfg.install_type = Some(InstallType::WholeDisk);
    cfg.encrypt = false;
    cfg.tpm = true;
    let req = build_request(&cfg).unwrap();
    assert!(!req.encrypt);
    assert!(!req.tpm);
}

#[test]
fn no_encryption_key_when_plaintext() {
    let mut cfg = full_config();
    cfg.install_type = Some(InstallType::WholeDisk);
    cfg.encrypt = false;
    let req = build_request(&cfg).unwrap();
    assert_eq!(req.encryption_key, "");
}

#[test]
fn plaintext_install_allows_missing_user() {
    let mut cfg = full_config();
    cfg.install_type = Some(InstallType::WholeDisk);
    cfg.encrypt = false;
    cfg.tpm = false;
    cfg.user = UserAccount::default();
    let req = build_request(&cfg).unwrap();
    assert!(!req.encrypt);
    assert_eq!(req.username, "");
    assert_eq!(req.encryption_key, "");
}

#[test]
fn encrypted_install_requires_passphrase() {
    let mut cfg = full_config();
    cfg.install_type = Some(InstallType::Encrypted);
    cfg.encrypt = true;
    cfg.encryption_passphrase.clear();
    cfg.encryption_passphrase_confirm.clear();
    let err = build_request(&cfg).unwrap_err();
    assert_eq!(err, "Passphrase must be at least 8 characters");
}

#[test]
fn encrypted_install_does_not_require_user_account() {
    let mut cfg = full_config();
    cfg.install_type = Some(InstallType::Encrypted);
    cfg.encrypt = true;
    cfg.user = UserAccount::default();
    let req = build_request(&cfg).unwrap();
    assert!(req.encrypt);
    assert_eq!(req.encryption_key, "correct horse battery staple");
    assert_eq!(req.username, "");
}

#[test]
fn from_locale_maps_pt() {
    assert_eq!(Lang::from_locale("pt_BR"), Lang::PtBr);
    assert_eq!(Lang::from_locale("en_US"), Lang::En);
}

#[test]
fn tr_translates_and_falls_back() {
    assert_eq!(tr(Lang::PtBr, "nav.next"), "Avançar");
    assert_eq!(tr(Lang::En, "nav.next"), "Next");
    assert_eq!(tr(Lang::En, "unknown.key"), "unknown.key");
}

// ---------------------------------------------------------------------------
// Further cases
// ---------------------------------------------------------------------------

#[test]
fn back_undoes_next_away_from_the_ends() {
    let mut n = Navigator::new(vec!["a".into(), "b".into(), "c".into()]);
    n.next();
    let here = n.current().to_string();
    n.next();
    assert_eq!(n.prev(), here);
    let mut single = Navigator::new(vec!["only".into()]);
    assert!(single.is_first() && single.is_last());
    assert_eq!(single.next(), "only");
    assert_eq!(single.prev(), "only");
}

#[test]
fn locale_change_reports_language_once() {
    let mut state = state_at("welcome", false);
    assert_eq!(state.apply(PageOutput::SetLocale("pt_BR".into())), StateEffect::LanguageChanged(Lang::PtBr));
    assert_eq!(state.apply(PageOutput::SetLocale("pt_BR".into())), StateEffect::Nothing);
    assert_eq!(state.lang(), Lang::PtBr);
    assert_eq!(state.config().locale.as_deref(), Some("pt_BR"));
    assert_eq!(state.apply(PageOutput::SetLocale("en_US".into())), StateEffect::LanguageChanged(Lang::En));
}

#[test]
fn request_next_moves_and_install_request_does_not() {
    let mut state = WizardState::new(vec!["welcome".into(), "summary".into(), "progress".into()], false, false);
    assert_eq!(state.apply(PageOutput::RequestInstall), StateEffect::InstallRequested);
    assert_eq!(state.current_page(), "welcome");
    assert_eq!(state.apply(PageOutput::RequestNext), StateEffect::PageChanged);
    assert_eq!(state.current_page(), "summary");
    assert_eq!(state.apply(PageOutput::SetKeyboard("br".into())), StateEffect::Nothing);
    assert_eq!(state.config().keyboard.as_deref(), Some("br"));
    assert_eq!(state.apply(PageOutput::SetTimezone("UTC".into())), StateEffect::Nothing);
    assert_eq!(state.config().timezone.as_deref(), Some("UTC"));
}

#[test]
fn started_install_cannot_proceed() {
    let mut state = WizardState::new(
        vec!["welcome".into(), "progress".into(), "finished".into()],
        false,
        true,
    );
    assert!(!state.install_started());
    assert!(state.can_proceed());
    state.next();
    assert!(state.install_started());
    assert!(!state.can_proceed());
    state.next();
    assert!(state.install_started());
    assert!(!state.can_proceed());
}

#[test]
fn seek_stops_on_page_or_last() {
    let mut state = WizardState::new(
        vec!["welcome".into(), "storage".into(), "user".into(), "summary".into()],
        false,
        false,
    );
    state.seek("user");
    assert_eq!(state.current_page(), "user");
    state.seek("welcome");
    assert_eq!(state.current_page(), "summary");
    assert!(state.is_last());
}

#[test]
fn storage_gate_checks_mode_plan_and_passphrase() {
    let mut state = state_at("storage", false);
    assert!(!state.can_proceed());
    state.apply(PageOutput::SetStorage(selection(InstallType::Manual, None)));
    assert!(!state.can_proceed());
    let mut enc = selection(InstallType::Encrypted, None);
    enc.encrypt = true;
    enc.encryption_passphrase = "short".into();
    enc.encryption_passphrase_confirm = "short".into();
    state.apply(PageOutput::SetStorage(enc.clone()));
    assert!(!state.can_proceed());
    enc.encryption_passphrase = "long enough".into();
    enc.encryption_passphrase_confirm = "long enough".into();
    state.apply(PageOutput::SetStorage(enc));
    assert!(state.can_proceed());
    assert_eq!(state.config().encryption_passphrase, "long enough");
}

#[test]
fn request_errors_for_manual_layouts() {
    let mut cfg = full_config();
    cfg.install_type = Some(InstallType::Manual);
    cfg.encrypt = false;
    assert_eq!(build_request_for(&cfg, false).unwrap_err(), "manual partitioning has no partition plan");
    let mut plan = valid_bios_plan();
    plan.disk_path = "/dev/sdb".into();
    cfg.partition_plan = Some(plan);
    assert_eq!(build_request_for(&cfg, false).unwrap_err(), "manual partition plan targets a different disk");
    cfg.partition_plan = Some(valid_bios_plan());
    let req = build_request_for(&cfg, false).unwrap();
    assert!(!req.encrypt);
    assert_eq!(req.partition_plan, Some(valid_bios_plan()));
    assert!(build_request_for(&cfg, true).unwrap_err().contains("EFI"));
}

#[test]
fn request_defaults_and_mode_errors() {
    let mut cfg = full_config();
    cfg.locale = None;
    cfg.keyboard = None;
    cfg.timezone = None;
    let req = build_request(&cfg).unwrap();
    assert_eq!(req.locale, "en_US");
    assert_eq!(req.keyboard, "us");
    assert_eq!(req.timezone, "UTC");
    cfg.install_type = None;
    assert_eq!(build_request(&cfg).unwrap_err(), "no partition mode selected");
}

#[test]
fn partial_account_must_validate_for_a_request() {
    let mut cfg = full_config();
    cfg.user.password_confirm = "different".into();
    assert_eq!(build_request(&cfg).unwrap_err(), "Passwords do not match");
}

#[test]
fn tr_falls_back_to_english_for_untranslated_keys() {
    assert_eq!(tr(Lang::PtBr, "unknown.key"), "unknown.key");
    assert_eq!(tr(Lang::En, "summary.disk"), "Disk");
}
