use sirius::diag::check::{Check, Status};
use sirius::diag::config::{
    default_min_ram_gib, default_order, known_pages, mandatory_pages, DiagnosticsConfig,
    PagesConfig, SiriusConfig, DEFAULT_MIN_RAM_GIB,
};
use sirius::diag::facts::{
    disks_from_lsblk_output, largest_disk_bytes, parse_lsblk_line, secure_boot_from_efivar,
    virt_from_output, SystemFacts,
};
use sirius::diag::probes::{
    disk_space_msgids, network_msgids, ram_msgids, secure_boot_msgids, uefi_msgids, virt_msgids,
    fill_disk_detail, fill_ram_detail, fill_virt_detail, probe_disk_space, probe_network,
    probe_ram, probe_secure_boot, probe_uefi, probe_uefi_present, probe_virt,
};
use sirius::diag::report::{
    is_blocked, run_all_checks, run_all_checks_with_config, MIN_DISK_BYTES, MIN_RAM_GIB,
};

const GIB: u64 = 1024 * 1024 * 1024;

fn strings(items: &[&str]) -> Vec<String> {
    items.iter().map(|s| s.to_string()).collect()
}

fn sample_facts() -> SystemFacts {
    SystemFacts::gather(
        8 * GIB,
        Some("64000000000\n".to_string()),
        None,
        Some((false, String::new())),
    )
}

#[test]
fn check_new_builds_expected_struct() {
    let c = Check::new("uefi", "UEFI firmware", Status::Pass, "found");
    assert_eq!(c.id, "uefi");
    assert_eq!(c.status, Status::Pass);
    assert_eq!(c.detail, "found");
}

#[test]
fn resolve_drops_disabled_and_unknown() {
    let pages = PagesConfig {
        order: strings(&["welcome", "manual_partition", "bogus_page", "summary", "progress", "finished"]),
        disabled: strings(&["manual_partition"]),
    };
    let resolved = pages.resolve();
    assert_eq!(resolved, vec!["welcome", "storage", "summary", "progress", "finished"]);
}

#[test]
fn resolve_appends_missing_mandatory_pages() {
    let pages = PagesConfig { order: strings(&["welcome"]), disabled: vec![] };
    let resolved = pages.resolve();
    assert!(resolved.contains(&"progress".to_string()));
    assert!(resolved.contains(&"finished".to_string()));
    assert!(resolved.contains(&"storage".to_string()));
}

#[test]
fn resolve_cannot_disable_mandatory() {
    let pages = PagesConfig {
        order: strings(&["progress", "finished"]),
        disabled: strings(&["progress"]),
    };
    assert!(pages.resolve().contains(&"progress".to_string()));
}

#[test]
fn resolve_empty_order_uses_default() {
    let pages = PagesConfig::default();
    assert_eq!(pages.resolve(), default_order());
    assert_eq!(
        pages.resolve(),
        vec![
            "welcome", "diagnostics", "network", "keyboard", "timezone", "storage", "user",
            "summary", "progress", "finished"
        ]
    );
}

#[test]
fn legacy_partition_pages_collapse_to_storage_once() {
    let pages = PagesConfig {
        order: strings(&["disk", "welcome", "partition", "manual_partition", "storage"]),
        disabled: vec![],
    };
    assert_eq!(pages.resolve(), vec!["storage", "welcome", "progress", "finished"]);
}

#[test]
fn gather_does_not_panic() {
    let facts = SystemFacts::gather(0, None, None, None);
    assert_eq!(facts.efi_path, "/sys/firmware/efi");
}

#[test]
fn lsblk_line_keeps_real_disks() {
    let d = parse_lsblk_line(
        r#"NAME="vda" SIZE="68719476736" MODEL="Virtio Block Device" TYPE="disk" RO="0""#,
    )
    .unwrap();
    assert_eq!(d.path, "/dev/vda");
    assert_eq!(d.model, "Virtio Block Device");
    assert_eq!(d.size_bytes, 68719476736);
}

#[test]
fn lsblk_line_drops_pseudo_devices() {
    for line in [
        r#"NAME="zram0" SIZE="8589934592" MODEL="" TYPE="disk" RO="0""#,
        r#"NAME="loop0" SIZE="1234" MODEL="" TYPE="loop" RO="0""#,
        r#"NAME="sr0" SIZE="2048" MODEL="QEMU DVD-ROM" TYPE="rom" RO="1""#,
        r#"NAME="sda" SIZE="0" MODEL="Empty Reader" TYPE="disk" RO="0""#,
        r#"NAME="sdb" SIZE="1024" MODEL="WP Disk" TYPE="disk" RO="1""#,
    ] {
        assert!(parse_lsblk_line(line).is_none(), "should drop: {line}");
    }
}

#[test]
fn lsblk_line_defaults_missing_model() {
    let d = parse_lsblk_line(r#"NAME="nvme0n1" SIZE="512000000000" MODEL="" TYPE="disk" RO="0""#)
        .unwrap();
    assert_eq!(d.model, "Disk");
}

#[test]
fn uefi_pass_when_path_exists() {
    assert_eq!(probe_uefi("/").status, Status::Pass);
}

#[test]
fn uefi_fail_when_path_missing() {
    assert_eq!(probe_uefi("/definitely/not/here/sirius-efi").status, Status::Fail);
}

#[test]
fn ram_pass_when_enough() {
    assert_eq!(probe_ram(3 * GIB, 2).status, Status::Pass);
}

#[test]
fn ram_fail_when_too_little() {
    assert_eq!(probe_ram(GIB, 2).status, Status::Fail);
}

#[test]
fn ram_fail_when_zero() {
    assert_eq!(probe_ram(0, 2).status, Status::Fail);
}

#[test]
fn ram_shows_one_decimal_not_truncated() {
    let check = probe_ram(3_984_588 * 1024, 2);
    assert_eq!(check.status, Status::Pass);
    assert!(check.detail.contains("3.8 GiB available"), "detail was: {}", check.detail);
}

#[test]
fn disk_pass_when_big_enough() {
    assert_eq!(probe_disk_space(40 * GIB, 20 * GIB).status, Status::Pass);
}

#[test]
fn disk_fail_when_too_small() {
    assert_eq!(probe_disk_space(8 * GIB, 20 * GIB).status, Status::Fail);
}

#[test]
fn secure_boot_states() {
    assert_eq!(probe_secure_boot(Some(true)).status, Status::Pass);
    assert_eq!(probe_secure_boot(Some(false)).status, Status::Warn);
    assert_eq!(probe_secure_boot(None).status, Status::Warn);
}

#[test]
fn virt_states() {
    assert_eq!(probe_virt(None).status, Status::Pass);
    assert_eq!(probe_virt(Some("kvm")).status, Status::Warn);
}

#[test]
fn network_states() {
    assert_eq!(probe_network(true).status, Status::Pass);
    assert_eq!(probe_network(false).status, Status::Warn);
}

fn fail(id: &str) -> Check {
    Check::new(id, id, Status::Fail, "x")
}

fn pass(id: &str) -> Check {
    Check::new(id, id, Status::Pass, "x")
}

#[test]
fn blocked_when_required_check_fails() {
    let checks = vec![fail("uefi"), pass("ram")];
    let require = vec!["uefi".to_string(), "ram".to_string()];
    assert!(is_blocked(&checks, &require));
}

#[test]
fn not_blocked_when_only_non_required_fails() {
    let checks = vec![fail("network"), pass("uefi")];
    let require = vec!["uefi".to_string()];
    assert!(!is_blocked(&checks, &require));
}

#[test]
fn run_all_checks_returns_six() {
    let facts = sample_facts();
    assert_eq!(run_all_checks(&facts).len(), 6);
}

#[test]
fn minimum_ram_is_two_gib() {
    assert_eq!(MIN_RAM_GIB, 2);
}

#[test]
fn run_all_checks_uses_configured_ram_threshold() {
    let mut facts = sample_facts();
    facts.total_ram_bytes = 3145728 * 1024;
    let diagnostics = DiagnosticsConfig { min_ram_gib: 4, ..DiagnosticsConfig::default() };
    let checks = run_all_checks_with_config(&facts, &diagnostics);
    let ram = checks.iter().find(|check| check.id == "ram").unwrap();
    assert_eq!(ram.status, Status::Fail);
    assert!(ram.detail.contains("4 GiB required"));
}

// ---------------------------------------------------------------------------
// Further cases
// ---------------------------------------------------------------------------

#[test]
fn report_lists_checks_in_fixed_order() {
    let ids: Vec<String> = run_all_checks(&sample_facts()).into_iter().map(|c| c.id).collect();
    assert_eq!(ids, vec!["uefi", "ram", "disk_space", "secure_boot", "virt", "network"]);
}

#[test]
fn warnings_never_block() {
    let checks = vec![
        Check::new("secure_boot", "Secure Boot", Status::Warn, "x"),
        Check::new("network", "Network", Status::Warn, "x"),
    ];
    let require = strings(&["secure_boot", "network"]);
    assert!(!is_blocked(&checks, &require));
}

#[test]
fn nothing_required_never_blocks() {
    let checks = vec![fail("uefi"), fail("ram")];
    assert!(!is_blocked(&checks, &[]));
}

#[test]
fn resolved_pages_are_known_unique_and_complete() {
    let pages = PagesConfig {
        order: strings(&["summary", "summary", "disk", "storage", "bogus", "user", "user"]),
        disabled: strings(&["user", "finished"]),
    };
    let resolved = pages.resolve();
    assert_eq!(resolved, vec!["summary", "storage", "progress", "finished"]);
    let known = known_pages();
    for (i, p) in resolved.iter().enumerate() {
        assert!(known.contains(p));
        assert!(!resolved[i + 1..].contains(p));
    }
    for m in mandatory_pages() {
        assert!(resolved.contains(&m));
    }
}

#[test]
fn default_config_gates_on_hardware_basics() {
    let cfg = SiriusConfig::default();
    assert!(cfg.pages.order.is_empty());
    assert_eq!(cfg.diagnostics.require, vec!["uefi", "ram", "disk_space"]);
    assert_eq!(cfg.diagnostics.warn, vec!["secure_boot", "network", "virt"]);
    assert_eq!(cfg.diagnostics.min_ram_gib, DEFAULT_MIN_RAM_GIB);
    assert_eq!(default_min_ram_gib(), 2);
}

#[test]
fn loading_falls_back_with_a_warning() {
    let (cfg, warning) = SiriusConfig::from_loaded("/no/such/sirius.toml", None);
    assert_eq!(cfg, SiriusConfig::default());
    assert_eq!(warning.unwrap(), "no config at /no/such/sirius.toml; using built-in defaults");

    let (cfg, warning) =
        SiriusConfig::from_loaded("/etc/sirius/sirius.toml", Some(Err("expected `=`".to_string())));
    assert_eq!(cfg, SiriusConfig::default());
    assert_eq!(warning.unwrap(), "malformed config at /etc/sirius/sirius.toml: expected `=`");

    let mut custom = SiriusConfig::default();
    custom.diagnostics.min_ram_gib = 3;
    let (cfg, warning) = SiriusConfig::from_loaded("x", Some(Ok(custom.clone())));
    assert_eq!(cfg, custom);
    assert!(warning.is_none());
}

#[test]
fn ram_detail_rounds_half_to_even() {
    assert_eq!(
        fill_ram_detail("{available} GiB available (need {required} GiB)", 3 * GIB + GIB / 4, 2),
        "3.2 GiB available (need 2 GiB)"
    );
    assert_eq!(fill_ram_detail("{available}", 3 * GIB + 3 * GIB / 4, 2), "3.8");
    assert_eq!(fill_ram_detail("{available}", 0, 2), "0.0");
}

#[test]
fn ram_requirement_saturates() {
    assert_eq!(probe_ram(u64::MAX, u64::MAX).status, Status::Pass);
    assert_eq!(probe_ram(u64::MAX - 1, u64::MAX).status, Status::Fail);
}

#[test]
fn disk_detail_uses_whole_gib() {
    assert_eq!(
        fill_disk_detail("{available} GiB disk available (need {required} GiB)", 40 * GIB - 1, MIN_DISK_BYTES),
        "39 GiB disk available (need 20 GiB)"
    );
}

#[test]
fn virt_detail_names_the_kind() {
    assert_eq!(fill_virt_detail("inside ({kind})", "kvm"), "inside (kvm)");
    assert_eq!(probe_virt(Some("kvm")).detail, "running inside a virtual machine (kvm)");
}

#[test]
fn uefi_present_decides_status() {
    assert_eq!(probe_uefi_present(true).status, Status::Pass);
    assert_eq!(probe_uefi_present(false).status, Status::Fail);
    assert_eq!(probe_uefi_present(false).id, "uefi");
}

#[test]
fn largest_disk_skips_garbage() {
    assert_eq!(largest_disk_bytes("  100\n2000\nnope\n+30\n"), 2000);
    assert_eq!(largest_disk_bytes(""), 0);
    assert_eq!(largest_disk_bytes("99999999999999999999\n5\n"), 5);
}

#[test]
fn secure_boot_reads_fifth_byte() {
    assert_eq!(secure_boot_from_efivar(&vec![6, 0, 0, 0, 1]), Some(true));
    assert_eq!(secure_boot_from_efivar(&vec![6, 0, 0, 0, 0]), Some(false));
    assert_eq!(secure_boot_from_efivar(&vec![6, 0, 0]), None);
}

#[test]
fn virt_output_is_interpreted() {
    assert_eq!(virt_from_output(true, "kvm\n"), Some("kvm".to_string()));
    assert_eq!(virt_from_output(true, "none\n"), None);
    assert_eq!(virt_from_output(true, "   "), None);
    assert_eq!(virt_from_output(false, "kvm"), None);
}

#[test]
fn gather_interprets_readings() {
    let facts = SystemFacts::gather(
        4 * GIB,
        Some("1000\n3000\n".to_string()),
        Some(vec![0, 0, 0, 0, 1]),
        Some((true, "qemu\n".to_string())),
    );
    assert_eq!(facts.total_ram_bytes, 4 * GIB);
    assert_eq!(facts.largest_disk_bytes, 3000);
    assert_eq!(facts.secure_boot, Some(true));
    assert_eq!(facts.virt.as_deref(), Some("qemu"));
    assert!(!facts.online);
}

#[test]
fn lsblk_output_lists_only_targets() {
    let out = "NAME=\"sda\" SIZE=\"1000\" MODEL=\"  Big  \" TYPE=\"disk\" RO=\"0\"\r\n\
               NAME=\"loop1\" SIZE=\"1000\" MODEL=\"\" TYPE=\"loop\" RO=\"0\"\n\
               NAME=\"vdb\" SIZE=\"7\" TYPE=\"disk\" RO=\"0\"\n";
    let disks = disks_from_lsblk_output(out);
    assert_eq!(disks.len(), 2);
    assert_eq!(disks[0].path, "/dev/sda");
    assert_eq!(disks[0].model, "Big");
    assert_eq!(disks[1].path, "/dev/vdb");
    assert_eq!(disks[1].model, "Disk");
}

#[test]
fn lsblk_later_key_wins_and_malformed_size_drops() {
    let d = parse_lsblk_line(r#"NAME="sda" NAME="sdb" SIZE="10" TYPE="disk" RO="0""#).unwrap();
    assert_eq!(d.path, "/dev/sdb");
    assert!(parse_lsblk_line(r#"NAME="sda" SIZE="10x" TYPE="disk" RO="0""#).is_none());
    assert!(parse_lsblk_line(r#"NAME="sda" SIZE="10" TYPE="disk""#).is_none());
}

fn classification(checks: &[Check]) -> Vec<(String, Status)> {
    checks.iter().skip(1).map(|c| (c.id.clone(), c.status)).collect()
}

#[test]
fn plain_run_classifies_as_the_default_config_run() {
    let facts = sample_facts();
    let plain = run_all_checks(&facts);
    let configured = run_all_checks_with_config(&facts, &DiagnosticsConfig::default());
    assert_eq!(plain.len(), 6);
    assert_eq!(classification(&plain), classification(&configured));
}

#[test]
fn config_lists_never_reclassify_a_check() {
    let facts = SystemFacts::gather(GIB, None, Some(vec![6, 0, 0, 0, 0]), Some((true, "kvm\n".into())));
    let loose = DiagnosticsConfig { require: vec![], warn: vec![], min_ram_gib: 2 };
    let strict = DiagnosticsConfig {
        require: vec!["ram".into(), "virt".into()],
        warn: vec!["uefi".into()],
        min_ram_gib: 2,
    };
    let a = run_all_checks_with_config(&facts, &loose);
    let b = run_all_checks_with_config(&facts, &strict);
    assert_eq!(classification(&a), classification(&b));
    assert_eq!(a[1].status, Status::Fail);
    let huge = DiagnosticsConfig { require: vec![], warn: vec![], min_ram_gib: u64::MAX };
    assert_eq!(run_all_checks_with_config(&facts, &huge)[1].status, Status::Fail);
}

#[test]
fn each_check_outcome_has_its_own_texts() {
    let t = uefi_msgids(true);
    assert_eq!((t.label, t.detail), ("UEFI firmware", "EFI firmware detected"));
    assert_eq!(uefi_msgids(false).detail, "System booted in legacy BIOS mode; UEFI is required");
    assert_eq!(ram_msgids(true).detail, "{available} GiB available (need {required} GiB)");
    assert_eq!(ram_msgids(false).detail, "{available} GiB available, {required} GiB required");
    assert_eq!(ram_msgids(false).label, "Memory");
    assert_eq!(disk_space_msgids(true).detail, "{available} GiB disk available (need {required} GiB)");
    assert_eq!(disk_space_msgids(false).detail, "No disk large enough for the install image");
    assert_eq!(secure_boot_msgids(Some(true)).detail, "Secure Boot is enabled");
    assert_eq!(secure_boot_msgids(Some(false)).detail, "disabled; recommended for a secure system");
    assert_eq!(secure_boot_msgids(None).detail, "state could not be determined");
    assert_eq!(virt_msgids(true).detail, "running inside a virtual machine ({kind})");
    assert_eq!(virt_msgids(false).detail, "running on bare metal");
    assert_eq!(network_msgids(true).detail, "connected");
    assert_eq!(network_msgids(false).label, "Network");
}
