use sirius::choices::{layout_code, layout_names, status_icon, zone_at, zone_names};
use sirius::config_model::{InstallConfig, InstallType, MountAssignment, PartitionOperation, PartitionPlan, PartitionRef};
use sirius::diag::check::{Check, Status};
use sirius::diag::config::PagesConfig;
use sirius::diag::report::is_blocked;
use sirius::i18n::{tr, Lang};
use sirius::state::{confirm_body_msgid, confirm_disk, wizard_pages, NextOutcome, WizardState};
use sirius::storage::{calculate_free_regions, DiskSnapshot, FreeRegion, PartitionSnapshot, MIB};
use sirius::storage_page::{available_disks, disk_subtitle, StorageEvent, StorageModel};

const GIB: u64 = 1024 * MIB;

fn strings(items: &[&str]) -> Vec<String> {
    items.iter().map(|s| s.to_string()).collect()
}

#[test]
fn resolving_twice_changes_nothing() {
    let cases = vec![
        PagesConfig { order: vec![], disabled: strings(&["network"]) },
        PagesConfig { order: strings(&["disk", "user", "welcome", "user"]), disabled: strings(&["welcome"]) },
        PagesConfig { order: strings(&["bogus"]), disabled: vec![] },
    ];
    for c in cases {
        let once = c.resolve();
        let twice = PagesConfig { order: once.clone(), disabled: c.disabled.clone() }.resolve();
        assert_eq!(once, twice);
    }
}

#[test]
fn requiring_more_only_blocks_more() {
    let checks = vec![Check::new("ram", "Memory", Status::Fail, "x")];
    assert!(is_blocked(&checks, &strings(&["ram"])));
    assert!(is_blocked(&checks, &strings(&["ram", "uefi"])));
    assert!(!is_blocked(&checks, &strings(&["uefi"])));
}

#[test]
fn wizard_always_keeps_mandatory_pages() {
    let resolved = PagesConfig { order: strings(&["network", "welcome"]), disabled: vec![] }.resolve();
    assert_eq!(wizard_pages(&resolved, false), vec!["welcome", "storage", "progress", "finished"]);
    assert_eq!(
        wizard_pages(&resolved, true),
        vec!["network", "welcome", "storage", "progress", "finished"]
    );
    let pages = wizard_pages(&PagesConfig::default().resolve(), false);
    assert!(!pages.is_empty());
    assert!(!pages.contains(&"network".to_string()));
}

#[test]
fn translations_are_never_blank() {
    for key in ["nav.next", "summary.disk", "x", "storage.free"] {
        assert!(!tr(Lang::En, key).is_empty());
        assert!(!tr(Lang::PtBr, key).is_empty());
    }
}

fn esp_and_root_plan() -> PartitionPlan {
    PartitionPlan {
        disk_path: "/dev/sda".into(),
        disk_size_bytes: 40 * GIB,
        table_type: "gpt".into(),
        operations: vec![
            PartitionOperation::Create {
                id: "esp".into(),
                offset_bytes: MIB,
                size_bytes: 512 * MIB,
                gpt_type: "c12a7328-f81f-11d2-ba4b-00a0c93ec93b".into(),
                name: "EFI".into(),
                filesystem: "vfat".into(),
                label: "EFI".into(),
            },
            PartitionOperation::Create {
                id: "root".into(),
                offset_bytes: 513 * MIB,
                size_bytes: 30 * GIB,
                gpt_type: "0fc63daf-8483-4772-8e79-3d69d8477de4".into(),
                name: "Sirius".into(),
                filesystem: "btrfs".into(),
                label: "Sirius".into(),
            },
        ],
        mounts: vec![
            MountAssignment {
                target: PartitionRef::Planned { id: "esp".into() },
                mount_point: "/boot/efi".into(),
                filesystem: "vfat".into(),
                label: "EFI".into(),
            },
            MountAssignment {
                target: PartitionRef::Planned { id: "root".into() },
                mount_point: "/".into(),
                filesystem: "btrfs".into(),
                label: "Sirius".into(),
            },
        ],
    }
}

#[test]
fn uefi_valid_plans_are_bios_valid() {
    let plan = esp_and_root_plan();
    assert!(plan.validate(true).is_ok());
    assert!(plan.validate(false).is_ok());
    let mut no_esp = esp_and_root_plan();
    no_esp.mounts.remove(0);
    assert!(no_esp.validate(true).is_err());
    assert!(no_esp.validate(false).is_ok());
    let mut small_root = esp_and_root_plan();
    if let PartitionOperation::Create { size_bytes, .. } = &mut small_root.operations[1] {
        *size_bytes = 10 * GIB;
    }
    assert_eq!(small_root.validate(false).unwrap_err(), "the root partition must be at least 20 GiB");
}

fn part(start: u64, size: u64) -> PartitionSnapshot {
    PartitionSnapshot {
        path: "/dev/x".into(),
        start_bytes: start,
        size_bytes: size,
        filesystem: String::new(),
        label: String::new(),
        mountpoints: vec![],
        gpt_type: String::new(),
        part_uuid: String::new(),
    }
}

#[test]
fn free_regions_are_ordered_and_apart() {
    let parts = vec![part(10 * MIB, 10 * MIB), part(20 * MIB + MIB / 2, MIB), part(40 * MIB, 5 * MIB)];
    let free = calculate_free_regions(100 * MIB, &parts);
    assert_eq!(
        free,
        vec![
            FreeRegion { offset_bytes: MIB, size_bytes: 9 * MIB },
            FreeRegion { offset_bytes: 21 * MIB + MIB / 2, size_bytes: 18 * MIB + MIB / 2 },
            FreeRegion { offset_bytes: 45 * MIB, size_bytes: 55 * MIB },
        ]
    );
    for pair in free.windows(2) {
        assert!(pair[0].offset_bytes + pair[0].size_bytes <= pair[1].offset_bytes);
    }
    for r in &free {
        assert!(r.size_bytes > MIB);
    }
}

#[test]
fn summary_requires_confirmation_to_leave() {
    let mut state = WizardState::new(strings(&["summary", "progress", "finished"]), false, false);
    assert!(!state.next_visible());
    assert_eq!(state.request_next(), NextOutcome::NeedsConfirmation);
    assert_eq!(state.current_page(), "summary");
    assert!(state.confirm_install());
    assert_eq!(state.current_page(), "progress");
    assert!(!state.back_visible());
    let mut plain = WizardState::new(strings(&["welcome", "user"]), false, false);
    assert!(plain.next_visible());
    assert!(!plain.back_visible());
    assert_eq!(plain.request_next(), NextOutcome::Moved);
    assert!(plain.back_visible());
}

#[test]
fn confirmation_names_the_disk() {
    let mut cfg = InstallConfig { destination_disk: Some("/dev/sda".into()), ..Default::default() };
    assert_eq!(confirm_disk(&cfg).as_deref(), Some("/dev/sda"));
    cfg.destination_disk_name = Some("   ".into());
    assert_eq!(confirm_disk(&cfg).as_deref(), Some("/dev/sda"));
    cfg.destination_disk_name = Some("Samsung SSD".into());
    assert_eq!(confirm_disk(&cfg).as_deref(), Some("Samsung SSD"));
    assert!(confirm_body_msgid(&cfg).starts_with("All data"));
    cfg.install_type = Some(InstallType::Manual);
    assert!(confirm_body_msgid(&cfg).starts_with("The staged partition changes"));
    assert_eq!(confirm_disk(&InstallConfig::default()), None);
}

#[test]
fn fixed_choices() {
    assert_eq!(layout_code(1), "br");
    assert_eq!(layout_code(9), "us");
    assert_eq!(layout_names(), vec!["English (US)", "Portuguese (Brazil)"]);
    assert_eq!(zone_at(2), "Europe/London");
    assert_eq!(zone_at(99), "UTC");
    assert_eq!(zone_names().len(), 4);
    assert_eq!(status_icon(Status::Warn), ("dialog-warning-symbolic", "warning"));
    assert_eq!(status_icon(Status::Fail).1, "error");
}

fn disk(path: &str, in_use: bool) -> DiskSnapshot {
    DiskSnapshot {
        path: path.into(),
        model: "Disk".into(),
        size_bytes: 64 * GIB,
        table_type: "GPT".into(),
        read_only: false,
        in_use,
        partitions: vec![],
        free_regions: vec![FreeRegion { offset_bytes: MIB, size_bytes: 64 * GIB - MIB }],
    }
}

#[test]
fn picker_offers_disks_not_in_use() {
    let disks = vec![disk("/dev/sda", true), disk("/dev/sdb", false), disk("/dev/sdc", false)];
    assert_eq!(available_disks(&disks), vec![1, 2]);
    assert_eq!(disk_subtitle(&disks[1]), "/dev/sdb \u{2022} 64.0 GiB \u{2022} GPT");
}

#[test]
fn selecting_a_disk_starts_a_fitting_plan() {
    let mut m = StorageModel::new(vec![disk("/dev/sda", false), disk("/dev/sdb", false)], None, false);
    m.update(StorageEvent::Selected(1));
    let plan = m.plan.clone().unwrap();
    assert_eq!(plan.disk_path, "/dev/sdb");
    assert_eq!(plan.disk_size_bytes, 64 * GIB);
    assert_eq!(plan.table_type, "gpt");
    assert!(plan.operations.is_empty());
}
