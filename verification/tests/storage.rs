use sirius::config_model::{
    InstallConfig, MountAssignment, PartitionOperation, PartitionPlan, PartitionRef, UserAccount,
};
use sirius::draft::{PartitionDraft, PartitionSpec};
use sirius::i18n::Lang;
use sirius::lsblk::{
    disks_from_json, disks_from_lsblk_json, flag_field, number_field, parse_json, text_field, text_items,
};
use sirius::storage::{
    calculate_free_regions, disk_steps, format_size, node_in_use, operation_refs, resolve_mounts,
    BlockDevice,
    DiskSnapshot, DiskStep, FreeRegion, PartitionSnapshot, MIB,
};
use sirius::storage_editor::{
    dialog_prefill, disk_segments, disk_title, draft_is_dirty, DialogTarget, EditSource, existing_rows, filesystem_class, free_rows,
    partition_description,
    planned_rows, table_badge,
};
use sirius::storage_page::{StorageAction, StorageEvent, StorageModel};
use sirius::summary::summary_rows;

const GIB_BYTES: u64 = 1024 * 1024 * 1024;

fn valid_account() -> UserAccount {
    UserAccount {
        full_name: "Ada Lovelace".into(),
        username: "ada".into(),
        password: "hunter2hunter".into(),
        password_confirm: "hunter2hunter".into(),
        hostname: "localhost".into(),
    }
}

#[test]
fn valid_account_passes() {
    assert!(valid_account().validate().is_ok());
}

#[test]
fn default_account_is_empty() {
    assert!(UserAccount::default().is_empty());
}

#[test]
fn partial_account_is_not_empty() {
    let a = UserAccount { username: "ada".into(), ..Default::default() };
    assert!(!a.is_empty());
}

#[test]
fn mismatched_passwords_fail() {
    let mut a = valid_account();
    a.password_confirm = "different".into();
    assert_eq!(a.validate().unwrap_err(), "Passwords do not match");
}

#[test]
fn short_password_fails() {
    let mut a = valid_account();
    a.password = "short".into();
    a.password_confirm = "short".into();
    assert!(a.validate().unwrap_err().contains("at least 8"));
}

#[test]
fn bad_username_fails() {
    let mut a = valid_account();
    a.username = "Ada Lovelace".into();
    assert!(a.validate().is_err());
}

fn valid_partition_plan() -> PartitionPlan {
    let mib = 1024 * 1024;
    let gib = 1024 * mib;
    PartitionPlan {
        disk_path: "/dev/sda".into(),
        disk_size_bytes: 40 * gib,
        table_type: "gpt".into(),
        operations: vec![
            PartitionOperation::Create {
                id: "esp".into(),
                offset_bytes: mib,
                size_bytes: 512 * mib,
                gpt_type: "c12a7328-f81f-11d2-ba4b-00a0c93ec93b".into(),
                name: "EFI".into(),
                filesystem: "vfat".into(),
                label: "EFI".into(),
            },
            PartitionOperation::Create {
                id: "root".into(),
                offset_bytes: 513 * mib,
                size_bytes: 30 * gib,
                gpt_type: "0fc63daf-8483-4772-8e79-3d69d8477de4".into(),
                name: "Sirius".into(),
                filesystem: "btrfs".into(),
                label: "Sirius".into(),
            },
        ],
        mounts: vec![
            MountAssignment {
                target: PartitionRef::Planned { id: "esp".into() },
                mount_point: "/boot/efi".into(),
                filesystem: "vfat".into(),
                label: "EFI".into(),
            },
            MountAssignment {
                target: PartitionRef::Planned { id: "root".into() },
                mount_point: "/".into(),
                filesystem: "btrfs".into(),
                label: "Sirius".into(),
            },
        ],
    }
}

#[test]
fn manual_plan_requires_valid_root_and_efi() {
    assert!(valid_partition_plan().validate(true).is_ok());
    let mut missing_efi = valid_partition_plan();
    missing_efi.mounts.retain(|mount| mount.mount_point != "/boot/efi");
    assert!(missing_efi.validate(true).unwrap_err().contains("EFI"));
}

#[test]
fn manual_plan_rejects_overlap_and_unknown_filesystem() {
    let mut overlap = valid_partition_plan();
    if let PartitionOperation::Create { offset_bytes, .. } = &mut overlap.operations[1] {
        *offset_bytes = 256 * 1024 * 1024;
    }
    assert!(overlap.validate(true).unwrap_err().contains("overlap"));

    let mut unknown = valid_partition_plan();
    if let PartitionOperation::Create { filesystem, .. } = &mut unknown.operations[1] {
        *filesystem = "xfs".into();
    }
    assert!(unknown.validate(true).unwrap_err().contains("unsupported"));
}

fn part(path: &str, start: u64, size: u64, fs: &str, label: &str, mounts: &[&str]) -> PartitionSnapshot {
    PartitionSnapshot {
        path: path.into(),
        start_bytes: start,
        size_bytes: size,
        filesystem: fs.into(),
        label: label.into(),
        mountpoints: mounts.iter().map(|m| m.to_string()).collect(),
        gpt_type: String::new(),
        part_uuid: String::new(),
    }
}

#[test]
fn free_regions_account_for_partitions() {
    let parts = vec![part("/dev/sda1", MIB, 100 * MIB, "ext4", "", &[])];
    assert_eq!(calculate_free_regions(200 * MIB, &parts)[0].size_bytes, 99 * MIB);
}

fn node(mounts: &[&str], children: Vec<BlockDevice>) -> BlockDevice {
    BlockDevice {
        path: String::new(),
        device_type: String::new(),
        size_bytes: 0,
        start_sectors: 0,
        fstype: String::new(),
        label: String::new(),
        mountpoints: mounts.iter().map(|m| m.to_string()).collect(),
        parttype: String::new(),
        partuuid: String::new(),
        model: String::new(),
        pttype: String::new(),
        read_only: false,
        logical_sector_size: 0,
        children,
    }
}

#[test]
fn mounted_nested_mapper_marks_whole_disk_in_use() {
    let tree = node(&[], vec![node(&[], vec![node(&["/"], vec![])])]);
    assert!(node_in_use(&tree));
    assert!(!node_in_use(&node(&[""], vec![node(&[], vec![])])));
}

fn disk() -> DiskSnapshot {
    DiskSnapshot {
        path: "/dev/sda".into(),
        model: "Test disk".into(),
        size_bytes: 64 * GIB_BYTES,
        table_type: "GPT".into(),
        read_only: false,
        in_use: false,
        partitions: vec![PartitionSnapshot {
            path: "/dev/sda1".into(),
            start_bytes: GIB_BYTES,
            size_bytes: 4 * GIB_BYTES,
            filesystem: "ext4".into(),
            label: "old".into(),
            mountpoints: Vec::new(),
            gpt_type: String::new(),
            part_uuid: "uuid".into(),
        }],
        free_regions: vec![FreeRegion { offset_bytes: 5 * GIB_BYTES, size_bytes: 59 * GIB_BYTES }],
    }
}

fn root_spec() -> PartitionSpec {
    PartitionSpec {
        size_bytes: 30 * GIB_BYTES,
        filesystem: "btrfs".into(),
        mount_point: "/".into(),
        label: "root".into(),
    }
}

#[test]
fn create_consumes_free_space_and_adds_mount() {
    let disk = disk();
    let mut draft = PartitionDraft::new(&disk, None).unwrap();
    draft.create(0, root_spec()).unwrap();
    assert_eq!(draft.plan().mounts.len(), 1);
    assert_eq!(draft.remaining_region(0).unwrap().size_bytes, 29 * GIB_BYTES);
}

#[test]
fn oversized_create_is_rejected_without_mutating_the_plan() {
    let disk = disk();
    let mut draft = PartitionDraft::new(&disk, None).unwrap();
    let mut spec = root_spec();
    spec.size_bytes = 60 * GIB_BYTES;
    assert!(draft.create(0, spec).is_err());
    assert!(draft.plan().operations.is_empty());
}

#[test]
fn edit_replaces_previous_format_and_mount() {
    let disk = disk();
    let mut draft = PartitionDraft::new(&disk, None).unwrap();
    draft.edit_existing(0, root_spec()).unwrap();
    let mut spec = root_spec();
    spec.filesystem = "ext4".into();
    draft.edit_existing(0, spec).unwrap();
    assert_eq!(draft.plan().operations.len(), 1);
    assert_eq!(draft.plan().mounts.len(), 1);
    assert!(matches!(
        &draft.plan().operations[0],
        PartitionOperation::Format { filesystem, .. } if filesystem == "ext4"
    ));
}

#[test]
fn existing_and_planned_partitions_can_be_deleted() {
    let disk = disk();
    let mut draft = PartitionDraft::new(&disk, None).unwrap();
    draft.delete_existing(0).unwrap();
    assert!(matches!(draft.plan().operations.last(), Some(PartitionOperation::Delete { .. })));

    draft.create(0, root_spec()).unwrap();
    let id = draft
        .plan()
        .operations
        .iter()
        .find_map(|operation| match operation {
            PartitionOperation::Create { id, .. } => Some(id.clone()),
            _ => None,
        })
        .unwrap();
    draft.delete_planned(&id).unwrap();
    assert!(!draft.plan().operations.iter().any(|operation| {
        matches!(operation, PartitionOperation::Create { id: current, .. } if current == &id)
    }));
}

#[test]
fn into_plan_commits_only_the_owned_draft() {
    let disk = disk();
    let committed = PartitionDraft::empty_plan(&disk);
    let mut draft = PartitionDraft::new(&disk, Some(&committed)).unwrap();
    draft.create(0, root_spec()).unwrap();
    assert!(committed.operations.is_empty());
    assert!(!draft.into_plan().operations.is_empty());
}

fn all_pages() -> Vec<String> {
    ["welcome", "keyboard", "timezone", "storage", "user"].map(String::from).to_vec()
}

#[test]
fn summary_lists_disk_and_user() {
    let cfg = InstallConfig {
        destination_disk: Some("/dev/sda".into()),
        user: UserAccount { full_name: "Ada".into(), username: "ada".into(), ..Default::default() },
        ..Default::default()
    };
    let rows = summary_rows(Lang::En, &cfg, &all_pages());
    let text = rows.iter().map(|(l, v)| format!("{l}: {v}")).collect::<Vec<_>>().join("\n");
    assert!(text.contains("/dev/sda"));
    assert!(text.contains("Ada (ada)"));
    assert!(text.contains("Hostname"));
}

#[test]
fn summary_skips_user_rows_when_empty() {
    let cfg = InstallConfig::default();
    let rows = summary_rows(Lang::En, &cfg, &all_pages());
    assert_eq!(rows.len(), 5);
    assert!(!rows.iter().any(|(l, _)| l == "User"));
}

#[test]
fn summary_omits_rows_for_disabled_pages() {
    let pages: Vec<String> =
        ["welcome", "diagnostics", "network", "storage"].map(String::from).to_vec();
    let cfg = InstallConfig { destination_disk: Some("/dev/sda".into()), ..Default::default() };
    let labels: Vec<String> =
        summary_rows(Lang::En, &cfg, &pages).into_iter().map(|(l, _)| l).collect();
    assert_eq!(labels, ["Language", "Disk", "Encryption"]);
}

// ---------------------------------------------------------------------------
// Further cases
// ---------------------------------------------------------------------------

#[test]
fn summary_values_use_dash_and_disk_name() {
    let mut cfg = InstallConfig { destination_disk: Some("/dev/sda".into()), ..Default::default() };
    let rows = summary_rows(Lang::En, &cfg, &all_pages());
    assert_eq!(rows[0].1, "\u{2014}");
    assert_eq!(rows[3].1, "/dev/sda");
    assert_eq!(rows[4].1, "disabled");
    cfg.destination_disk_name = Some("Fast SSD".into());
    cfg.encrypt = true;
    let rows = summary_rows(Lang::En, &cfg, &all_pages());
    assert_eq!(rows[3].1, "Fast SSD");
    assert_eq!(rows[4].1, "enabled");
}

#[test]
fn sizes_are_formatted_for_people() {
    assert_eq!(format_size(512 * MIB), "512 MiB");
    assert_eq!(format_size(GIB_BYTES + GIB_BYTES / 2), "1.5 GiB");
    assert_eq!(format_size(0), "0 MiB");
    assert_eq!(format_size(29 * GIB_BYTES + GIB_BYTES / 2), "29.5 GiB");
}

#[test]
fn plan_steps_delete_then_create_then_format() {
    let mut plan = valid_partition_plan();
    plan.operations.push(PartitionOperation::Format {
        target: PartitionRef::Planned { id: "root".into() },
        filesystem: "ext4".into(),
        label: "  ".into(),
    });
    plan.operations.insert(
        0,
        PartitionOperation::Create {
            id: "x".into(),
            offset_bytes: 1,
            size_bytes: 1,
            gpt_type: "t".into(),
            name: "n".into(),
            filesystem: "ext4".into(),
            label: "".into(),
        },
    );
    plan.operations.push(PartitionOperation::Delete {
        target: PartitionRef::Existing { path: "/dev/sda9".into(), start_bytes: 0, size_bytes: 0, part_uuid: None },
    });
    let steps = disk_steps(&plan);
    assert_eq!(steps.len(), 5);
    assert!(matches!(&steps[0], DiskStep::Delete { .. }));
    assert!(matches!(&steps[1], DiskStep::Create { id, label: None, .. } if id == "x"));
    assert!(matches!(&steps[2], DiskStep::Create { id, label: Some(l), .. } if id == "esp" && l == "EFI"));
    assert!(matches!(&steps[4], DiskStep::Format { label: None, .. }));
}

#[test]
fn mounts_resolve_planned_devices() {
    let plan = valid_partition_plan();
    let planned = vec![("esp".to_string(), "/dev/sda1".to_string()), ("root".to_string(), "/dev/sda2".to_string())];
    let mounts = resolve_mounts(&plan.mounts, &planned).unwrap();
    assert_eq!(mounts[1].device, "/dev/sda2");
    assert_eq!(mounts[1].mount_point, "/");
    assert_eq!(mounts[0].label.as_deref(), Some("EFI"));
    let err = resolve_mounts(&plan.mounts, &planned[..1].to_vec()).unwrap_err();
    assert_eq!(err, "planned partition has no device yet: root");
}

#[test]
fn editor_describes_partitions() {
    let efi = part("/dev/sda1", 0, 1, "vfat", "", &[]);
    assert_eq!(partition_description(&efi, Lang::En), "EFI System Partition");
    let data = part("/dev/sda2", 0, 1, "xfs", "", &[]);
    assert_eq!(partition_description(&data, Lang::En), "XFS");
    let labelled = part("/dev/sda3", 0, 1, "ext4", "home", &[]);
    assert_eq!(partition_description(&labelled, Lang::En), "home");
    assert_eq!(filesystem_class("btrfs"), "partition-linux");
    assert_eq!(filesystem_class("ntfs"), "partition-ntfs");
    assert_eq!(filesystem_class("zfs"), "partition-free");
}

#[test]
fn disk_map_orders_segments_by_offset() {
    let disk = disk();
    let mut draft = PartitionDraft::new(&disk, None).unwrap();
    draft.create(0, root_spec()).unwrap();
    draft.delete_existing(0).unwrap();
    let segments = disk_segments(&disk, Some(draft.plan()), Lang::En);
    assert_eq!(segments.len(), 3);
    assert_eq!(segments[0].offset_bytes, GIB_BYTES);
    assert!(segments[0].pending_delete);
    assert_eq!(segments[0].label, "old");
    assert_eq!(segments[1].offset_bytes, 5 * GIB_BYTES);
    assert_eq!(segments[1].label, "root");
    assert_eq!(segments[2].offset_bytes, 35 * GIB_BYTES);
    assert_eq!(segments[2].size_bytes, 29 * GIB_BYTES);
    for pair in segments.windows(2) {
        assert!(pair[0].offset_bytes <= pair[1].offset_bytes);
    }
}

#[test]
fn editor_rows_follow_the_plan() {
    let disk = disk();
    let mut draft = PartitionDraft::new(&disk, None).unwrap();
    draft.create(0, root_spec()).unwrap();
    let rows = existing_rows(&disk, Some(draft.plan()), Lang::En);
    assert_eq!(rows.len(), 1);
    assert!(rows[0].edit_enabled && rows[0].delete_enabled);
    assert_eq!(rows[0].title, "/dev/sda1 (old)");
    let free = free_rows(&disk, Some(draft.plan()), Lang::En);
    assert_eq!(free[0].size_bytes, 29 * GIB_BYTES);
    assert!(free[0].add_enabled);
    let planned = planned_rows(draft.plan(), Lang::En);
    assert_eq!(planned.len(), 1);
    assert_eq!(planned[0].title, "root");
    assert!(planned[0].subtitle.ends_with("/"));
    assert_eq!(disk_title(&disk), "/dev/sda (Test disk \u{2014} 64.0 GiB)");
    assert!(table_badge(&disk, Lang::En).ends_with(": GPT"));
}

fn model() -> StorageModel {
    StorageModel::new(vec![disk()], None, true)
}

#[test]
fn storage_page_reports_selection() {
    let mut m = model();
    let actions = m.update(StorageEvent::Selected(0));
    assert_eq!(actions.len(), 1);
    match &actions[0] {
        StorageAction::Emit(sel) => {
            assert_eq!(sel.path, "/dev/sda");
            assert_eq!(sel.name, "Test disk");
            assert!(sel.partition_plan.is_none());
        }
        _ => panic!("expected a selection"),
    }
    let actions = m.update(StorageEvent::ToggleEncrypt(true));
    assert!(matches!(&actions[0], StorageAction::Emit(sel) if sel.encrypt));
    m.update(StorageEvent::ToggleTpm(true));
    assert!(m.tpm);
    m.update(StorageEvent::ToggleEncrypt(false));
    assert!(!m.tpm);
    assert!(m.update(StorageEvent::Selected(7)).is_empty());
}

#[test]
fn storage_page_edits_and_applies_a_draft() {
    let mut m = model();
    m.update(StorageEvent::Selected(0));
    m.update(StorageEvent::SetManual(true));
    let actions = m.update(StorageEvent::OpenCustom);
    assert!(matches!(actions.last(), Some(StorageAction::OpenEditor)));
    assert!(m.editor_open);
    let actions = m.update(StorageEvent::OpenCreate(0));
    assert!(matches!(&actions[0], StorageAction::ShowCreateDialog { region: 0, .. }));
    m.update(StorageEvent::Create { region: 0, spec: root_spec() });
    assert!(m.editor_error.is_none());
    let actions = m.update(StorageEvent::ApplyCustom);
    assert!(m.editor_error.is_some());
    assert!(matches!(actions.last(), Some(StorageAction::RefreshEditor)));
    m.update(StorageEvent::CloseCustom);
    assert!(!m.editor_open);
    assert!(m.editor_draft.is_none());
}

#[test]
fn operation_references_are_the_targets() {
    let target = PartitionRef::Planned { id: "root".into() };
    let format = PartitionOperation::Format {
        target: target.clone(),
        filesystem: "ext4".into(),
        label: "".into(),
    };
    assert_eq!(operation_refs(&format), vec![target.clone()]);
    let delete = PartitionOperation::Delete { target: target.clone() };
    assert_eq!(operation_refs(&delete), vec![target]);
    let create = PartitionOperation::Create {
        id: "x".into(),
        offset_bytes: 1,
        size_bytes: 1,
        gpt_type: "t".into(),
        name: "n".into(),
        filesystem: "ext4".into(),
        label: "".into(),
    };
    assert!(operation_refs(&create).is_empty());
}

#[test]
fn a_draft_is_dirty_once_it_stages_an_operation() {
    let disk = disk();
    let mut draft = PartitionDraft::new(&disk, None).unwrap();
    assert!(!draft_is_dirty(None));
    assert!(!draft_is_dirty(Some(&draft)));
    draft.delete_existing(0).unwrap();
    assert!(draft_is_dirty(Some(&draft)));
}

const LSBLK_JSON: &str = r#"{
  "blockdevices": [
    {"name": "sda", "path": "/dev/sda", "type": "disk", "size": 34359738368, "start": null,
     "fstype": null, "label": null, "mountpoints": [null], "parttype": null, "partuuid": null,
     "model": "QEMU HARDDISK  ", "pttype": "gpt", "ro": false, "log-sec": 512,
     "children": [
       {"name": "sda2", "path": "/dev/sda2", "type": "part", "size": "1073741824", "start": "2099200",
        "fstype": "ext4", "label": "boot", "mountpoints": [""], "parttype": "t2", "partuuid": "u2",
        "model": null, "pttype": "gpt", "ro": 0, "log-sec": 512},
       {"name": "sda1", "path": "/dev/sda1", "type": "part", "size": 1073741824, "start": 2048,
        "fstype": "vfat", "label": "EFI", "mountpoints": [], "parttype": "t1", "partuuid": "u1",
        "model": null, "pttype": "gpt", "ro": 0, "log-sec": 512}
     ]},
    {"name": "sr0", "path": "/dev/sr0", "type": "rom", "size": 1024, "ro": 1, "log-sec": 2048},
    {"name": "zram0", "path": "/dev/zram0", "type": "disk", "size": 1024, "ro": 0, "log-sec": 4096},
    {"name": "sdb", "path": "/dev/sdb", "type": "disk", "size": 8589934592, "ro": "1", "log-sec": 512}
  ]
}"#;

#[test]
fn lsblk_json_gives_the_install_targets() {
    let disks = disks_from_lsblk_json(LSBLK_JSON.as_bytes()).unwrap();
    assert_eq!(disks.len(), 2);
    let sda = &disks[0];
    assert_eq!(sda.path, "/dev/sda");
    assert_eq!(sda.model, "QEMU HARDDISK");
    assert_eq!(sda.table_type, "GPT");
    assert!(!sda.in_use);
    assert_eq!(sda.partitions.len(), 2);
    assert_eq!(sda.partitions[0].path, "/dev/sda1");
    assert_eq!(sda.partitions[0].start_bytes, 2048 * 512);
    assert_eq!(sda.partitions[1].path, "/dev/sda2");
    assert_eq!(sda.partitions[1].size_bytes, 1073741824);
    assert_eq!(sda.partitions[1].start_bytes, 2099200 * 512);
    assert!(sda.partitions[1].mountpoints.is_empty());
    // "ro": "1" is a string, not a flag, so the disk counts as writable.
    assert_eq!(disks[1].path, "/dev/sdb");
    assert_eq!(disks[1].model, "/dev/sdb");
}

#[test]
fn lsblk_json_reports_mounted_disks() {
    let json = r#"{"blockdevices": [{"path": "/dev/vda", "type": "disk", "size": 100, "ro": 0,
        "children": [{"path": "/dev/vda1", "type": "part", "size": 10, "start": 1,
        "mountpoints": ["/"]}]}]}"#;
    let disks = disks_from_lsblk_json(json.as_bytes()).unwrap();
    assert_eq!(disks.len(), 1);
    assert!(disks[0].in_use);
    assert_eq!(disks[0].partitions[0].mountpoints, vec!["/".to_string()]);
}

#[test]
fn lsblk_json_rejects_what_is_not_json() {
    let err = disks_from_lsblk_json(b"not json").unwrap_err();
    assert!(err.starts_with("invalid lsblk output: "));
    assert!(disks_from_lsblk_json(b"{}").unwrap().is_empty());
    assert!(disks_from_lsblk_json(b"[1, 2]").unwrap().is_empty());
}

#[test]
fn json_fields_accept_numbers_as_text_and_flags_as_numbers() {
    let node = parse_json(br#"{"size": "42", "start": 7, "ro": 1, "rw": false, "bad": "x", "m": ["a", 3, "b"]}"#)
        .unwrap();
    assert_eq!(number_field(&node, "size"), 42);
    assert_eq!(number_field(&node, "start"), 7);
    assert_eq!(number_field(&node, "bad"), 0);
    assert_eq!(number_field(&node, "missing"), 0);
    assert!(flag_field(&node, "ro"));
    assert!(!flag_field(&node, "rw"));
    assert_eq!(text_items(&node, "m"), vec!["a".to_string(), "b".to_string()]);
    assert_eq!(text_field(&node, "size"), "42");
    assert_eq!(text_field(&node, "start"), "");
}

fn plan_with_root_type(gpt_type: &str) -> PartitionPlan {
    let mut plan = valid_partition_plan();
    if let PartitionOperation::Create { gpt_type: t, .. } = &mut plan.operations[1] {
        *t = gpt_type.into();
    }
    plan
}

#[test]
fn partition_types_take_every_uuid_form() {
    for form in [
        "0fc63daf-8483-4772-8e79-3d69d8477de4",
        "0FC63DAF-8483-4772-8E79-3D69D8477DE4",
        "0fc63daf848347728e793d69d8477de4",
        "{0fc63daf-8483-4772-8e79-3d69d8477de4}",
        "URN:uuid:0fc63daf-8483-4772-8e79-3d69d8477de4",
    ] {
        assert!(plan_with_root_type(form).validate(true).is_ok(), "{form}");
    }
    for form in [
        "0fc63daf-8483-4772-8e79-3d69d8477de",
        "0fc63daf_8483_4772_8e79_3d69d8477de4",
        "urn:uuid:{0fc63daf-8483-4772-8e79-3d69d8477de4}",
        "0fc63daf-8483-4772-8e79-3d69d8477dg4",
        "not-a-uuid",
    ] {
        assert!(plan_with_root_type(form).validate(true).is_err(), "{form}");
    }
}

fn is_random_uuid_text(s: &str) -> bool {
    let b = s.as_bytes();
    b.len() == 36
        && b.iter().enumerate().all(|(i, c)| {
            if [8, 13, 18, 23].contains(&i) {
                *c == b'-'
            } else {
                c.is_ascii_digit() || (b'a'..=b'f').contains(c)
            }
        })
        && b[14] == b'4'
        && [b'8', b'9', b'a', b'b'].contains(&b[19])
}

#[test]
fn created_partitions_get_random_uuid_ids() {
    let disk = disk();
    let mut draft = PartitionDraft::new(&disk, None).unwrap();
    draft.create(0, root_spec()).unwrap();
    let id = draft
        .plan()
        .operations
        .iter()
        .find_map(|operation| match operation {
            PartitionOperation::Create { id, .. } => Some(id.clone()),
            _ => None,
        })
        .unwrap();
    assert!(is_random_uuid_text(&id), "{id}");
}

fn snapshot_part(filesystem: &str, mounts: &[&str]) -> PartitionSnapshot {
    PartitionSnapshot {
        path: "/dev/sda2".into(),
        start_bytes: MIB,
        size_bytes: 4 * GIB_BYTES,
        filesystem: filesystem.into(),
        label: "data".into(),
        mountpoints: mounts.iter().map(|m| m.to_string()).collect(),
        gpt_type: "t".into(),
        part_uuid: "u".into(),
    }
}

#[test]
fn partition_form_prefills_from_its_source() {
    let free = FreeRegion { offset_bytes: MIB, size_bytes: 9 * GIB_BYTES };
    let create = dialog_prefill(&DialogTarget::Create(0, free), &None);
    assert_eq!(create.filesystem_index, 0);
    assert_eq!(create.spec.filesystem, "btrfs");
    assert_eq!((create.max_size_bytes, create.spec.size_bytes), (9 * GIB_BYTES, 9 * GIB_BYTES));
    assert!(create.size_editable);
    assert_eq!(create.spec.mount_point, "");

    let existing = Some(EditSource::Existing(snapshot_part("vfat", &["/boot/efi", "/efi"])));
    let edit = dialog_prefill(&DialogTarget::Edit(1), &existing);
    assert_eq!(edit.filesystem_index, 2);
    assert_eq!(edit.spec.filesystem, "vfat");
    assert_eq!(edit.spec.mount_point, "/boot/efi");
    assert_eq!(edit.spec.label, "data");
    assert_eq!(edit.spec.size_bytes, 4 * GIB_BYTES);
    assert!(!edit.size_editable);

    let ntfs = Some(EditSource::Existing(snapshot_part("ntfs", &[])));
    let odd = dialog_prefill(&DialogTarget::Edit(1), &ntfs);
    assert_eq!((odd.filesystem_index, odd.spec.filesystem.as_str()), (0, "btrfs"));
    assert_eq!(odd.spec.mount_point, "");

    let planned = Some(EditSource::Planned {
        filesystem: "swap".into(),
        size_bytes: 2 * GIB_BYTES,
        max_size_bytes: 6 * GIB_BYTES,
        mount_point: "".into(),
        label: "swap".into(),
    });
    let edit_planned = dialog_prefill(&DialogTarget::EditPlanned("p".into()), &planned);
    assert_eq!(edit_planned.filesystem_index, 3);
    assert_eq!((edit_planned.max_size_bytes, edit_planned.spec.size_bytes), (6 * GIB_BYTES, 2 * GIB_BYTES));
    assert!(edit_planned.size_editable);
    let mismatched = dialog_prefill(&DialogTarget::EditPlanned("p".into()), &existing);
    assert_eq!((mismatched.max_size_bytes, mismatched.spec.size_bytes), (GIB_BYTES, GIB_BYTES));
}

#[test]
fn parsed_lsblk_documents_give_disks() {
    let root = parse_json(LSBLK_JSON.as_bytes()).unwrap();
    let disks = disks_from_json(&root);
    assert_eq!(disks.len(), 2);
    assert_eq!(disks[0].path, "/dev/sda");
    let not_a_listing = parse_json(br#"{"blockdevices": 3}"#).unwrap();
    assert!(disks_from_json(&not_a_listing).is_empty());
}
