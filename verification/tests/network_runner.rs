use sirius::distro::{
    capped_launch_args, fallback_browser_argv, parse_error_message, read_error_message,
    strip_field_codes, Bento, BootcConfig, Branding, DiskConfig, DistroDescriptor,
};
use sirius::logging::{log_file_name, log_path};
use sirius::network::{
    check_wifi_credentials, classify_security, has_wifi_device, network_from_access_point,
    security_msgid, signal_icon, wifi_device_positions,
    strongest_networks, wifi_settings, wifi_settings_with_id, NetworkAction, NetworkEvent,
    NetworkPageState, RowTrailer, SettingValue, WifiNetwork, WifiSecurity, SEC_KEY_MGMT_PSK,
    SEC_KEY_MGMT_SAE,
};
use sirius::runner::{
    check_target_disk, explain_exit, failure_message, fill_post_module, keep_tail,
    validate_target_path, STDERR_TAIL,
};
use sirius::storage::DiskSnapshot;

#[test]
fn security_classification_rejects_enterprise_and_wep() {
    assert_eq!(classify_security(0, 0, 0), WifiSecurity::Open);
    assert_eq!(classify_security(1, SEC_KEY_MGMT_PSK, 0), WifiSecurity::WpaPersonal);
    assert_eq!(classify_security(1, 0, SEC_KEY_MGMT_SAE), WifiSecurity::Wpa3Personal);
    assert_eq!(classify_security(1, 0, 0), WifiSecurity::Unsupported);
}

#[test]
fn explains_pkexec_codes() {
    assert!(explain_exit(Some(127), true).contains("polkit"));
    assert!(explain_exit(Some(126), true).contains("dismissed"));
    assert_eq!(explain_exit(Some(1), false), "installer exited with status 1");
    assert!(explain_exit(None, true).contains("signal"));
}

#[test]
fn rejects_non_dev_paths() {
    assert!(validate_target_path("/etc/passwd").is_err());
    assert!(validate_target_path("/dev/../etc/passwd").is_err());
    assert!(validate_target_path("dev/sda").is_err());
}

// ---------------------------------------------------------------------------
// Further cases
// ---------------------------------------------------------------------------

fn net(ssid: &str, strength: u8, security: WifiSecurity, active: bool) -> WifiNetwork {
    WifiNetwork {
        ssid: ssid.into(),
        strength,
        security,
        device: "/dev/0".into(),
        access_point: format!("/ap/{ssid}/{strength}"),
        active,
    }
}

#[test]
fn accepts_dev_paths() {
    assert!(validate_target_path("/dev/sda").is_ok());
    assert!(validate_target_path("//dev/./nvme0n1").is_ok());
    assert!(validate_target_path("/dev").is_ok());
    assert!(validate_target_path("/devices/sda").is_err());
    assert!(validate_target_path("").is_err());
    assert_eq!(
        validate_target_path("/tmp/x").unwrap_err(),
        "target disk must be an absolute /dev path: /tmp/x"
    );
}

#[test]
fn target_must_be_a_free_listed_disk() {
    let disk = |path: &str, in_use: bool| DiskSnapshot {
        path: path.into(),
        model: "m".into(),
        size_bytes: 1,
        table_type: "GPT".into(),
        read_only: false,
        in_use,
        partitions: vec![],
        free_regions: vec![],
    };
    let disks = vec![disk("/dev/sda", true), disk("/dev/sdb", false)];
    assert!(check_target_disk("/dev/sdb", &disks).is_ok());
    assert!(check_target_disk("/dev/sda", &disks).unwrap_err().contains("mounted filesystems"));
    assert!(check_target_disk("/dev/sdc", &disks).unwrap_err().contains("not a supported whole disk"));
}

#[test]
fn failure_message_appends_stderr_tail() {
    let mut tail = Vec::new();
    for i in 0..25 {
        keep_tail(&mut tail, format!("line {i}"), STDERR_TAIL);
    }
    assert_eq!(tail.len(), 20);
    assert_eq!(tail[0], "line 5");
    assert_eq!(tail[19], "line 24");
    let short = vec!["a".to_string(), "b".to_string()];
    assert_eq!(
        failure_message(Some(2), false, &short),
        "installer exited with status 2\n--- stderr ---\na\nb"
    );
    assert_eq!(failure_message(Some(-3), true, &vec![]), "installer exited with status -3");
    assert_eq!(
        explain_exit(Some(127), true),
        "polkit authorization failed (pkexec exit 127) \u{2014} is a polkit authentication agent running in this session?"
    );
    assert_eq!(explain_exit(Some(126), false), "installer exited with status 126");
}

#[test]
fn post_module_line_is_filled() {
    assert_eq!(
        fill_post_module("post-install: {name} ({index}/{total})", "dracut", 2, 5),
        "post-install: dracut (2/5)"
    );
}

#[test]
fn networks_are_ranked_and_deduplicated() {
    let list = vec![
        net("home", 40, WifiSecurity::WpaPersonal, false),
        net("cafe", 90, WifiSecurity::Open, false),
        net("home", 70, WifiSecurity::WpaPersonal, false),
        net("work", 10, WifiSecurity::Wpa3Personal, true),
        net("home", 95, WifiSecurity::Wpa3Personal, false),
    ];
    let shown = strongest_networks(list);
    let names: Vec<(String, u8)> = shown.iter().map(|n| (n.ssid.clone(), n.strength)).collect();
    assert_eq!(
        names,
        vec![
            ("work".to_string(), 10),
            ("home".to_string(), 95),
            ("cafe".to_string(), 90),
            ("home".to_string(), 70),
        ]
    );
}

#[test]
fn hidden_networks_are_skipped() {
    assert!(network_from_access_point("  ".into(), 50, 0, 0, 0, "d".into(), "a".into(), false).is_none());
    let n = network_from_access_point("lab".into(), 50, 1, 0, SEC_KEY_MGMT_SAE, "d".into(), "a".into(), true).unwrap();
    assert_eq!(n.security, WifiSecurity::Wpa3Personal);
    assert!(n.active);
}

#[test]
fn credentials_are_checked_before_connecting() {
    let open = net("cafe", 90, WifiSecurity::Open, false);
    assert!(check_wifi_credentials(&open, "").is_ok());
    let wpa = net("home", 90, WifiSecurity::WpaPersonal, false);
    assert_eq!(
        check_wifi_credentials(&wpa, "short").unwrap_err(),
        "the Wi-Fi password must contain at least 8 characters"
    );
    assert!(check_wifi_credentials(&wpa, "ééééé").is_ok());
    let ent = net("corp", 90, WifiSecurity::Unsupported, false);
    assert_eq!(
        check_wifi_credentials(&ent, "whatever-long").unwrap_err(),
        "this network uses an unsupported enterprise or legacy security mode"
    );
}

#[test]
fn wifi_profile_has_security_only_when_needed() {
    let wpa3 = net("home", 90, WifiSecurity::Wpa3Personal, false);
    let sections = wifi_settings_with_id(&wpa3, "secret-pass", "1234");
    assert_eq!(sections.len(), 5);
    assert_eq!(sections[0].0, "connection");
    assert_eq!(sections[0].1[1], ("uuid".to_string(), SettingValue::Text("1234".into())));
    assert_eq!(sections[4].1[0], ("key-mgmt".to_string(), SettingValue::Text("sae".into())));
    let open = net("cafe", 90, WifiSecurity::Open, false);
    let sections = wifi_settings(&open, "");
    assert_eq!(sections.len(), 4);
    assert_eq!(sections[1].1[0], ("ssid".to_string(), SettingValue::Bytes("cafe".into())));
    match &sections[0].1[1].1 {
        SettingValue::Text(uuid) => {
            assert_eq!(uuid.len(), 36);
            assert_eq!(&uuid[14..15], "4");
            assert!(uuid.chars().all(|c| c == '-' || c.is_ascii_digit() || ('a'..='f').contains(&c)));
        }
        _ => panic!("uuid must be text"),
    }
}

#[test]
fn signal_icons_follow_strength() {
    assert_eq!(signal_icon(100), "network-wireless-signal-excellent-symbolic");
    assert_eq!(signal_icon(74), "network-wireless-signal-good-symbolic");
    assert_eq!(signal_icon(25), "network-wireless-signal-ok-symbolic");
    assert_eq!(signal_icon(24), "network-wireless-signal-weak-symbolic");
}

#[test]
fn network_page_state_machine() {
    let mut page = NetworkPageState::new();
    assert!(page.loading && !page.can_refresh());
    let list = vec![
        net("cafe", 90, WifiSecurity::Open, false),
        net("home", 80, WifiSecurity::WpaPersonal, false),
        net("corp", 70, WifiSecurity::Unsupported, false),
    ];
    assert!(matches!(page.update(NetworkEvent::Loaded(Ok(list))), NetworkAction::Nothing));
    assert!(page.can_refresh());
    match page.update(NetworkEvent::Select(1)) {
        NetworkAction::AskPassword { index, ssid } => {
            assert_eq!(index, 1);
            assert_eq!(ssid, "home");
        }
        _ => panic!("expected a password prompt"),
    }
    assert!(matches!(page.update(NetworkEvent::Select(2)), NetworkAction::Nothing));
    assert!(page.error.is_some());
    match page.update(NetworkEvent::Select(0)) {
        NetworkAction::StartConnect { network, password } => {
            assert_eq!(network.ssid, "cafe");
            assert!(password.is_empty());
        }
        _ => panic!("expected a connection"),
    }
    assert_eq!(page.connecting, Some(0));
    assert_eq!(page.row_trailer(0), RowTrailer::Spinner);
    assert_eq!(page.row_trailer(1), RowTrailer::ConnectButton(false));
    assert!(matches!(page.update(NetworkEvent::Connected(Err("boom".into()))), NetworkAction::Nothing));
    assert_eq!(page.error.as_deref(), Some("boom"));
    assert!(matches!(page.update(NetworkEvent::Connected(Ok(()))), NetworkAction::StartScan));
    assert!(page.loading);
    assert!(matches!(page.update(NetworkEvent::Select(9)), NetworkAction::Nothing));
}

#[test]
fn field_codes_are_stripped() {
    let argv = |items: &[&str]| items.iter().map(|s| s.to_string()).collect::<Vec<_>>();
    assert_eq!(strip_field_codes(&argv(&["/usr/bin/epiphany", "%u"])), Some(argv(&["/usr/bin/epiphany"])));
    for code in ["%u", "%U", "%f", "%F"] {
        assert_eq!(
            strip_field_codes(&argv(&["/usr/bin/browser", "--flag", code])),
            Some(argv(&["/usr/bin/browser", "--flag"]))
        );
    }
    assert_eq!(strip_field_codes(&argv(&["%u"])), None);
    assert_eq!(strip_field_codes(&argv(&["%x"])), Some(argv(&["%x"])));
    assert_eq!(fallback_browser_argv(), argv(&["gio", "open"]));
    assert_eq!(
        capped_launch_args(&argv(&["firefox"]), "https://example.org"),
        argv(&[
            "--user", "--scope", "--quiet", "-p", "MemoryHigh=1G", "-p", "MemoryMax=1536M", "--",
            "firefox", "https://example.org"
        ])
    );
}

#[test]
fn descriptor_helpers() {
    let bento = |t: &str| Bento { title: t.into(), desc: "d".into(), link: "l".into(), icon: "i".into() };
    let d = DistroDescriptor {
        bootc: BootcConfig {
            image: "ghcr.io/example/os:latest".into(),
            target_imgref: None,
            enforce_sigpolicy: false,
            kargs: vec![],
            args: vec![],
        },
        disk: DiskConfig { repart_dir: "/usr/share/sirius/repart.d".into() },
        bentos: vec![bento("a"), bento("b"), bento("c"), bento("d")],
        branding: Branding::default(),
    };
    assert_eq!(d.shown_bentos().len(), 3);
    assert_eq!(d.shown_bentos()[2].title, "c");
    assert_eq!(d.branding.icon_name(), "starred-symbolic");
    let b = Branding { logo: None, icon: Some("distro-logo".into()) };
    assert_eq!(b.icon_name(), "distro-logo");
    assert_eq!(read_error_message("gone"), "cannot read distro descriptor (/etc/sirius/distro.toml): gone");
    assert_eq!(parse_error_message("bad"), "invalid distro descriptor: bad");
}

#[test]
fn wifi_devices_are_picked_by_type() {
    let types = vec![Some(1), Some(2), None, Some(14), Some(2)];
    assert_eq!(wifi_device_positions(&types), vec![1, 4]);
    assert_eq!(wifi_device_positions(&vec![None, Some(1)]), Vec::<usize>::new());
}

#[test]
fn wifi_device_presence_needs_a_listing_with_a_wifi_device() {
    assert!(has_wifi_device(Some(vec![Some(1), Some(2)])));
    assert!(!has_wifi_device(Some(vec![Some(1), None])));
    assert!(!has_wifi_device(Some(Vec::new())));
    assert!(!has_wifi_device(None));
}

#[test]
fn security_modes_have_distinct_descriptions() {
    assert_eq!(security_msgid(WifiSecurity::Open), "Open network");
    assert_eq!(security_msgid(WifiSecurity::WpaPersonal), "WPA/WPA2 Personal");
    assert_eq!(security_msgid(WifiSecurity::Wpa3Personal), "WPA3 Personal");
    assert_eq!(
        security_msgid(WifiSecurity::Unsupported),
        "Enterprise or legacy security is not supported here"
    );
}

#[test]
fn log_path_uses_timestamp() {
    assert!(log_path("/tmp", 1234567890).ends_with("sirius-install-1234567890.log"));
}

#[test]
fn log_path_joins_the_directory_once() {
    assert_eq!(log_path("/tmp", 7), "/tmp/sirius-install-7.log");
    assert_eq!(log_path("/var/tmp/", 0), "/var/tmp/sirius-install-0.log");
    assert_eq!(log_path("", 12), "sirius-install-12.log");
    assert_eq!(log_file_name(u64::MAX), "sirius-install-18446744073709551615.log");
}
