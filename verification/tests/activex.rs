use mstsc_rs::control::{
    extended_settings, gateway_settings, remote_app_settings, settings_plan, split_server_port,
    system_directory_step, webauthn_plugin_path, DirectoryRead, PropertyWrite, SettingValue,
};
use mstsc_rs::display::{display_update, pixels_to_millimeters, SessionDisplaySettings};
use mstsc_rs::events::{
    accelerator_was_handled, event_interface_matches, legacy_event_kind, variant_bool, EventQueue,
    RdpEvent, RdpEventKind,
};
use mstsc_rs::rdp::RdpDocument;
use mstsc_rs::redirection::{
    entries_to_visit, looks_like_usb_instance, normalize_drive_name, selector_list_matches,
    RedirectionSettings,
};
use mstsc_rs::{ConnectionOverrides, Error, SessionConfig};

const S_OK: i32 = 0;
const S_FALSE: i32 = 1;
const E_FAIL: i32 = 0x8000_4005_u32 as i32;

#[test]
fn accelerator_only_consumes_messages_reported_as_handled() {
    assert!(accelerator_was_handled(S_OK));
    assert!(!accelerator_was_handled(S_FALSE));
    assert!(!accelerator_was_handled(E_FAIL));
}

#[test]
fn system_rdp_event_dispids_match_dispatch_map() {
    for (dispid, expected_kind) in [
        (1, RdpEventKind::Connecting),
        (2, RdpEventKind::Connected),
        (3, RdpEventKind::LoginCompleted),
        (4, RdpEventKind::Disconnected),
        (12, RdpEventKind::RemoteDesktopSizeChanged),
        (17, RdpEventKind::AutoReconnecting),
        (18, RdpEventKind::DialogDisplaying),
        (19, RdpEventKind::DialogDismissed),
        (22, RdpEventKind::LogonError),
        (29, RdpEventKind::RemoteProgramDisplayed),
        (32, RdpEventKind::NetworkStatusChanged),
        (33, RdpEventKind::AutoReconnected),
        (34, RdpEventKind::AutoReconnecting),
    ] {
        assert_eq!(legacy_event_kind(dispid), Some(expected_kind));
    }
    assert_eq!(legacy_event_kind(31), None);
}

#[test]
fn display_settings_follow_window_size_and_dpi() {
    let settings = SessionDisplaySettings::from_window(50, 9_000, 144, &RdpDocument::default());
    assert_eq!(settings.width, 200);
    assert_eq!(settings.height, 8_192);
    assert_eq!(settings.desktop_scale_factor, 150);
    assert_eq!(settings.device_scale_factor, 100);
    assert!((10..=10_000).contains(&settings.physical_width));
    assert!((10..=10_000).contains(&settings.physical_height));

    let document = RdpDocument::parse("desktopscalefactor:i:175\r\ndevicescalefactor:i:140\r\n");
    let configured = SessionDisplaySettings::from_window(1_280, 720, 96, &document);
    assert_eq!(configured.desktop_scale_factor, 175);
    assert_eq!(configured.device_scale_factor, 140);
}

#[test]
fn resource_selectors_support_wildcards_dynamic_entries_classes_and_exclusions() {
    let class_guid: u128 = 0x12345678_1234_1234_1234_1234567890ab;
    assert!(selector_list_matches(
        "*;-USB\\VID_BLOCKED",
        "USB\\VID_ALLOWED&PID_0001",
        None,
        "dynamicdevices",
    ));
    assert!(!selector_list_matches(
        "*;-USB\\VID_BLOCKED",
        "USB\\VID_BLOCKED&PID_0002",
        None,
        "dynamicdevices",
    ));
    assert!(selector_list_matches(
        "{12345678-1234-1234-1234-1234567890ab}",
        "ROOT\\SAMPLE",
        Some(class_guid),
        "dynamicdevices",
    ));
    assert!(!selector_list_matches(
        "DynamicDevices",
        "ROOT\\SAMPLE",
        None,
        "dynamicdevices",
    ));
    assert!(!selector_list_matches("*;-*", "ROOT\\SAMPLE", None, "dynamicdevices"));

    let settings = RedirectionSettings {
        drives: Some("C:\\;DynamicDrives".to_owned()),
        ..Default::default()
    };
    assert_eq!(settings.drive_is_selected("C:\\"), Some(true));
    assert_eq!(settings.drive_is_selected("D:\\"), Some(false));
    assert!(settings.redirect_dynamic_drives());
}

#[test]
fn class_selectors_compare_the_whole_guid() {
    let class_guid: u128 = 0x4d36e967_e325_11ce_bfc1_08002be10318;
    assert!(selector_list_matches(
        " {4D36E967-E325-11CE-BFC1-08002BE10318} ",
        "STORAGE\\X",
        Some(class_guid),
        "",
    ));
    assert!(!selector_list_matches(
        "{4D36E967-E325-11CE-BFC1-08002BE10319}",
        "STORAGE\\X",
        Some(class_guid),
        "",
    ));
    assert!(!selector_list_matches(
        "{4D36E967-E325-11CE-BFC1-08002BE10318}",
        "STORAGE\\X",
        None,
        "",
    ));
    // Not a GUID: compared as a prefix of the instance path.
    assert!(selector_list_matches("{ab", "{ABC}", None, ""));
}

#[test]
fn exclusions_win_over_inclusions() {
    assert!(!selector_list_matches("usb\\;-USB\\VID_1", "USB\\VID_1&PID_2", None, ""));
    assert!(selector_list_matches("usb\\;-USB\\VID_1", "USB\\VID_2&PID_2", None, ""));
    assert!(!selector_list_matches("-USB\\VID_1", "USB\\VID_2", None, ""));
    assert!(!selector_list_matches(" ; ;", "USB\\VID_2", None, ""));
}

#[test]
fn device_and_camera_lists_are_chosen_by_kind() {
    let settings = RedirectionSettings {
        devices: Some("ROOT\\;DynamicDevices".to_owned()),
        usb_devices: Some("*".to_owned()),
        cameras: Some("\\\\?\\cam1".to_owned()),
        ..Default::default()
    };
    assert_eq!(settings.device_is_selected("ROOT\\X", false, None), Some(true));
    assert_eq!(settings.device_is_selected("PCI\\X", false, None), Some(false));
    assert_eq!(settings.device_is_selected("USB\\X", true, None), Some(true));
    assert_eq!(settings.camera_is_selected("\\\\?\\CAM1#x"), Some(true));
    assert_eq!(settings.camera_is_selected("\\\\?\\cam2"), Some(false));
    assert_eq!(settings.cameras_by_default(), Some(false));
    assert!(settings.redirect_dynamic_devices());
    assert!(settings.has_device_configuration());
    assert!(settings.has_camera_configuration());
    let none = RedirectionSettings::default();
    assert_eq!(none.drive_is_selected("C:"), None);
    assert_eq!(none.device_is_selected("USB\\X", true, None), None);
    assert_eq!(none.camera_is_selected("x"), None);
    assert!(!none.redirect_dynamic_devices());
    assert!(!none.has_device_configuration());
    assert!(!none.has_camera_configuration());
}

#[test]
fn redirection_settings_come_from_the_document() {
    let document = RdpDocument::parse(
        "drivestoredirect:s:*\r\ncamerastoredirect:s:*;-x\r\n\
         encode redirected video capture:i:1\r\n\
         redirected video capture encoding quality:i:7\r\n",
    );
    let settings = RedirectionSettings::from_document(&document);
    assert_eq!(settings.drives.as_deref(), Some("*"));
    assert_eq!(settings.devices, None);
    assert_eq!(settings.cameras.as_deref(), Some("*;-x"));
    assert_eq!(settings.encode_video, Some(true));
    assert_eq!(settings.encoding_quality, None);
    assert_eq!(settings.cameras_by_default(), Some(true));
    assert!(settings.redirect_dynamic_drives());
}

#[test]
fn drive_names_ignore_blanks_and_trailing_slashes() {
    let name: Vec<char> = " D:\\/ ".chars().collect();
    assert_eq!(normalize_drive_name(&name), vec!['D', ':']);
    let settings = RedirectionSettings {
        drives: Some("d:".to_owned()),
        ..Default::default()
    };
    assert_eq!(settings.drive_is_selected("D:\\"), Some(true));
    assert!(!settings.redirect_dynamic_drives());
}

#[test]
fn usb_instances_are_recognised_by_their_path() {
    assert!(looks_like_usb_instance("usb\\VID_1"));
    assert!(looks_like_usb_instance("\\\\?\\USB#VID_1"));
    assert!(!looks_like_usb_instance("ROOT\\USB"));
    assert_eq!(entries_to_visit(3), 3);
    assert_eq!(entries_to_visit(100_000), 4_096);
}

#[test]
fn millimetres_are_rounded_and_bounded() {
    assert_eq!(pixels_to_millimeters(96, 96), 25);
    assert_eq!(pixels_to_millimeters(1920, 96), 508);
    assert_eq!(pixels_to_millimeters(1, 96), 10);
    assert_eq!(pixels_to_millimeters(u32::MAX, 1), 10_000);
}

#[test]
fn display_updates_need_a_visible_window() {
    let document = RdpDocument::default();
    assert_eq!(display_update(0, 600, 96, &document), None);
    assert_eq!(display_update(800, 0, 96, &document), None);
    let settings = display_update(1000, 700, 120, &document).unwrap();
    assert_eq!(settings.width, 1000);
    assert_eq!(settings.desktop_scale_factor, 125);
    assert_eq!(settings.arguments(), vec![1000, 700, 212, 148, 0, 125, 100]);
}

#[test]
fn servers_split_into_host_and_port() {
    assert_eq!(split_server_port("host:3390"), ("host".to_owned(), Some(3390)));
    assert_eq!(split_server_port("host"), ("host".to_owned(), None));
    assert_eq!(split_server_port("host:99999"), ("host:99999".to_owned(), None));
    assert_eq!(split_server_port("[fe80::1]:3389"), ("fe80::1".to_owned(), Some(3389)));
    assert_eq!(split_server_port("[fe80::1]"), ("fe80::1".to_owned(), None));
    assert_eq!(split_server_port("fe80::1"), ("fe80::1".to_owned(), None));
}

#[test]
fn event_interfaces_and_booleans() {
    assert!(event_interface_matches(0x336d5562_efa8_482e_8cb3_c5c0fc7a7db6));
    assert!(event_interface_matches(0x00020400_0000_0000_c000_000000000046));
    assert!(!event_interface_matches(0));
    assert_eq!(variant_bool(true), -1);
    assert_eq!(variant_bool(false), 0);
}

#[test]
fn queued_events_are_taken_in_order() {
    let mut queue = EventQueue::new();
    queue.push(RdpEvent {
        kind: RdpEventKind::Connecting,
        arguments: vec![],
    });
    queue.push(RdpEvent {
        kind: RdpEventKind::Disconnected,
        arguments: vec!["2".to_owned()],
    });
    let events = queue.take_events();
    assert_eq!(events.len(), 2);
    assert_eq!(events[0].kind, RdpEventKind::Connecting);
    assert_eq!(events[1].arguments, vec!["2".to_owned()]);
    assert!(queue.take_events().is_empty());
}

fn names(writes: &[PropertyWrite]) -> Vec<&str> {
    writes.iter().map(|w| w.name.as_str()).collect()
}

#[test]
fn settings_need_a_server() {
    let config = SessionConfig::resolve(None, ConnectionOverrides::default()).unwrap();
    match settings_plan(&config) {
        Err(Error::CommandLine(message)) => assert_eq!(message, "server address is required"),
        other => panic!("unexpected {other:?}"),
    }
}

#[test]
fn settings_follow_the_session() {
    let config = SessionConfig::resolve(
        None,
        ConnectionOverrides {
            server: Some("host:3390".to_owned()),
            username: Some("ann".to_owned()),
            width: Some(100),
            span: Some(true),
            redirect_drives: Some(String::new()),
            custom_properties: vec!["gatewayhostname:s:gw".to_owned(), "kdcproxyname:s:k".to_owned()],
            ..Default::default()
        },
    )
    .unwrap();
    let plan = settings_plan(&config).unwrap();
    assert_eq!(
        names(&plan.connection),
        ["Server", "UserName", "DesktopWidth", "DesktopHeight", "ColorDepth", "FullScreen"]
    );
    assert!(matches!(&plan.connection[0].value, SettingValue::Text(h) if h == "host"));
    assert!(matches!(plan.connection[2].value, SettingValue::Integer(200)));
    assert!(matches!(plan.connection[3].value, SettingValue::Integer(800)));
    assert!(matches!(plan.connection[4].value, SettingValue::Integer(32)));
    assert!(matches!(plan.connection[5].value, SettingValue::Boolean(false)));
    assert_eq!(plan.use_multimon, Some(false));
    assert_eq!(
        names(&plan.advanced),
        [
            "ContainerHandledFullScreen",
            "RDPPort",
            "PluginDlls",
            "RedirectPrinters",
            "RedirectSmartCards",
            "RedirectClipboard",
            "AudioCaptureRedirectionMode",
            "EnableCredSspSupport",
            "SmartSizing",
            "AudioRedirectionMode",
            "AuthenticationLevel",
            "RedirectDrives",
        ]
    );
    assert!(matches!(plan.advanced[1].value, SettingValue::Integer(3390)));
    assert!(matches!(plan.advanced[8].value, SettingValue::Boolean(false)));
    assert!(matches!(plan.advanced[11].value, SettingValue::Boolean(false)));
    assert_eq!(names(&plan.extended), ["KDCProxyName"]);
    assert_eq!(names(plan.gateway.as_ref().unwrap()), ["GatewayHostname"]);
    assert!(plan.remote_app.is_none());
    assert_eq!(plan.redirection.drives.as_deref(), Some(""));
}

#[test]
fn gateway_remote_app_and_extended_settings() {
    let document = RdpDocument::parse(
        "gatewayhostname:s:gw\r\ngatewayusagemethod:i:2\r\ngatewaycredentialssource:i:4\r\n\
         remoteapplicationmode:i:1\r\nremoteapplicationprogram:s:||calc\r\n\
         restricted admin mode:i:1\r\ndesktopscalefactor:i:-1\r\ndevicescalefactor:i:140\r\n",
    );
    let gateway = gateway_settings(&document).unwrap();
    assert_eq!(
        names(&gateway),
        ["GatewayHostname", "GatewayUsageMethod", "GatewayCredsSource"]
    );
    let remote = remote_app_settings(&document).unwrap();
    assert_eq!(names(&remote), ["RemoteProgramMode", "RemoteApplicationProgram"]);
    let extended = extended_settings(&document);
    assert_eq!(names(&extended), ["RestrictedLogon", "DeviceScaleFactor"]);
    assert!(matches!(extended[1].value, SettingValue::Unsigned(140)));
    assert!(gateway_settings(&RdpDocument::default()).is_none());
    assert!(remote_app_settings(&RdpDocument::default()).is_none());
}

#[test]
fn the_system_directory_is_read_into_a_large_enough_buffer() {
    assert_eq!(system_directory_step(0, 512), DirectoryRead::Unavailable);
    assert_eq!(system_directory_step(40_000, 512), DirectoryRead::Unavailable);
    assert_eq!(system_directory_step(19, 512), DirectoryRead::Complete(19));
    assert_eq!(system_directory_step(600, 512), DirectoryRead::Grow(601));
    assert_eq!(system_directory_step(512, 512), DirectoryRead::Grow(513));
    assert_eq!(
        webauthn_plugin_path("C:\\Windows\\system32"),
        "C:\\Windows\\system32\\webauthn.dll"
    );
}

#[test]
fn nothing_is_redirected_without_configuration() {
    let config = SessionConfig::resolve(None, ConnectionOverrides::default()).unwrap();
    let settings = RedirectionSettings::from_document(&config.document);
    assert_eq!(settings, RedirectionSettings::default());
    assert!(!settings.has_device_configuration());
    assert!(!settings.has_camera_configuration());
}

fn plan_for_file(text: &str) -> Vec<String> {
    let config = SessionConfig::resolve(
        Some(("saved.rdp".to_owned(), text.as_bytes().to_vec())),
        ConnectionOverrides::default(),
    )
    .unwrap();
    let plan = settings_plan(&config).unwrap();
    names(&plan.advanced).iter().map(|n| n.to_string()).collect()
}

#[test]
fn webauthn_is_redirected_unless_turned_off() {
    let names = plan_for_file("full address:s:h\r\n");
    assert!(names.iter().any(|n| n == "PluginDlls"));
    let names = plan_for_file("full address:s:h\r\nredirectwebauthn:i:1\r\n");
    assert!(names.iter().any(|n| n == "PluginDlls"));
    let names = plan_for_file("full address:s:h\r\nredirectwebauthn:i:0\r\n");
    assert!(!names.iter().any(|n| n == "PluginDlls"));
}
