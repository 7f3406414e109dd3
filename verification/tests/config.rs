use mstsc_rs::config::{apply_overrides, default_document, SecretString};
use mstsc_rs::rdp::RdpDocument;
use mstsc_rs::{ConnectionOverrides, Error, PasswordSource, SessionConfig};

#[test]
fn command_line_overrides_document() {
    let mut original =
        RdpDocument::parse("full address:s:old\r\nusername:s:file-user\r\nx-private:q:keep\r\n");
    original.set_string("full address", "old");

    let overrides = ConnectionOverrides {
        server: Some("new:3390".to_owned()),
        width: Some(1920),
        ..Default::default()
    };
    apply_overrides(&mut original, &overrides).unwrap();

    assert_eq!(original.get_string("full address"), Some("new:3390"));
    assert_eq!(original.get_integer("desktopwidth"), Some(1920));
    assert!(original.render().contains("x-private:q:keep"));
}

#[test]
fn only_a_missing_server_requires_the_connection_form() {
    let overrides = ConnectionOverrides {
        server: Some("server".into()),
        ..Default::default()
    };
    let config = SessionConfig::resolve(None, overrides).unwrap();
    assert!(!config.needs_interactive_input());

    let missing_server = SessionConfig::resolve(None, ConnectionOverrides::default()).unwrap();
    assert!(missing_server.needs_interactive_input());
}

#[test]
fn dynamic_resolution_defaults_on_and_can_be_disabled() {
    let defaults = SessionConfig::resolve(None, ConnectionOverrides::default()).unwrap();
    assert!(defaults.dynamic_resolution);
    assert_eq!(defaults.document.get_integer("dynamic resolution"), Some(1));

    let disabled = SessionConfig::resolve(
        None,
        ConnectionOverrides {
            dynamic_resolution: Some(false),
            ..Default::default()
        },
    )
    .unwrap();
    assert!(!disabled.dynamic_resolution);
    assert_eq!(disabled.document.get_integer("dynamic resolution"), Some(0));
}

#[test]
fn webauthn_redirection_matches_the_mstsc_default() {
    let config = SessionConfig::resolve(None, ConnectionOverrides::default()).unwrap();
    assert_eq!(config.document.get_integer("redirectwebauthn"), Some(1));
}

#[test]
fn span_is_a_fixed_single_desktop_and_not_multimon() {
    let config = SessionConfig::resolve(
        None,
        ConnectionOverrides {
            span: Some(true),
            multimon: Some(true),
            ..Default::default()
        },
    )
    .unwrap();
    assert!(config.span);
    assert!(config.fullscreen);
    assert!(!config.dynamic_resolution);
    assert_eq!(config.document.get_integer("span monitors"), Some(1));
    assert_eq!(config.document.get_integer("use multimon"), Some(0));
}

#[test]
fn default_document_holds_the_mstsc_defaults() {
    let document = default_document();
    assert_eq!(
        document.render(),
        "screen mode id:i:1\r\ndynamic resolution:i:1\r\nsession bpp:i:32\r\ncompression:i:1\r\n\
         networkautodetect:i:1\r\nbandwidthautodetect:i:1\r\nenablecredsspsupport:i:1\r\n\
         authentication level:i:2\r\nprompt for credentials:i:0\r\nredirectclipboard:i:1\r\n\
         redirectprinters:i:1\r\nredirectsmartcards:i:1\r\nredirectwebauthn:i:1\r\n\
         audiomode:i:0\r\naudiocapturemode:i:1\r\n"
    );
}

#[test]
fn custom_properties_win_over_named_values() {
    let mut document = RdpDocument::parse("audiomode:i:2\r\n");
    let overrides = ConnectionOverrides {
        audio_mode: Some(1),
        custom_properties: vec!["AudioMode:i:0".to_owned(), "x-new:s:a:b".to_owned()],
        ..Default::default()
    };
    apply_overrides(&mut document, &overrides).unwrap();
    assert_eq!(document.get_integer("audiomode"), Some(0));
    assert_eq!(document.get_string("x-new"), Some("a:b"));
}

#[test]
fn an_invalid_custom_property_stops_the_merge() {
    let mut document = RdpDocument::parse("");
    let overrides = ConnectionOverrides {
        custom_properties: vec![
            "first:i:1".to_owned(),
            "broken".to_owned(),
            "third:i:3".to_owned(),
        ],
        ..Default::default()
    };
    match apply_overrides(&mut document, &overrides) {
        Err(Error::InvalidRdpAssignment(text)) => assert_eq!(text, "broken"),
        other => panic!("unexpected {other:?}"),
    }
    assert_eq!(document.get_integer("first"), Some(1));
    assert!(!document.contains("third"));
}

#[test]
fn large_sizes_are_stored_as_the_largest_integer() {
    let mut document = RdpDocument::default();
    let overrides = ConnectionOverrides {
        width: Some(u32::MAX),
        height: Some(768),
        fullscreen: Some(false),
        ..Default::default()
    };
    apply_overrides(&mut document, &overrides).unwrap();
    assert_eq!(document.get_integer("desktopwidth"), Some(i32::MAX));
    assert_eq!(document.get_integer("desktopheight"), Some(768));
    assert_eq!(document.get_integer("screen mode id"), Some(1));
}

#[test]
fn gateway_and_remote_app_switch_their_modes_on() {
    let mut document = RdpDocument::default();
    let overrides = ConnectionOverrides {
        gateway: Some("gw.example".to_owned()),
        remote_app: Some("||notepad".to_owned()),
        remote_app_args: Some("a.txt".to_owned()),
        ..Default::default()
    };
    apply_overrides(&mut document, &overrides).unwrap();
    assert_eq!(document.get_string("gatewayhostname"), Some("gw.example"));
    assert_eq!(document.get_integer("gatewayusagemethod"), Some(1));
    assert_eq!(document.get_integer("gatewayprofileusagemethod"), Some(1));
    assert_eq!(document.get_integer("remoteapplicationmode"), Some(1));
    assert_eq!(document.get_string("remoteapplicationprogram"), Some("||notepad"));
    assert_eq!(document.get_string("remoteapplicationcmdline"), Some("a.txt"));
}

#[test]
fn resolve_reads_the_file_and_derives_the_session() {
    let bytes = b"full address:s:  \r\nusername:s:ann\r\npassword 51:b:00\r\nscreen mode id:i:2\r\n"
        .to_vec();
    let config = SessionConfig::resolve(
        Some(("a.rdp".to_owned(), bytes)),
        ConnectionOverrides {
            password: Some(SecretString::new("pw")),
            password_source: Some(PasswordSource::CommandLine),
            ..Default::default()
        },
    )
    .unwrap();
    assert_eq!(config.source_path.as_deref(), Some("a.rdp"));
    assert_eq!(config.server, None);
    assert_eq!(config.username.as_deref(), Some("ann"));
    assert_eq!(config.domain, None);
    assert!(config.has_embedded_password);
    assert!(config.fullscreen);
    assert!(config.dynamic_resolution);
    assert_eq!(config.title, "mstsc-rs");
    assert_eq!(config.password.as_ref().map(|p| p.expose()), Some("pw"));
    assert_eq!(config.password_source, Some(PasswordSource::CommandLine));
}

#[test]
fn resolve_titles_the_window_after_the_server() {
    let config = SessionConfig::resolve(
        None,
        ConnectionOverrides {
            server: Some("host.example".to_owned()),
            ..Default::default()
        },
    )
    .unwrap();
    assert_eq!(config.title, "host.example - mstsc-rs");
    let titled = SessionConfig::resolve(
        None,
        ConnectionOverrides {
            server: Some("host.example".to_owned()),
            title: Some("Work".to_owned()),
            ..Default::default()
        },
    )
    .unwrap();
    assert_eq!(titled.title, "Work");
}

#[test]
fn resolve_refuses_a_file_that_is_not_text() {
    let result = SessionConfig::resolve(
        Some(("bad.rdp".to_owned(), vec![0xff, 0xfe, 0x41])),
        ConnectionOverrides::default(),
    );
    assert!(matches!(result, Err(Error::InvalidRdpEncoding)));
}

#[test]
fn the_connection_form_sets_and_removes_names() {
    let mut config = SessionConfig::resolve(
        None,
        ConnectionOverrides {
            domain: Some("CORP".to_owned()),
            password: Some(SecretString::new("old")),
            ..Default::default()
        },
    )
    .unwrap();
    config.apply_interactive(
        "srv".to_owned(),
        Some("bob".to_owned()),
        None,
        Some(SecretString::new("new")),
    );
    assert_eq!(config.document.get_string("full address"), Some("srv"));
    assert_eq!(config.document.get_string("username"), Some("bob"));
    assert!(!config.document.contains("domain"));
    assert_eq!(config.server.as_deref(), Some("srv"));
    assert_eq!(config.password.as_ref().map(|p| p.expose()), Some("new"));
    assert_eq!(config.password_source, Some(PasswordSource::Interactive));
    assert!(config.rdp_settings_text().contains("full address:s:srv"));
    assert!(!config.rdp_settings_text().contains("new"));
}

#[test]
fn secrets_are_wiped() {
    let mut secret = SecretString::new("hunter2");
    assert!(!secret.is_empty());
    assert_eq!(secret.expose(), "hunter2");
    secret.wipe();
    assert!(secret.is_empty());
    assert_eq!(secret.expose(), "");
}

#[test]
fn the_settings_text_never_holds_the_password() {
    let with_password = SessionConfig::resolve(
        None,
        ConnectionOverrides {
            server: Some("srv".to_owned()),
            password: Some(SecretString::new("s3cr3t-value")),
            password_source: Some(PasswordSource::CommandLine),
            ..Default::default()
        },
    )
    .unwrap();
    let without_password = SessionConfig::resolve(
        None,
        ConnectionOverrides {
            server: Some("srv".to_owned()),
            ..Default::default()
        },
    )
    .unwrap();
    assert_eq!(
        with_password.rdp_settings_text(),
        without_password.rdp_settings_text()
    );
    assert!(!with_password.rdp_settings_text().contains("s3cr3t-value"));
}

#[test]
fn a_discarded_password_is_gone() {
    let mut config = SessionConfig::resolve(
        None,
        ConnectionOverrides {
            password: Some(SecretString::new("pw")),
            password_source: Some(PasswordSource::CommandLine),
            ..Default::default()
        },
    )
    .unwrap();
    config.discard_password();
    assert!(config.password.is_none());
    assert_eq!(config.password_source, Some(PasswordSource::CommandLine));
}
