use mstsc_rs::cli::{normalize_mstsc_arg, normalize_mstsc_args, Cli, EnvLookup};
use mstsc_rs::{Error, PasswordSource};

fn cli() -> Cli {
    Cli {
        rdp_file: None,
        server: None,
        username: None,
        domain: None,
        password: None,
        password_env: None,
        width: None,
        height: None,
        fullscreen: false,
        multimon: false,
        span: false,
        admin: false,
        public: false,
        restricted_admin: false,
        remote_guard: false,
        gateway: None,
        dynamic_resolution: false,
        remote_app: None,
        remote_app_args: None,
        remote_app_workdir: None,
        redirect_clipboard: None,
        redirect_printers: None,
        redirect_drives: None,
        redirect_smartcards: None,
        redirect_com_ports: None,
        redirect_webauthn: None,
        redirect_location: None,
        redirect_cameras: None,
        redirect_microphone: None,
        audio_mode: None,
        custom_properties: Vec::new(),
        title: None,
        dry_run: false,
    }
}

#[test]
fn mstsc_switches_become_long_options() {
    let args: Vec<String> = [
        "mstsc-rs",
        "sample.rdp",
        "/v:host.example:3390",
        "/F",
        "/multimon",
        "/w:1920",
        "/H:1080",
        "/console",
        "/?",
        "/span",
        "/public",
        "/RestrictedAdmin",
        "/remoteguard",
        "--title=x",
    ]
    .iter()
    .map(|s| s.to_string())
    .collect();
    assert_eq!(
        normalize_mstsc_args(&args),
        vec![
            "mstsc-rs",
            "sample.rdp",
            "--server=host.example:3390",
            "--fullscreen",
            "--multimon",
            "--width=1920",
            "--height=1080",
            "--admin",
            "--help",
            "--span",
            "--public",
            "--restricted-admin",
            "--remote-guard",
            "--title=x",
        ]
    );
    assert_eq!(normalize_mstsc_arg("/V:MixedCase"), "--server=MixedCase");
    assert_eq!(normalize_mstsc_arg("/v"), "/v");
}

#[test]
fn the_password_variable_follows_the_options() {
    let mut c = cli();
    assert_eq!(c.password_variable().as_deref(), Some("MSTSC_RS_PASSWORD"));
    c.password_env = Some("MY_PW".to_owned());
    assert_eq!(c.password_variable().as_deref(), Some("MY_PW"));
    c.password = Some("secret".to_owned());
    assert_eq!(c.password_variable(), None);
}

#[test]
fn command_line_values_reach_the_session() {
    let mut c = cli();
    c.server = Some("srv".to_owned());
    c.fullscreen = true;
    c.dry_run = true;
    c.custom_properties = vec!["x:s:y".to_owned()];
    let (config, dry_run) = c
        .into_session_config(EnvLookup::Present("env-pw".to_owned()), None)
        .unwrap();
    assert!(dry_run);
    assert_eq!(config.server.as_deref(), Some("srv"));
    assert!(config.fullscreen);
    assert_eq!(config.document.get_integer("screen mode id"), Some(2));
    assert_eq!(config.document.get_string("x"), Some("y"));
    assert_eq!(config.password.as_ref().map(|p| p.expose()), Some("env-pw"));
    assert_eq!(
        config.password_source,
        Some(PasswordSource::Environment("MSTSC_RS_PASSWORD".to_owned()))
    );
}

#[test]
fn a_command_line_password_ignores_the_environment() {
    let mut c = cli();
    c.password = Some("typed".to_owned());
    let (config, dry_run) = c.into_session_config(EnvLookup::NotUnicode, None).unwrap();
    assert!(!dry_run);
    assert_eq!(config.password.as_ref().map(|p| p.expose()), Some("typed"));
    assert_eq!(config.password_source, Some(PasswordSource::CommandLine));
}

#[test]
fn a_missing_or_broken_password_variable() {
    let (config, _) = cli().into_session_config(EnvLookup::NotPresent, None).unwrap();
    assert!(config.password.is_none());
    assert!(config.password_source.is_none());
    let mut c = cli();
    c.password_env = Some("PW".to_owned());
    match c.into_session_config(EnvLookup::NotUnicode, None) {
        Err(Error::NonUnicodePasswordEnvironment(name)) => assert_eq!(name, "PW"),
        other => panic!("unexpected {other:?}"),
    }
}

#[test]
fn the_rdp_file_is_read_from_its_contents() {
    let mut c = cli();
    c.rdp_file = Some("a.rdp".to_owned());
    c.username = Some("cli-user".to_owned());
    let (config, _) = c
        .into_session_config(
            EnvLookup::NotPresent,
            Some(b"full address:s:file-host\r\nusername:s:file-user\r\n".to_vec()),
        )
        .unwrap();
    assert_eq!(config.source_path.as_deref(), Some("a.rdp"));
    assert_eq!(config.server.as_deref(), Some("file-host"));
    assert_eq!(config.username.as_deref(), Some("cli-user"));
}
