use mstsc_rs::config::SecretString;
use mstsc_rs::events::{RdpEvent, RdpEventKind};
use mstsc_rs::session::{
    client_size, command_id, connect_from_form, event_response, form_layout, initial_focus,
    window_size, FormField, FormLayout, FormProblem,
};
use mstsc_rs::{ConnectionOverrides, PasswordSource, SessionConfig};

fn session(overrides: ConnectionOverrides) -> SessionConfig {
    SessionConfig::resolve(None, overrides).unwrap()
}

#[test]
fn the_window_follows_the_desktop_size() {
    assert_eq!(window_size(&session(ConnectionOverrides::default())), (1280, 800));
    let small = session(ConnectionOverrides {
        width: Some(100),
        height: Some(9000),
        ..Default::default()
    });
    assert_eq!(window_size(&small), (640, 4320));
}

#[test]
fn the_focus_goes_to_the_first_missing_field() {
    assert_eq!(initial_focus(&session(ConnectionOverrides::default())), FormField::Server);
    let with_server = session(ConnectionOverrides {
        server: Some("s".to_owned()),
        ..Default::default()
    });
    assert_eq!(initial_focus(&with_server), FormField::Username);
    let with_user = session(ConnectionOverrides {
        server: Some("s".to_owned()),
        username: Some("u".to_owned()),
        ..Default::default()
    });
    assert_eq!(initial_focus(&with_user), FormField::Password);
}

#[test]
fn the_form_is_centred_and_shrinks() {
    assert_eq!(
        form_layout(1000),
        FormLayout {
            left: 255,
            edit_width: 390,
            connect_x: 635
        }
    );
    assert_eq!(
        form_layout(300),
        FormLayout {
            left: 16,
            edit_width: 168,
            connect_x: 174
        }
    );
    assert_eq!(
        form_layout(0),
        FormLayout {
            left: 16,
            edit_width: 80,
            connect_x: 16
        }
    );
    assert_eq!(
        form_layout(-10),
        FormLayout {
            left: 16,
            edit_width: 80,
            connect_x: 16
        }
    );
}

#[test]
fn the_form_needs_only_a_server() {
    let mut config = session(ConnectionOverrides::default());
    assert_eq!(
        connect_from_form(&mut config, "  ", "u", "", "pw"),
        Err(FormProblem::MissingServer)
    );
    assert!(config.server.is_none());
    assert!(config.username.is_none());
    assert_eq!(connect_from_form(&mut config, " srv ", " u ", "  ", "pw"), Ok(()));
    assert_eq!(config.server.as_deref(), Some("srv"));
    assert_eq!(config.username.as_deref(), Some("u"));
    assert_eq!(config.domain, None);
    assert_eq!(config.document.get_string("full address"), Some("srv"));
    assert_eq!(config.password.as_ref().map(|p| p.expose()), Some("pw"));
    assert_eq!(config.password_source, Some(PasswordSource::Interactive));
}

#[test]
fn a_form_without_user_or_password_leaves_them_to_the_system_prompt() {
    let mut config = session(ConnectionOverrides::default());
    assert_eq!(connect_from_form(&mut config, " host ", "", "", ""), Ok(()));
    assert_eq!(config.server.as_deref(), Some("host"));
    assert_eq!(config.username, None);
    assert_eq!(config.domain, None);
    assert!(config.password.is_none());
    assert_eq!(config.password_source, None);
    assert_eq!(config.document.get_string("full address"), Some("host"));
    assert_eq!(connect_from_form(&mut config, "srv", " ", "", "pw"), Ok(()));
    assert_eq!(config.username, None);
    assert_eq!(config.password.as_ref().map(|p| p.expose()), Some("pw"));
}

#[test]
fn an_empty_password_field_keeps_the_known_password() {
    let mut config = session(ConnectionOverrides {
        password: Some(SecretString::new("known")),
        password_source: Some(PasswordSource::CommandLine),
        ..Default::default()
    });
    assert_eq!(connect_from_form(&mut config, "srv", "u", " CORP ", ""), Ok(()));
    assert_eq!(config.domain.as_deref(), Some("CORP"));
    assert_eq!(config.password.as_ref().map(|p| p.expose()), Some("known"));
}

fn event(kind: RdpEventKind, arguments: &[&str]) -> RdpEvent {
    RdpEvent {
        kind,
        arguments: arguments.iter().map(|s| s.to_string()).collect(),
    }
}

#[test]
fn events_set_the_title_and_report_disconnections() {
    let server = Some("host".to_owned());
    let r = event_response(&event(RdpEventKind::Connecting, &[]), &server, "T");
    assert_eq!(r.title.as_deref(), Some("host - 正在连接 - mstsc-rs"));
    assert_eq!(r.message, None);
    let r = event_response(&event(RdpEventKind::Connected, &[]), &None, "T");
    assert_eq!(r.title.as_deref(), Some("RDP - 已连接 - mstsc-rs"));
    let r = event_response(&event(RdpEventKind::LoginCompleted, &[]), &server, "T");
    assert_eq!(r.title.as_deref(), Some("T"));
    let r = event_response(&event(RdpEventKind::Disconnected, &["0"]), &server, "T");
    assert_eq!(r.title.as_deref(), Some("host - 已断开 - mstsc-rs"));
    assert_eq!(r.message, None);
    let r = event_response(&event(RdpEventKind::Disconnected, &["0", "2308"]), &server, "T");
    assert_eq!(r.message.as_deref(), Some("0\n2308"));
    let r = event_response(&event(RdpEventKind::Disconnected, &[]), &server, "T");
    assert_eq!(r.message, None);
    let r = event_response(&event(RdpEventKind::Warning, &["1"]), &server, "T");
    assert_eq!(r.title, None);
    assert_eq!(r.message, None);
}

#[test]
fn window_messages_carry_sizes_and_ids_in_their_words() {
    assert_eq!(client_size(0x0258_0320), (800, 600));
    assert_eq!(client_size(-1), (0xffff, 0xffff));
    assert_eq!(command_id(0x0001_03ed), 1005);
}
