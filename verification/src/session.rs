//! Decisions of the main window: its size, the connection form, and what it
//! shows for the events of a running session.
use vstd::prelude::*;

use crate::config::{
    int_property, interactive_lines, opt_view, with_lines, PasswordSource, SecretString,
    SessionConfig,
};
use crate::display::clamp;
use crate::events::{RdpEvent, RdpEventKind};
use crate::rdp::join;
use crate::text::{chars_of, extend_chars, is_blank, string_of, trim, trim_chars};

verus! {

// ---------------------------------------------------------------------------
// The window
// ---------------------------------------------------------------------------

/// The initial window size: the document's desktop size (1280 x 800 when
/// absent), kept within 640..=7680 by 480..=4320.
pub open spec fn initial_window_size(c: SessionConfig) -> (int, int) {
    let lines = c.document@.lines;
    (
        clamp(
            match int_property(lines, "desktopwidth"@) {
                Some(w) => w as int,
                None => 1280,
            },
            640,
            7680,
        ),
        clamp(
            match int_property(lines, "desktopheight"@) {
                Some(h) => h as int,
                None => 800,
            },
            480,
            4320,
        ),
    )
}

fn clamp_i32(v: i32, lo: i32, hi: i32) -> (r: i32)
    requires
        lo <= hi,
    ensures
        r == clamp(v as int, lo as int, hi as int),
{
    if v < lo {
        lo
    } else if v > hi {
        hi
    } else {
        v
    }
}

pub fn window_size(config: &SessionConfig) -> (r: (i32, i32))
    ensures
        (r.0 as int, r.1 as int) == initial_window_size(*config),
{
    let width = match config.document.get_integer("desktopwidth") {
        Some(w) => w,
        None => 1280,
    };
    let height = match config.document.get_integer("desktopheight") {
        Some(h) => h,
        None => 800,
    };
    (clamp_i32(width, 640, 7680), clamp_i32(height, 480, 4320))
}

/// The new client size carried by a resize message: the low and high
/// 16-bit words of its `lparam`.
pub fn client_size(lparam: isize) -> (r: (u32, u32))
    ensures
        r.0 == (lparam as u32) % 0x10000,
        r.1 == ((lparam as u32) / 0x10000) % 0x10000,
{
    let bits = lparam as u32;
    let width = bits & 0xffff;
    let height = (bits >> 16) & 0xffff;
    assert(width == bits % 0x10000) by (bit_vector)
        requires
            width == bits & 0xffff,
    ;
    assert(height == (bits / 0x10000) % 0x10000) by (bit_vector)
        requires
            height == (bits >> 16) & 0xffff,
    ;
    (width, height)
}

/// The control that sent a command message: the low word of its `wparam`.
pub fn command_id(wparam: usize) -> (r: usize)
    ensures
        r == wparam % 0x10000,
{
    let id = wparam & 0xffff;
    assert(id == wparam % 0x10000) by (bit_vector)
        requires
            id == wparam & 0xffff,
    ;
    id
}

// ---------------------------------------------------------------------------
// The connection form
// ---------------------------------------------------------------------------

#[derive(Clone, Copy, Debug, PartialEq, Eq)]
pub enum FormField {
    Server,
    Username,
    Domain,
    Password,
}

/// The field that takes the focus: the first of server and user name that
/// is missing, else the password.
pub fn initial_focus(config: &SessionConfig) -> (r: FormField)
    ensures
        r == if config.server is None {
            FormField::Server
        } else if config.username is None {
            FormField::Username
        } else {
            FormField::Password
        },
{
    if config.server.is_none() {
        FormField::Server
    } else if config.username.is_none() {
        FormField::Username
    } else {
        FormField::Password
    }
}

pub open spec fn label_width() -> int {
    100
}

pub open spec fn edit_width() -> int {
    390
}

/// Where the form's columns go in a window `width` pixels wide: the form is
/// centred with a margin of at least 16; the edit boxes shrink to fit, down
/// to 80; the connect button stays right-aligned under them.
#[derive(Clone, Copy, Debug, PartialEq, Eq)]
pub struct FormLayout {
    pub left: i32,
    pub edit_width: i32,
    pub connect_x: i32,
}

pub open spec fn max(a: int, b: int) -> int {
    if a < b {
        b
    } else {
        a
    }
}

pub open spec fn min(a: int, b: int) -> int {
    if a < b {
        a
    } else {
        b
    }
}

pub open spec fn form_layout_of(width: int) -> FormLayout {
    let form_width = label_width() + edit_width();
    let left = max((width - form_width) / 2, 16);
    FormLayout {
        left: left as i32,
        edit_width: max(min(edit_width(), width - left - label_width() - 16), 80) as i32,
        connect_x: max(min(left + form_width - 110, width - 126), 16) as i32,
    }
}

pub fn form_layout(width: i32) -> (r: FormLayout)
    requires
        width >= i32::MIN + 490,
    ensures
        r == form_layout_of(width as int),
{
    let form_width: i32 = 100 + 390;
    let left = if width < form_width {
        16
    } else {
        let half = (width - form_width) / 2;
        if half < 16 {
            16
        } else {
            half
        }
    };
    let room = width - left - 100 - 16;
    let edit = if room < 390 {
        room
    } else {
        390
    };
    let edit = if edit < 80 {
        80
    } else {
        edit
    };
    let right = left + form_width - 110;
    let limit = width - 126;
    let x = if right < limit {
        right
    } else {
        limit
    };
    let x = if x < 16 {
        16
    } else {
        x
    };
    FormLayout { left, edit_width: edit, connect_x: x }
}

/// Why the form cannot connect yet.
#[derive(Clone, Copy, Debug, PartialEq, Eq)]
pub enum FormProblem {
    /// The server is blank; it is the one value a session cannot start
    /// without.
    MissingServer,
}

/// A form field as entered: trimmed, `None` when blank.
pub open spec fn entered(text: Seq<char>) -> Option<Seq<char>> {
    if trim(text).len() == 0 {
        None
    } else {
        Some(trim(text))
    }
}

/// The password the session goes on with: the one entered, else the one
/// already known, else none (the system control then asks for it).
pub open spec fn form_password(entered_password: Seq<char>, known: Option<SecretString>) -> Option<
    Seq<char>,
> {
    if entered_password.len() > 0 {
        Some(entered_password)
    } else {
        match known {
            Some(p) => Some(p@),
            None => None,
        }
    }
}

pub open spec fn secret_view(p: Option<SecretString>) -> Option<Seq<char>> {
    match p {
        Some(s) => Some(s@),
        None => None,
    }
}

/// Takes the values of the connection form. Only the server is required;
/// a blank user name or domain is left out (the system credential prompt
/// then asks for what is missing). The values are trimmed; an empty
/// password field keeps the known password, if any. On success the session
/// is ready to start.
pub fn connect_from_form(
    config: &mut SessionConfig,
    server: &str,
    username: &str,
    domain: &str,
    entered_password: &str,
) -> (r: Result<(), FormProblem>)
    ensures
        trim(server@).len() == 0 <==> r is Err,
        r is Err ==> r == Err::<(), FormProblem>(FormProblem::MissingServer) && *final(config)
            == *old(config),
        r is Ok ==> {
            &&& final(config).document@ == with_lines(
                old(config).document@,
                interactive_lines(
                    old(config).document@.lines,
                    trim(server@),
                    entered(username@),
                    entered(domain@),
                ),
            )
            &&& opt_view(final(config).server) == Some(trim(server@))
            &&& opt_view(final(config).username) == entered(username@)
            &&& opt_view(final(config).domain) == entered(domain@)
            &&& secret_view(final(config).password) == form_password(
                entered_password@,
                old(config).password,
            )
            &&& final(config).password_source == if final(config).password is Some {
                Some(PasswordSource::Interactive)
            } else {
                None
            }
            &&& final(config).source_path == old(config).source_path
            &&& final(config).has_embedded_password == old(config).has_embedded_password
            &&& final(config).dynamic_resolution == old(config).dynamic_resolution
            &&& final(config).fullscreen == old(config).fullscreen
            &&& final(config).span == old(config).span
            &&& final(config).title == old(config).title
        },
{
    let server_chars = chars_of(server);
    if is_blank(server_chars.as_slice()) {
        return Err(FormProblem::MissingServer);
    }
    let entered_chars = chars_of(entered_password);
    let password = if entered_chars.len() == 0 {
        match &config.password {
            Some(p) => Some(SecretString::new(p.expose())),
            None => None,
        }
    } else {
        Some(SecretString::new(entered_password))
    };
    let server = string_of(trim_chars(server_chars.as_slice()).as_slice());
    let username = entered_value(username);
    let domain = entered_value(domain);
    config.apply_interactive(server, username, domain, password);
    Ok(())
}

/// A form field as entered: trimmed, `None` when blank.
fn entered_value(text: &str) -> (r: Option<String>)
    ensures
        opt_view(r) == entered(text@),
{
    let t = trim_chars(chars_of(text).as_slice());
    if t.len() == 0 {
        None
    } else {
        Some(string_of(t.as_slice()))
    }
}

// ---------------------------------------------------------------------------
// Events of a running session
// ---------------------------------------------------------------------------

/// What the main window does about one event: a new title, a message to
/// show, or nothing.
#[derive(Debug)]
pub struct EventResponse {
    pub title: Option<String>,
    pub message: Option<String>,
}

pub open spec fn strings_view(v: Seq<String>) -> Seq<Seq<char>> {
    v.map_values(|s: String| s@)
}

/// The server as shown in titles.
pub open spec fn shown_server(server: Option<String>) -> Seq<char> {
    match server {
        Some(s) => s@,
        None => "RDP"@,
    }
}

/// A disconnection is reported when some reason code is not `0`; the report
/// lists the arguments one per line.
pub open spec fn disconnect_message(args: Seq<Seq<char>>) -> Option<Seq<char>> {
    if exists|i: int| 0 <= i < args.len() && #[trigger] args[i] != "0"@ {
        Some(join(args, seq!['\n']))
    } else {
        None
    }
}

pub open spec fn response_to(
    kind: RdpEventKind,
    args: Seq<Seq<char>>,
    server: Option<String>,
    title: Seq<char>,
) -> (Option<Seq<char>>, Option<Seq<char>>) {
    match kind {
        RdpEventKind::Connecting => (Some(shown_server(server) + " - 正在连接 - mstsc-rs"@), None),
        RdpEventKind::Connected => (Some(shown_server(server) + " - 已连接 - mstsc-rs"@), None),
        RdpEventKind::LoginCompleted => (Some(title), None),
        RdpEventKind::Disconnected => (
            Some(shown_server(server) + " - 已断开 - mstsc-rs"@),
            disconnect_message(args),
        ),
        _ => (None, None),
    }
}

fn titled(server: &Option<String>, suffix: &str) -> (r: String)
    ensures
        r@ == shown_server(*server) + suffix@,
{
    let mut t = match server {
        Some(s) => chars_of(s.as_str()),
        None => chars_of("RDP"),
    };
    extend_chars(&mut t, chars_of(suffix).as_slice());
    string_of(t.as_slice())
}

/// The report of a disconnection, if any.
fn disconnect_report(args: &Vec<String>) -> (r: Option<String>)
    ensures
        opt_view(r) == disconnect_message(strings_view(args@)),
{
    let ghost parts = strings_view(args@);
    let zero = chars_of("0");
    let n = args.len();
    let mut any = false;
    let mut text: Vec<char> = Vec::new();
    for i in 0..n
        invariant
            n == args@.len() == parts.len(),
            parts == strings_view(args@),
            zero@ == "0"@,
            text@ == join(parts.take(i as int), seq!['\n']),
            any == exists|j: int| 0 <= j < i && #[trigger] parts[j] != "0"@,
    {
        let piece = chars_of(args[i].as_str());
        proof {
            assert(parts.take(i + 1).drop_last() =~= parts.take(i as int));
            assert(parts.take(i + 1).last() == piece@);
        }
        if i > 0 {
            text.push('\n');
        }
        extend_chars(&mut text, piece.as_slice());
        proof {
            if i == 0 {
                assert(text@ =~= piece@);
                assert(parts.take(1)[0] == piece@);
            } else {
                assert(text@ =~= join(parts.take(i as int), seq!['\n']) + seq!['\n'] + piece@);
            }
        }
        if !crate::text::chars_equal(piece.as_slice(), zero.as_slice()) {
            any = true;
        }
    }
    assert(parts.take(n as int) =~= parts);
    if any {
        Some(string_of(text.as_slice()))
    } else {
        None
    }
}

/// The window's response to `event`, for a session connecting to `server`
/// whose logged-in title is `title`.
pub fn event_response(event: &RdpEvent, server: &Option<String>, title: &str) -> (r: EventResponse)
    ensures
        (opt_view(r.title), opt_view(r.message)) == response_to(
            event.kind,
            strings_view(event.arguments@),
            *server,
            title@,
        ),
{
    match event.kind {
        RdpEventKind::Connecting => EventResponse {
            title: Some(titled(server, " - 正在连接 - mstsc-rs")),
            message: None,
        },
        RdpEventKind::Connected => EventResponse {
            title: Some(titled(server, " - 已连接 - mstsc-rs")),
            message: None,
        },
        RdpEventKind::LoginCompleted => EventResponse { title: Some(title.to_owned()), message: None },
        RdpEventKind::Disconnected => EventResponse {
            title: Some(titled(server, " - 已断开 - mstsc-rs")),
            message: disconnect_report(&event.arguments),
        },
        _ => EventResponse { title: None, message: None },
    }
}

} // verus!
