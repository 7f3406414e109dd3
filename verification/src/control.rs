//! The settings handed to the Windows Remote Desktop control before it
//! connects, derived from the merged session: which properties are written,
//! with which values, in which order.
use vstd::prelude::*;

use crate::config::{int_property, opt_view, SessionConfig};
use crate::display::clamp;
use crate::error::{Error, Result};
use crate::rdp::{LineView, RdpDocument};
use crate::redirection::{redirection_of, string_property, RedirectionSettings};
use crate::text::{
    chars_of, decimal, find_char, index_of, is_digit, lemma_decimal_digits, lemma_find_char_at,
    lemma_find_char_range, parse_u16, parse_u16_chars, string_of, sub_chars,
};

verus! {

// ---------------------------------------------------------------------------
// Server and port
// ---------------------------------------------------------------------------

/// `[host]:port`, `host:port` with a single colon, or a bare host. A port
/// that is not a 16-bit number is left out (for `host:port` the whole text
/// is then the host).
pub open spec fn server_and_port(s: Seq<char>) -> (Seq<char>, Option<u16>) {
    let b = s.skip(1);
    if s.len() > 0 && s[0] == '[' && find_char(b, ']') is Some {
        let i = find_char(b, ']')->0;
        let suffix = b.skip(i + 1);
        (
            b.take(i),
            if suffix.len() > 0 && suffix[0] == ':' {
                parse_u16(suffix.skip(1))
            } else {
                None
            },
        )
    } else {
        match find_char(s, ':') {
            Some(i) => if find_char(s.skip(i + 1), ':') is None && parse_u16(s.skip(i + 1)) is Some {
                (s.take(i), parse_u16(s.skip(i + 1)))
            } else {
                (s, None)
            },
            None => (s, None),
        }
    }
}

pub fn split_server_port(server: &str) -> (r: (String, Option<u16>))
    ensures
        (r.0@, r.1) == server_and_port(server@),
{
    let s = chars_of(server);
    let n = s.len();
    if n > 0 && s[0] == '[' {
        let b = sub_chars(s.as_slice(), 1, n);
        assert(b@ =~= server@.skip(1));
        if let Some(i) = index_of(b.as_slice(), ']') {
            proof {
                lemma_find_char_range(b@, ']');
            }
            let host = sub_chars(b.as_slice(), 0, i);
            let suffix = sub_chars(b.as_slice(), i + 1, b.len());
            assert(host@ =~= b@.take(i as int));
            assert(suffix@ =~= b@.skip(i + 1));
            let port = if suffix.len() > 0 && suffix[0] == ':' {
                let digits = sub_chars(suffix.as_slice(), 1, suffix.len());
                assert(digits@ =~= suffix@.skip(1));
                parse_u16_chars(digits.as_slice())
            } else {
                None
            };
            return (string_of(host.as_slice()), port);
        }
    }
    if let Some(i) = index_of(s.as_slice(), ':') {
        proof {
            lemma_find_char_range(s@, ':');
        }
        let rest = sub_chars(s.as_slice(), i + 1, n);
        assert(rest@ =~= server@.skip(i + 1));
        if index_of(rest.as_slice(), ':').is_none() {
            if let Some(port) = parse_u16_chars(rest.as_slice()) {
                let host = sub_chars(s.as_slice(), 0, i);
                assert(host@ =~= server@.take(i as int));
                return (string_of(host.as_slice()), Some(port));
            }
        }
    }
    (server.to_owned(), None)
}

/// `host:port` splits back into the host and the port, for a host without
/// colons that does not start with `[`.
pub proof fn lemma_host_port_roundtrip(host: Seq<char>, port: u16)
    requires
        find_char(host, ':') is None,
        host.len() == 0 || host[0] != '[',
    ensures
        server_and_port(host + seq![':'] + decimal(port as nat)) == (host, Some(port)),
{
    let d = decimal(port as nat);
    let s = host + seq![':'] + d;
    let i = host.len() as int;
    lemma_decimal_digits(port as nat);
    lemma_find_char_range(host, ':');
    assert forall|j: int| 0 <= j < i implies #[trigger] s[j] != ':' by {
        assert(s[j] == host[j]);
    }
    lemma_find_char_at(s, ':', i);
    assert(s.skip(i + 1) =~= d);
    assert(s.take(i) =~= host);
    assert forall|j: int| 0 <= j < d.len() implies #[trigger] d[j] != ':' by {
        assert(is_digit(d[j]));
    }
    lemma_find_char_at(d, ':', d.len() as int);
    assert(s[0] != '[');
}

// ---------------------------------------------------------------------------
// Property writes
// ---------------------------------------------------------------------------

/// A value written to a property of the control.
#[derive(Debug)]
pub enum SettingValue {
    Integer(i32),
    Unsigned(u32),
    Boolean(bool),
    Text(String),
    /// The path of the system WebAuthn plug-in, when it is installed.
    WebAuthnPlugin,
}

pub enum SettingView {
    Integer(i32),
    Unsigned(u32),
    Boolean(bool),
    Text(Seq<char>),
    WebAuthnPlugin,
}

impl View for SettingValue {
    type V = SettingView;

    open spec fn view(&self) -> SettingView {
        match self {
            SettingValue::Integer(v) => SettingView::Integer(*v),
            SettingValue::Unsigned(v) => SettingView::Unsigned(*v),
            SettingValue::Boolean(v) => SettingView::Boolean(*v),
            SettingValue::Text(s) => SettingView::Text(s@),
            SettingValue::WebAuthnPlugin => SettingView::WebAuthnPlugin,
        }
    }
}

/// A property of the control and the value written to it.
#[derive(Debug)]
pub struct PropertyWrite {
    pub name: String,
    pub value: SettingValue,
}

pub type WriteView = (Seq<char>, SettingView);

impl View for PropertyWrite {
    type V = WriteView;

    open spec fn view(&self) -> WriteView {
        (self.name@, self.value@)
    }
}

pub open spec fn writes_view(v: Seq<PropertyWrite>) -> Seq<WriteView> {
    v.map_values(|w: PropertyWrite| w@)
}

pub open spec fn one(name: Seq<char>, value: SettingView) -> Seq<WriteView> {
    seq![(name, value)]
}

/// `property` set to whether the integer property `key` is not 0, when the
/// document has it.
pub open spec fn bool_write(lines: Seq<LineView>, property: Seq<char>, key: Seq<char>) -> Seq<WriteView> {
    match int_property(lines, key) {
        Some(v) => one(property, SettingView::Boolean(v != 0)),
        None => seq![],
    }
}

/// `property` set to the integer property `key`, when the document has it.
pub open spec fn int_write(lines: Seq<LineView>, property: Seq<char>, key: Seq<char>) -> Seq<WriteView> {
    match int_property(lines, key) {
        Some(v) => one(property, SettingView::Integer(v)),
        None => seq![],
    }
}

/// `property` set to the integer property `key`, when it is not negative.
pub open spec fn unsigned_write(lines: Seq<LineView>, property: Seq<char>, key: Seq<char>) -> Seq<WriteView> {
    match int_property(lines, key) {
        Some(v) => if v >= 0 {
            one(property, SettingView::Unsigned(v as u32))
        } else {
            seq![]
        },
        None => seq![],
    }
}

/// `property` set to the string property `key`, when the document has it.
pub open spec fn text_write(lines: Seq<LineView>, property: Seq<char>, key: Seq<char>) -> Seq<WriteView> {
    match string_property(lines, key) {
        Some(s) => one(property, SettingView::Text(s)),
        None => seq![],
    }
}

fn push_write(out: &mut Vec<PropertyWrite>, name: &str, value: SettingValue)
    ensures
        writes_view(final(out)@) == writes_view(old(out)@) + one(name@, value@),
{
    let ghost before = out@;
    out.push(PropertyWrite { name: name.to_owned(), value });
    assert(writes_view(out@) =~= writes_view(before) + one(name@, value@));
}

fn push_bool(out: &mut Vec<PropertyWrite>, document: &RdpDocument, property: &str, key: &str)
    ensures
        writes_view(final(out)@) == writes_view(old(out)@) + bool_write(document@.lines, property@, key@),
{
    match document.get_integer(key) {
        Some(v) => push_write(out, property, SettingValue::Boolean(v != 0)),
        None => {
            assert(writes_view(out@) + Seq::<WriteView>::empty() =~= writes_view(out@));
        },
    }
}

fn push_int(out: &mut Vec<PropertyWrite>, document: &RdpDocument, property: &str, key: &str)
    ensures
        writes_view(final(out)@) == writes_view(old(out)@) + int_write(document@.lines, property@, key@),
{
    match document.get_integer(key) {
        Some(v) => push_write(out, property, SettingValue::Integer(v)),
        None => {
            assert(writes_view(out@) + Seq::<WriteView>::empty() =~= writes_view(out@));
        },
    }
}

fn push_unsigned(out: &mut Vec<PropertyWrite>, document: &RdpDocument, property: &str, key: &str)
    ensures
        writes_view(final(out)@) == writes_view(old(out)@) + unsigned_write(document@.lines, property@, key@),
{
    let value = document.get_integer(key);
    if let Some(v) = value {
        if v >= 0 {
            push_write(out, property, SettingValue::Unsigned(v as u32));
            return;
        }
    }
    assert(writes_view(out@) + Seq::<WriteView>::empty() =~= writes_view(out@));
}

fn push_text(out: &mut Vec<PropertyWrite>, document: &RdpDocument, property: &str, key: &str)
    ensures
        writes_view(final(out)@) == writes_view(old(out)@) + text_write(document@.lines, property@, key@),
{
    match document.get_string(key) {
        Some(v) => push_write(out, property, SettingValue::Text(v.to_owned())),
        None => {
            assert(writes_view(out@) + Seq::<WriteView>::empty() =~= writes_view(out@));
        },
    }
}

// ---------------------------------------------------------------------------
// The plan
// ---------------------------------------------------------------------------

/// The connection properties of the control itself: a failure to write one
/// stops the connection. The desktop is 1280 x 800 unless the document says
/// otherwise, kept in 200..=8192; the colour depth is 32 unless the
/// document says otherwise, kept in 15..=32; a spanned session is not the
/// control's own full screen.
pub open spec fn connection_writes(host: Seq<char>, c: SessionConfig) -> Seq<WriteView> {
    let lines = c.document@.lines;
    one("Server"@, SettingView::Text(host)) + match opt_view(c.username) {
        Some(u) => one("UserName"@, SettingView::Text(u)),
        None => seq![],
    } + match opt_view(c.domain) {
        Some(d) => one("Domain"@, SettingView::Text(d)),
        None => seq![],
    } + one(
        "DesktopWidth"@,
        SettingView::Integer(
            clamp(
                match int_property(lines, "desktopwidth"@) {
                    Some(v) => v as int,
                    None => 1280,
                },
                200,
                8192,
            ) as i32,
        ),
    ) + one(
        "DesktopHeight"@,
        SettingView::Integer(
            clamp(
                match int_property(lines, "desktopheight"@) {
                    Some(v) => v as int,
                    None => 800,
                },
                200,
                8192,
            ) as i32,
        ),
    ) + one(
        "ColorDepth"@,
        SettingView::Integer(
            clamp(
                match int_property(lines, "session bpp"@) {
                    Some(v) => v as int,
                    None => 32,
                },
                15,
                32,
            ) as i32,
        ),
    ) + one("FullScreen"@, SettingView::Boolean(c.fullscreen && !c.span))
}

/// The advanced settings; one the installed control does not have is
/// skipped. WebAuthn is redirected unless the document turns it off with
/// 0. Smart sizing follows dynamic resolution, so that servers without live
/// display updates still fit the window.
pub open spec fn advanced_writes(c: SessionConfig, port: Option<u16>) -> Seq<WriteView> {
    let lines = c.document@.lines;
    one("ContainerHandledFullScreen"@, SettingView::Boolean(c.span)) + match port {
        Some(p) => one("RDPPort"@, SettingView::Integer(p as i32)),
        None => seq![],
    } + (if int_property(lines, "redirectwebauthn"@) != Some(0i32) {
        one("PluginDlls"@, SettingView::WebAuthnPlugin)
    } else {
        seq![]
    }) + bool_write(lines, "RedirectPrinters"@, "redirectprinters"@) + bool_write(
        lines,
        "RedirectSmartCards"@,
        "redirectsmartcards"@,
    ) + bool_write(lines, "RedirectPorts"@, "redirectcomports"@) + bool_write(
        lines,
        "RedirectClipboard"@,
        "redirectclipboard"@,
    ) + bool_write(lines, "AudioCaptureRedirectionMode"@, "audiocapturemode"@) + bool_write(
        lines,
        "EnableCredSspSupport"@,
        "enablecredsspsupport"@,
    ) + bool_write(lines, "ConnectToAdministerServer"@, "administrative session"@) + bool_write(
        lines,
        "PublicMode"@,
        "public mode"@,
    ) + one("SmartSizing"@, SettingView::Boolean(c.dynamic_resolution)) + int_write(
        lines,
        "AudioRedirectionMode"@,
        "audiomode"@,
    ) + int_write(lines, "AuthenticationLevel"@, "authentication level"@) + int_write(
        lines,
        "PerformanceFlags"@,
        "performance flags"@,
    ) + text_write(lines, "LoadBalanceInfo"@, "loadbalanceinfo"@) + match string_property(
        lines,
        "drivestoredirect"@,
    ) {
        Some(d) => one("RedirectDrives"@, SettingView::Boolean(d.len() > 0)),
        None => seq![],
    }
}

/// The extended settings; one the installed control does not have is
/// skipped.
pub open spec fn extended_writes(lines: Seq<LineView>) -> Seq<WriteView> {
    bool_write(lines, "RestrictedLogon"@, "restricted admin mode"@) + bool_write(
        lines,
        "RedirectedAuthentication"@,
        "remote credential guard"@,
    ) + bool_write(lines, "EnableLocationRedirection"@, "redirectlocation"@) + bool_write(
        lines,
        "EnableRdsAadAuth"@,
        "enablerdsaadauth"@,
    ) + bool_write(lines, "RDGIsKDCProxy"@, "rdgiskdcproxy"@) + unsigned_write(
        lines,
        "DesktopScaleFactor"@,
        "desktopscalefactor"@,
    ) + unsigned_write(lines, "DeviceScaleFactor"@, "devicescalefactor"@) + text_write(
        lines,
        "SelectedMonitors"@,
        "selectedmonitors"@,
    ) + text_write(lines, "KDCProxyName"@, "kdcproxyname"@)
}

/// The RD Gateway settings, when the document names a gateway host.
pub open spec fn gateway_writes(lines: Seq<LineView>) -> Option<Seq<WriteView>> {
    match string_property(lines, "gatewayhostname"@) {
        Some(h) => Some(
            one("GatewayHostname"@, SettingView::Text(h)) + int_write(
                lines,
                "GatewayUsageMethod"@,
                "gatewayusagemethod"@,
            ) + int_write(lines, "GatewayProfileUsageMethod"@, "gatewayprofileusagemethod"@)
                + int_write(lines, "GatewayCredsSource"@, "gatewaycredentialssource"@),
        ),
        None => None,
    }
}

/// The RemoteApp settings, when RemoteApp mode is on.
pub open spec fn remote_app_writes(lines: Seq<LineView>) -> Option<Seq<WriteView>> {
    if int_property(lines, "remoteapplicationmode"@) == Some(1i32) {
        Some(
            one("RemoteProgramMode"@, SettingView::Boolean(true)) + text_write(
                lines,
                "RemoteApplicationProgram"@,
                "remoteapplicationprogram"@,
            ) + text_write(lines, "RemoteApplicationArgs"@, "remoteapplicationcmdline"@),
        )
    } else {
        None
    }
}

/// Everything written to the control before it connects, in order: the
/// connection properties, multiple-monitor mode, the advanced and extended
/// settings, resource redirection, then the gateway and RemoteApp settings.
/// The password is handed over separately.
#[derive(Debug)]
pub struct SettingsPlan {
    pub connection: Vec<PropertyWrite>,
    pub use_multimon: Option<bool>,
    pub advanced: Vec<PropertyWrite>,
    pub extended: Vec<PropertyWrite>,
    pub redirection: RedirectionSettings,
    pub gateway: Option<Vec<PropertyWrite>>,
    pub remote_app: Option<Vec<PropertyWrite>>,
}

pub open spec fn opt_writes_view(v: Option<Vec<PropertyWrite>>) -> Option<Seq<WriteView>> {
    match v {
        Some(w) => Some(writes_view(w@)),
        None => None,
    }
}

fn clamp_setting(value: Option<i32>, default: i32, lo: i32, hi: i32) -> (r: i32)
    requires
        lo <= hi,
    ensures
        r == clamp(
            match value {
                Some(v) => v as int,
                None => default as int,
            },
            lo as int,
            hi as int,
        ),
{
    let v = match value {
        Some(v) => v,
        None => default,
    };
    if v < lo {
        lo
    } else if v > hi {
        hi
    } else {
        v
    }
}

fn connection_settings(host: &str, config: &SessionConfig) -> (r: Vec<PropertyWrite>)
    ensures
        writes_view(r@) == connection_writes(host@, *config),
{
    let document = &config.document;
    let mut out: Vec<PropertyWrite> = Vec::new();
    assert(writes_view(out@) =~= Seq::<WriteView>::empty());
    push_write(&mut out, "Server", SettingValue::Text(host.to_owned()));
    let ghost a = writes_view(out@);
    match &config.username {
        Some(u) => push_write(&mut out, "UserName", SettingValue::Text(u.clone())),
        None => {},
    }
    match &config.domain {
        Some(d) => push_write(&mut out, "Domain", SettingValue::Text(d.clone())),
        None => {},
    }
    let width = clamp_setting(document.get_integer("desktopwidth"), 1280, 200, 8192);
    let height = clamp_setting(document.get_integer("desktopheight"), 800, 200, 8192);
    let depth = clamp_setting(document.get_integer("session bpp"), 32, 15, 32);
    push_write(&mut out, "DesktopWidth", SettingValue::Integer(width));
    push_write(&mut out, "DesktopHeight", SettingValue::Integer(height));
    push_write(&mut out, "ColorDepth", SettingValue::Integer(depth));
    push_write(&mut out, "FullScreen", SettingValue::Boolean(config.fullscreen && !config.span));
    assert(writes_view(out@) =~= connection_writes(host@, *config));
    out
}

fn advanced_settings(config: &SessionConfig, port: Option<u16>) -> (r: Vec<PropertyWrite>)
    ensures
        writes_view(r@) == advanced_writes(*config, port),
{
    let d = &config.document;
    let mut out: Vec<PropertyWrite> = Vec::new();
    assert(writes_view(out@) =~= Seq::<WriteView>::empty());
    push_write(&mut out, "ContainerHandledFullScreen", SettingValue::Boolean(config.span));
    if let Some(p) = port {
        push_write(&mut out, "RDPPort", SettingValue::Integer(p as i32));
    }
    if d.get_integer("redirectwebauthn") != Some(0i32) {
        push_write(&mut out, "PluginDlls", SettingValue::WebAuthnPlugin);
    }
    push_bool(&mut out, d, "RedirectPrinters", "redirectprinters");
    push_bool(&mut out, d, "RedirectSmartCards", "redirectsmartcards");
    push_bool(&mut out, d, "RedirectPorts", "redirectcomports");
    push_bool(&mut out, d, "RedirectClipboard", "redirectclipboard");
    push_bool(&mut out, d, "AudioCaptureRedirectionMode", "audiocapturemode");
    push_bool(&mut out, d, "EnableCredSspSupport", "enablecredsspsupport");
    push_bool(&mut out, d, "ConnectToAdministerServer", "administrative session");
    push_bool(&mut out, d, "PublicMode", "public mode");
    push_write(&mut out, "SmartSizing", SettingValue::Boolean(config.dynamic_resolution));
    push_int(&mut out, d, "AudioRedirectionMode", "audiomode");
    push_int(&mut out, d, "AuthenticationLevel", "authentication level");
    push_int(&mut out, d, "PerformanceFlags", "performance flags");
    push_text(&mut out, d, "LoadBalanceInfo", "loadbalanceinfo");
    if let Some(drives) = d.get_string("drivestoredirect") {
        let nonempty = chars_of(drives).len() > 0;
        push_write(&mut out, "RedirectDrives", SettingValue::Boolean(nonempty));
    }
    assert(writes_view(out@) =~= advanced_writes(*config, port));
    out
}

/// The extended settings of the control.
pub fn extended_settings(document: &RdpDocument) -> (r: Vec<PropertyWrite>)
    ensures
        writes_view(r@) == extended_writes(document@.lines),
{
    let d = document;
    let mut out: Vec<PropertyWrite> = Vec::new();
    assert(writes_view(out@) =~= Seq::<WriteView>::empty());
    push_bool(&mut out, d, "RestrictedLogon", "restricted admin mode");
    push_bool(&mut out, d, "RedirectedAuthentication", "remote credential guard");
    push_bool(&mut out, d, "EnableLocationRedirection", "redirectlocation");
    push_bool(&mut out, d, "EnableRdsAadAuth", "enablerdsaadauth");
    push_bool(&mut out, d, "RDGIsKDCProxy", "rdgiskdcproxy");
    push_unsigned(&mut out, d, "DesktopScaleFactor", "desktopscalefactor");
    push_unsigned(&mut out, d, "DeviceScaleFactor", "devicescalefactor");
    push_text(&mut out, d, "SelectedMonitors", "selectedmonitors");
    push_text(&mut out, d, "KDCProxyName", "kdcproxyname");
    assert(writes_view(out@) =~= extended_writes(document@.lines));
    out
}

/// The RD Gateway settings of the control, when a gateway is configured.
pub fn gateway_settings(document: &RdpDocument) -> (r: Option<Vec<PropertyWrite>>)
    ensures
        opt_writes_view(r) == gateway_writes(document@.lines),
{
    let hostname = match document.get_string("gatewayhostname") {
        Some(h) => h,
        None => {
            return None;
        },
    };
    let mut out: Vec<PropertyWrite> = Vec::new();
    assert(writes_view(out@) =~= Seq::<WriteView>::empty());
    push_write(&mut out, "GatewayHostname", SettingValue::Text(hostname.to_owned()));
    push_int(&mut out, document, "GatewayUsageMethod", "gatewayusagemethod");
    push_int(&mut out, document, "GatewayProfileUsageMethod", "gatewayprofileusagemethod");
    push_int(&mut out, document, "GatewayCredsSource", "gatewaycredentialssource");
    assert(writes_view(out@) =~= gateway_writes(document@.lines)->0);
    Some(out)
}

/// The RemoteApp settings of the control, when RemoteApp mode is on.
pub fn remote_app_settings(document: &RdpDocument) -> (r: Option<Vec<PropertyWrite>>)
    ensures
        opt_writes_view(r) == remote_app_writes(document@.lines),
{
    if document.get_integer("remoteapplicationmode") != Some(1i32) {
        return None;
    }
    let mut out: Vec<PropertyWrite> = Vec::new();
    assert(writes_view(out@) =~= Seq::<WriteView>::empty());
    push_write(&mut out, "RemoteProgramMode", SettingValue::Boolean(true));
    push_text(&mut out, document, "RemoteApplicationProgram", "remoteapplicationprogram");
    push_text(&mut out, document, "RemoteApplicationArgs", "remoteapplicationcmdline");
    assert(writes_view(out@) =~= remote_app_writes(document@.lines)->0);
    Some(out)
}

/// The settings for `config`; a session without a server cannot connect.
pub fn settings_plan(config: &SessionConfig) -> (r: Result<SettingsPlan>)
    ensures
        config.server is None <==> r is Err,
        r matches Err(e) ==> (e matches Error::CommandLine(m) && m@ == "server address is required"@),
        r matches Ok(p) ==> {
            let lines = config.document@.lines;
            let (host, port) = server_and_port(config.server->0@);
            &&& writes_view(p.connection@) == connection_writes(host, *config)
            &&& p.use_multimon == match int_property(lines, "use multimon"@) {
                Some(v) => Some(v != 0),
                None => None,
            }
            &&& writes_view(p.advanced@) == advanced_writes(*config, port)
            &&& writes_view(p.extended@) == extended_writes(lines)
            &&& redirection_of(p.redirection, lines)
            &&& opt_writes_view(p.gateway) == gateway_writes(lines)
            &&& opt_writes_view(p.remote_app) == remote_app_writes(lines)
        },
{
    let server = match &config.server {
        Some(s) => s,
        None => {
            return Err(Error::CommandLine("server address is required".to_owned()));
        },
    };
    let redirection = RedirectionSettings::from_document(&config.document);
    let (host, port) = split_server_port(server.as_str());
    let use_multimon = match config.document.get_integer("use multimon") {
        Some(v) => Some(v != 0),
        None => None,
    };
    Ok(SettingsPlan {
        connection: connection_settings(host.as_str(), config),
        use_multimon,
        advanced: advanced_settings(config, port),
        extended: extended_settings(&config.document),
        redirection,
        gateway: gateway_settings(&config.document),
        remote_app: remote_app_settings(&config.document),
    })
}

// ---------------------------------------------------------------------------
// The system WebAuthn plug-in
// ---------------------------------------------------------------------------

/// What to do after asking Windows for the system directory with a buffer
/// of `capacity` UTF-16 units.
#[derive(Clone, Copy, Debug, PartialEq, Eq)]
pub enum DirectoryRead {
    /// No usable directory: the call failed or named an over-long path.
    Unavailable,
    /// The first `length` units hold the directory.
    Complete(usize),
    /// Retry with a buffer of this many units.
    Grow(usize),
}

/// The call reports `length`: 0 or more than 32767 units means no
/// directory; less than the buffer means it was written; otherwise the
/// buffer must hold `length` units and a terminator.
pub fn system_directory_step(length: u32, capacity: usize) -> (r: DirectoryRead)
    ensures
        r == if length == 0 || length > 32767 {
            DirectoryRead::Unavailable
        } else if (length as int) < capacity {
            DirectoryRead::Complete(length as usize)
        } else {
            DirectoryRead::Grow((length + 1) as usize)
        },
{
    if length == 0 || length > 32767 {
        DirectoryRead::Unavailable
    } else if (length as usize) < capacity {
        DirectoryRead::Complete(length as usize)
    } else {
        DirectoryRead::Grow(length as usize + 1)
    }
}

/// The WebAuthn plug-in in the system directory `directory`.
pub fn webauthn_plugin_path(directory: &str) -> (r: String)
    ensures
        r@ == directory@ + "\\webauthn.dll"@,
{
    let mut path = chars_of(directory);
    crate::text::extend_chars(&mut path, chars_of("\\webauthn.dll").as_slice());
    string_of(path.as_slice())
}

// ---------------------------------------------------------------------------
// Which document key each property is written from
// ---------------------------------------------------------------------------

/// The values written to the property `name`, in order.
pub open spec fn values_written(writes: Seq<WriteView>, name: Seq<char>) -> Seq<SettingView>
    decreases writes.len(),
{
    if writes.len() == 0 {
        seq![]
    } else {
        values_written(writes.drop_last(), name) + if writes.last().0 == name {
            seq![writes.last().1]
        } else {
            seq![]
        }
    }
}

/// One boolean write of whether the integer is not 0, or none without one.
pub open spec fn flag_values(v: Option<i32>) -> Seq<SettingView> {
    match v {
        Some(x) => seq![SettingView::Boolean(x != 0)],
        None => seq![],
    }
}

/// One unsigned write of the integer when it is not negative, else none.
pub open spec fn unsigned_values(v: Option<i32>) -> Seq<SettingView> {
    match v {
        Some(x) => if x >= 0 {
            seq![SettingView::Unsigned(x as u32)]
        } else {
            seq![]
        },
        None => seq![],
    }
}

/// One text write of the text, or none without one.
pub open spec fn text_values(v: Option<Seq<char>>) -> Seq<SettingView> {
    match v {
        Some(t) => seq![SettingView::Text(t)],
        None => seq![],
    }
}

/// One integer write of the integer, or none without one.
pub open spec fn integer_values(v: Option<i32>) -> Seq<SettingView> {
    match v {
        Some(x) => seq![SettingView::Integer(x)],
        None => seq![],
    }
}

broadcast proof fn lemma_written_concat(a: Seq<WriteView>, b: Seq<WriteView>, name: Seq<char>)
    ensures
        #[trigger] values_written(a + b, name) == values_written(a, name) + values_written(b, name),
    decreases b.len(),
{
    if b.len() == 0 {
        assert(a + b =~= a);
        assert(values_written(a, name) + values_written(b, name) =~= values_written(a, name));
    } else {
        lemma_written_concat(a, b.drop_last(), name);
        assert((a + b).drop_last() =~= a + b.drop_last());
        assert((a + b).last() == b.last());
        assert(values_written(a + b, name) =~= values_written(a, name) + values_written(b, name));
    }
}

broadcast proof fn lemma_written_one(property: Seq<char>, value: SettingView, name: Seq<char>)
    ensures
        #[trigger] values_written(one(property, value), name) == if property == name {
            seq![value]
        } else {
            seq![]
        },
{
    let w = one(property, value);
    assert(w.drop_last() =~= Seq::<WriteView>::empty());
    assert(values_written(w.drop_last(), name) =~= Seq::<SettingView>::empty());
    assert(w.last() == (property, value));
    assert(values_written(w, name) =~= (if property == name {
        seq![value]
    } else {
        seq![]
    }));
}

broadcast proof fn lemma_written_bool(lines: Seq<LineView>, property: Seq<char>, key: Seq<char>, name: Seq<char>)
    ensures
        #[trigger] values_written(bool_write(lines, property, key), name) == if property == name {
            flag_values(int_property(lines, key))
        } else {
            seq![]
        },
{
    lemma_written_one(property, SettingView::Boolean(int_property(lines, key)->0 != 0), name);
}

broadcast proof fn lemma_written_int(lines: Seq<LineView>, property: Seq<char>, key: Seq<char>, name: Seq<char>)
    ensures
        #[trigger] values_written(int_write(lines, property, key), name) == if property == name {
            integer_values(int_property(lines, key))
        } else {
            seq![]
        },
{
    lemma_written_one(property, SettingView::Integer(int_property(lines, key)->0), name);
}

broadcast proof fn lemma_written_unsigned(lines: Seq<LineView>, property: Seq<char>, key: Seq<char>, name: Seq<char>)
    ensures
        #[trigger] values_written(unsigned_write(lines, property, key), name) == if property == name {
            unsigned_values(int_property(lines, key))
        } else {
            seq![]
        },
{
    lemma_written_one(property, SettingView::Unsigned(int_property(lines, key)->0 as u32), name);
}

broadcast proof fn lemma_written_text(lines: Seq<LineView>, property: Seq<char>, key: Seq<char>, name: Seq<char>)
    ensures
        #[trigger] values_written(text_write(lines, property, key), name) == if property == name {
            text_values(string_property(lines, key))
        } else {
            seq![]
        },
{
    lemma_written_one(property, SettingView::Text(string_property(lines, key)->0), name);
}

/// Each on/off property among the advanced settings is written from its own
/// `.rdp` key and from no other: once, as whether the key is not 0, when the
/// document has the key as an integer, and not at all otherwise. Clipboard,
/// printers, smart cards, serial ports, microphone, CredSSP, administrative
/// session and public mode each follow their documented key.
#[verifier::rlimit(100)]
#[verifier::spinoff_prover]
pub proof fn lemma_advanced_flags(c: SessionConfig, port: Option<u16>)
    ensures
        values_written(advanced_writes(c, port), "RedirectPrinters"@) == flag_values(
            int_property(c.document@.lines, "redirectprinters"@),
        ),
        values_written(advanced_writes(c, port), "RedirectSmartCards"@) == flag_values(
            int_property(c.document@.lines, "redirectsmartcards"@),
        ),
        values_written(advanced_writes(c, port), "RedirectPorts"@) == flag_values(
            int_property(c.document@.lines, "redirectcomports"@),
        ),
        values_written(advanced_writes(c, port), "RedirectClipboard"@) == flag_values(
            int_property(c.document@.lines, "redirectclipboard"@),
        ),
        values_written(advanced_writes(c, port), "AudioCaptureRedirectionMode"@) == flag_values(
            int_property(c.document@.lines, "audiocapturemode"@),
        ),
        values_written(advanced_writes(c, port), "EnableCredSspSupport"@) == flag_values(
            int_property(c.document@.lines, "enablecredsspsupport"@),
        ),
        values_written(advanced_writes(c, port), "ConnectToAdministerServer"@) == flag_values(
            int_property(c.document@.lines, "administrative session"@),
        ),
        values_written(advanced_writes(c, port), "PublicMode"@) == flag_values(
            int_property(c.document@.lines, "public mode"@),
        ),
{
    broadcast use lemma_written_concat, lemma_written_one, lemma_written_bool, lemma_written_int,
        lemma_written_unsigned, lemma_written_text;

    reveal_strlit("ContainerHandledFullScreen");
    assert("ContainerHandledFullScreen"@.len() == 26);
    reveal_strlit("RDPPort");
    assert("RDPPort"@.len() == 7);
    reveal_strlit("PluginDlls");
    assert("PluginDlls"@.len() == 10);
    reveal_strlit("RedirectPrinters");
    assert("RedirectPrinters"@.len() == 16);
    reveal_strlit("RedirectSmartCards");
    assert("RedirectSmartCards"@.len() == 18);
    reveal_strlit("RedirectPorts");
    assert("RedirectPorts"@.len() == 13);
    reveal_strlit("RedirectClipboard");
    assert("RedirectClipboard"@.len() == 17);
    reveal_strlit("AudioCaptureRedirectionMode");
    assert("AudioCaptureRedirectionMode"@.len() == 27);
    reveal_strlit("EnableCredSspSupport");
    assert("EnableCredSspSupport"@.len() == 20);
    reveal_strlit("ConnectToAdministerServer");
    assert("ConnectToAdministerServer"@.len() == 25);
    reveal_strlit("PublicMode");
    assert("PublicMode"@.len() == 10);
    reveal_strlit("SmartSizing");
    assert("SmartSizing"@.len() == 11);
    reveal_strlit("AudioRedirectionMode");
    assert("AudioRedirectionMode"@.len() == 20);
    reveal_strlit("AuthenticationLevel");
    assert("AuthenticationLevel"@.len() == 19);
    reveal_strlit("PerformanceFlags");
    assert("PerformanceFlags"@.len() == 16);
    reveal_strlit("LoadBalanceInfo");
    assert("LoadBalanceInfo"@.len() == 15);
    reveal_strlit("RedirectDrives");
    assert("RedirectDrives"@.len() == 14);
    assert("PluginDlls"@[1] != "PublicMode"@[1]);
    assert("RedirectPrinters"@[0] != "PerformanceFlags"@[0]);
    assert("EnableCredSspSupport"@[0] != "AudioRedirectionMode"@[0]);
}

/// The integer properties among the advanced settings are each written from
/// their own `.rdp` key: audio playback from `audiomode`, the server
/// authentication level from `authentication level` and the performance
/// flags from `performance flags`; once when the document has the key, not
/// at all otherwise.
#[verifier::rlimit(100)]
#[verifier::spinoff_prover]
pub proof fn lemma_advanced_integers(c: SessionConfig, port: Option<u16>)
    ensures
        values_written(advanced_writes(c, port), "AudioRedirectionMode"@) == integer_values(
            int_property(c.document@.lines, "audiomode"@),
        ),
        values_written(advanced_writes(c, port), "AuthenticationLevel"@) == integer_values(
            int_property(c.document@.lines, "authentication level"@),
        ),
        values_written(advanced_writes(c, port), "PerformanceFlags"@) == integer_values(
            int_property(c.document@.lines, "performance flags"@),
        ),
{
    broadcast use lemma_written_concat, lemma_written_one, lemma_written_bool, lemma_written_int,
        lemma_written_unsigned, lemma_written_text;

    reveal_strlit("ContainerHandledFullScreen");
    assert("ContainerHandledFullScreen"@.len() == 26);
    reveal_strlit("RDPPort");
    assert("RDPPort"@.len() == 7);
    reveal_strlit("PluginDlls");
    assert("PluginDlls"@.len() == 10);
    reveal_strlit("RedirectPrinters");
    assert("RedirectPrinters"@.len() == 16);
    reveal_strlit("RedirectSmartCards");
    assert("RedirectSmartCards"@.len() == 18);
    reveal_strlit("RedirectPorts");
    assert("RedirectPorts"@.len() == 13);
    reveal_strlit("RedirectClipboard");
    assert("RedirectClipboard"@.len() == 17);
    reveal_strlit("AudioCaptureRedirectionMode");
    assert("AudioCaptureRedirectionMode"@.len() == 27);
    reveal_strlit("EnableCredSspSupport");
    assert("EnableCredSspSupport"@.len() == 20);
    reveal_strlit("ConnectToAdministerServer");
    assert("ConnectToAdministerServer"@.len() == 25);
    reveal_strlit("PublicMode");
    assert("PublicMode"@.len() == 10);
    reveal_strlit("SmartSizing");
    assert("SmartSizing"@.len() == 11);
    reveal_strlit("AudioRedirectionMode");
    assert("AudioRedirectionMode"@.len() == 20);
    reveal_strlit("AuthenticationLevel");
    assert("AuthenticationLevel"@.len() == 19);
    reveal_strlit("PerformanceFlags");
    assert("PerformanceFlags"@.len() == 16);
    reveal_strlit("LoadBalanceInfo");
    assert("LoadBalanceInfo"@.len() == 15);
    reveal_strlit("RedirectDrives");
    assert("RedirectDrives"@.len() == 14);
    assert("PluginDlls"@[1] != "PublicMode"@[1]);
    assert("RedirectPrinters"@[0] != "PerformanceFlags"@[0]);
    assert("EnableCredSspSupport"@[0] != "AudioRedirectionMode"@[0]);
}

/// The other advanced settings: full screen handled by the host follows
/// span, the port is the server's, the WebAuthn plug-in is loaded unless
/// `redirectwebauthn` is 0, smart sizing follows dynamic resolution, load
/// balancing comes from `loadbalanceinfo`, and drives are redirected when
/// `drivestoredirect` is not empty. Each is written once at most.
#[verifier::rlimit(100)]
#[verifier::spinoff_prover]
pub proof fn lemma_advanced_session_values(c: SessionConfig, port: Option<u16>)
    ensures
        values_written(advanced_writes(c, port), "ContainerHandledFullScreen"@) == seq![
            SettingView::Boolean(c.span),
        ],
        values_written(advanced_writes(c, port), "RDPPort"@) == match port {
            Some(p) => seq![SettingView::Integer(p as i32)],
            None => Seq::<SettingView>::empty(),
        },
        values_written(advanced_writes(c, port), "PluginDlls"@) == if int_property(
            c.document@.lines,
            "redirectwebauthn"@,
        ) == Some(0i32) {
            Seq::<SettingView>::empty()
        } else {
            seq![SettingView::WebAuthnPlugin]
        },
        values_written(advanced_writes(c, port), "SmartSizing"@) == seq![
            SettingView::Boolean(c.dynamic_resolution),
        ],
        values_written(advanced_writes(c, port), "LoadBalanceInfo"@) == text_values(
            string_property(c.document@.lines, "loadbalanceinfo"@),
        ),
        values_written(advanced_writes(c, port), "RedirectDrives"@) == match string_property(
            c.document@.lines,
            "drivestoredirect"@,
        ) {
            Some(d) => seq![SettingView::Boolean(d.len() > 0)],
            None => Seq::<SettingView>::empty(),
        },
{
    broadcast use lemma_written_concat, lemma_written_one, lemma_written_bool, lemma_written_int,
        lemma_written_unsigned, lemma_written_text;

    reveal_strlit("ContainerHandledFullScreen");
    assert("ContainerHandledFullScreen"@.len() == 26);
    reveal_strlit("RDPPort");
    assert("RDPPort"@.len() == 7);
    reveal_strlit("PluginDlls");
    assert("PluginDlls"@.len() == 10);
    reveal_strlit("RedirectPrinters");
    assert("RedirectPrinters"@.len() == 16);
    reveal_strlit("RedirectSmartCards");
    assert("RedirectSmartCards"@.len() == 18);
    reveal_strlit("RedirectPorts");
    assert("RedirectPorts"@.len() == 13);
    reveal_strlit("RedirectClipboard");
    assert("RedirectClipboard"@.len() == 17);
    reveal_strlit("AudioCaptureRedirectionMode");
    assert("AudioCaptureRedirectionMode"@.len() == 27);
    reveal_strlit("EnableCredSspSupport");
    assert("EnableCredSspSupport"@.len() == 20);
    reveal_strlit("ConnectToAdministerServer");
    assert("ConnectToAdministerServer"@.len() == 25);
    reveal_strlit("PublicMode");
    assert("PublicMode"@.len() == 10);
    reveal_strlit("SmartSizing");
    assert("SmartSizing"@.len() == 11);
    reveal_strlit("AudioRedirectionMode");
    assert("AudioRedirectionMode"@.len() == 20);
    reveal_strlit("AuthenticationLevel");
    assert("AuthenticationLevel"@.len() == 19);
    reveal_strlit("PerformanceFlags");
    assert("PerformanceFlags"@.len() == 16);
    reveal_strlit("LoadBalanceInfo");
    assert("LoadBalanceInfo"@.len() == 15);
    reveal_strlit("RedirectDrives");
    assert("RedirectDrives"@.len() == 14);
    assert("PluginDlls"@[1] != "PublicMode"@[1]);
    assert("RedirectPrinters"@[0] != "PerformanceFlags"@[0]);
    assert("EnableCredSspSupport"@[0] != "AudioRedirectionMode"@[0]);
}

/// Each extended setting is written from its own `.rdp` key and from no
/// other, once when the document has the key (a scale factor only when not
/// negative), not at all otherwise: Restricted Admin mode, Remote Credential
/// Guard, location, Microsoft Entra sign-in, the KDC proxy, the desktop and
/// device scale factors and the selected monitors.
#[verifier::rlimit(100)]
#[verifier::spinoff_prover]
pub proof fn lemma_extended_keys(lines: Seq<LineView>)
    ensures
        values_written(extended_writes(lines), "RestrictedLogon"@) == flag_values(int_property(lines, "restricted admin mode"@)),
        values_written(extended_writes(lines), "RedirectedAuthentication"@) == flag_values(int_property(lines, "remote credential guard"@)),
        values_written(extended_writes(lines), "EnableLocationRedirection"@) == flag_values(int_property(lines, "redirectlocation"@)),
        values_written(extended_writes(lines), "EnableRdsAadAuth"@) == flag_values(int_property(lines, "enablerdsaadauth"@)),
        values_written(extended_writes(lines), "RDGIsKDCProxy"@) == flag_values(int_property(lines, "rdgiskdcproxy"@)),
        values_written(extended_writes(lines), "DesktopScaleFactor"@) == unsigned_values(int_property(lines, "desktopscalefactor"@)),
        values_written(extended_writes(lines), "DeviceScaleFactor"@) == unsigned_values(int_property(lines, "devicescalefactor"@)),
        values_written(extended_writes(lines), "SelectedMonitors"@) == text_values(string_property(lines, "selectedmonitors"@)),
        values_written(extended_writes(lines), "KDCProxyName"@) == text_values(string_property(lines, "kdcproxyname"@)),
{
    broadcast use lemma_written_concat, lemma_written_one, lemma_written_bool, lemma_written_int,
        lemma_written_unsigned, lemma_written_text;

    reveal_strlit("RestrictedLogon");
    assert("RestrictedLogon"@.len() == 15);
    reveal_strlit("RedirectedAuthentication");
    assert("RedirectedAuthentication"@.len() == 24);
    reveal_strlit("EnableLocationRedirection");
    assert("EnableLocationRedirection"@.len() == 25);
    reveal_strlit("EnableRdsAadAuth");
    assert("EnableRdsAadAuth"@.len() == 16);
    reveal_strlit("RDGIsKDCProxy");
    assert("RDGIsKDCProxy"@.len() == 13);
    reveal_strlit("DesktopScaleFactor");
    assert("DesktopScaleFactor"@.len() == 18);
    reveal_strlit("DeviceScaleFactor");
    assert("DeviceScaleFactor"@.len() == 17);
    reveal_strlit("SelectedMonitors");
    assert("SelectedMonitors"@.len() == 16);
    reveal_strlit("KDCProxyName");
    assert("KDCProxyName"@.len() == 12);
    assert("EnableRdsAadAuth"@[0] != "SelectedMonitors"@[0]);
}

/// The gateway settings are written only when the document names a gateway
/// host, the host once from `gatewayhostname`, and each other one from its
/// own key.
#[verifier::rlimit(100)]
#[verifier::spinoff_prover]
pub proof fn lemma_gateway_keys(lines: Seq<LineView>)
    ensures
        gateway_writes(lines) is Some <==> string_property(lines, "gatewayhostname"@) is Some,
        gateway_writes(lines) matches Some(w) ==> values_written(w, "GatewayHostname"@) == text_values(
            string_property(lines, "gatewayhostname"@),
        ),
        gateway_writes(lines) matches Some(w) ==> values_written(w, "GatewayUsageMethod"@) == integer_values(int_property(lines, "gatewayusagemethod"@)),
        gateway_writes(lines) matches Some(w) ==> values_written(w, "GatewayProfileUsageMethod"@) == integer_values(int_property(lines, "gatewayprofileusagemethod"@)),
        gateway_writes(lines) matches Some(w) ==> values_written(w, "GatewayCredsSource"@) == integer_values(int_property(lines, "gatewaycredentialssource"@)),
{
    broadcast use lemma_written_concat, lemma_written_one, lemma_written_bool, lemma_written_int,
        lemma_written_unsigned, lemma_written_text;

    reveal_strlit("GatewayHostname");
    assert("GatewayHostname"@.len() == 15);
    reveal_strlit("GatewayUsageMethod");
    assert("GatewayUsageMethod"@.len() == 18);
    reveal_strlit("GatewayProfileUsageMethod");
    assert("GatewayProfileUsageMethod"@.len() == 25);
    reveal_strlit("GatewayCredsSource");
    assert("GatewayCredsSource"@.len() == 18);
    assert("GatewayUsageMethod"@[7] != "GatewayCredsSource"@[7]);
}

/// The RemoteApp settings are written only when `remoteapplicationmode` is
/// 1: the mode on, the program from `remoteapplicationprogram` and its
/// arguments from `remoteapplicationcmdline`.
#[verifier::rlimit(100)]
#[verifier::spinoff_prover]
pub proof fn lemma_remote_app_keys(lines: Seq<LineView>)
    ensures
        remote_app_writes(lines) is Some <==> int_property(lines, "remoteapplicationmode"@) == Some(1i32),
        remote_app_writes(lines) matches Some(w) ==> values_written(w, "RemoteProgramMode"@) == seq![
            SettingView::Boolean(true),
        ],
        remote_app_writes(lines) matches Some(w) ==> values_written(w, "RemoteApplicationProgram"@)
            == text_values(string_property(lines, "remoteapplicationprogram"@)),
        remote_app_writes(lines) matches Some(w) ==> values_written(w, "RemoteApplicationArgs"@)
            == text_values(string_property(lines, "remoteapplicationcmdline"@)),
{
    broadcast use lemma_written_concat, lemma_written_one, lemma_written_bool, lemma_written_int,
        lemma_written_unsigned, lemma_written_text;

    reveal_strlit("RemoteProgramMode");
    assert("RemoteProgramMode"@.len() == 17);
    reveal_strlit("RemoteApplicationProgram");
    assert("RemoteApplicationProgram"@.len() == 24);
    reveal_strlit("RemoteApplicationArgs");
    assert("RemoteApplicationArgs"@.len() == 21);
}

/// The connection properties: the server is the host, the user name and
/// domain the session's when it has them, the desktop size from
/// `desktopwidth` and `desktopheight` (1280 x 800 without them, kept in
/// 200..=8192), the colour depth from `session bpp` (32 without it, kept in
/// 15..=32), and full screen when the session is full screen but not
/// spanned. Each is written once at most.
#[verifier::rlimit(100)]
#[verifier::spinoff_prover]
pub proof fn lemma_connection_keys(host: Seq<char>, c: SessionConfig)
    ensures
        values_written(connection_writes(host, c), "Server"@) == seq![SettingView::Text(host)],
        values_written(connection_writes(host, c), "UserName"@) == text_values(opt_view(c.username)),
        values_written(connection_writes(host, c), "Domain"@) == text_values(opt_view(c.domain)),
        values_written(connection_writes(host, c), "DesktopWidth"@) == seq![
            SettingView::Integer(
                clamp(
                    match int_property(c.document@.lines, "desktopwidth"@) {
                        Some(v) => v as int,
                        None => 1280,
                    },
                    200,
                    8192,
                ) as i32,
            ),
        ],
        values_written(connection_writes(host, c), "DesktopHeight"@) == seq![
            SettingView::Integer(
                clamp(
                    match int_property(c.document@.lines, "desktopheight"@) {
                        Some(v) => v as int,
                        None => 800,
                    },
                    200,
                    8192,
                ) as i32,
            ),
        ],
        values_written(connection_writes(host, c), "ColorDepth"@) == seq![
            SettingView::Integer(
                clamp(
                    match int_property(c.document@.lines, "session bpp"@) {
                        Some(v) => v as int,
                        None => 32,
                    },
                    15,
                    32,
                ) as i32,
            ),
        ],
        values_written(connection_writes(host, c), "FullScreen"@) == seq![
            SettingView::Boolean(c.fullscreen && !c.span),
        ],
{
    broadcast use lemma_written_concat, lemma_written_one, lemma_written_bool, lemma_written_int,
        lemma_written_unsigned, lemma_written_text;

    reveal_strlit("Server");
    assert("Server"@.len() == 6);
    reveal_strlit("UserName");
    assert("UserName"@.len() == 8);
    reveal_strlit("Domain");
    assert("Domain"@.len() == 6);
    reveal_strlit("DesktopWidth");
    assert("DesktopWidth"@.len() == 12);
    reveal_strlit("DesktopHeight");
    assert("DesktopHeight"@.len() == 13);
    reveal_strlit("ColorDepth");
    assert("ColorDepth"@.len() == 10);
    reveal_strlit("FullScreen");
    assert("FullScreen"@.len() == 10);
    assert("Server"@[0] != "Domain"@[0]);
    assert("ColorDepth"@[0] != "FullScreen"@[0]);
}

} // verus!
