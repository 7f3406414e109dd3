//! The command line: its values, the `mstsc.exe` slash switches it also
//! accepts, and how its values become the settings of a session.
use vstd::prelude::*;

use crate::config::{
    custom_steps, int_property, last_assigned, lemma_named_remote_guard,
    lemma_named_restricted_admin, lemma_override_precedence, opt_view, resolved, source_doc,
    ConnectionOverrides, PasswordSource, SecretString, SessionConfig,
};
use crate::rdp::{lookup, normalize_key};
use crate::error::{Error, Result};
use crate::text::{
    chars_equal, chars_of, chars_starts_with_ignore_case, extend_chars, lower, lower_char, lower_chars,
    starts_with_ignore_case, string_of,
};

verus! {

/// The variable read for the password when no other name is given.
pub open spec fn default_password_variable() -> Seq<char> {
    "MSTSC_RS_PASSWORD"@
}

/// Command line accepted by `mstsc-rs`.
#[derive(Debug)]
pub struct Cli {
    /// RDP file to load. Command-line values override its properties.
    pub rdp_file: Option<String>,
    /// Remote host, optionally including :port.
    pub server: Option<String>,
    pub username: Option<String>,
    pub domain: Option<String>,
    /// Clear-text password. Prefer --password-env where possible.
    pub password: Option<String>,
    /// Read the password from NAME (default: MSTSC_RS_PASSWORD).
    pub password_env: Option<String>,
    pub width: Option<u32>,
    pub height: Option<u32>,
    pub fullscreen: bool,
    pub multimon: bool,
    pub span: bool,
    pub admin: bool,
    pub public: bool,
    pub restricted_admin: bool,
    pub remote_guard: bool,
    pub gateway: Option<String>,
    pub dynamic_resolution: bool,
    pub remote_app: Option<String>,
    pub remote_app_args: Option<String>,
    pub remote_app_workdir: Option<String>,
    pub redirect_clipboard: Option<bool>,
    pub redirect_printers: Option<bool>,
    /// Drive list (`*`, `C:;D:`, or empty to disable).
    pub redirect_drives: Option<String>,
    pub redirect_smartcards: Option<bool>,
    pub redirect_com_ports: Option<bool>,
    pub redirect_webauthn: Option<bool>,
    pub redirect_location: Option<bool>,
    /// Camera selector accepted by the RDP `camerastoredirect` property.
    pub redirect_cameras: Option<String>,
    pub redirect_microphone: Option<bool>,
    /// 0: play locally, 1: play remotely, 2: disable.
    pub audio_mode: Option<u32>,
    /// Set or replace any RDP property as `name:type:value`. Repeatable.
    pub custom_properties: Vec<String>,
    pub title: Option<String>,
    /// Validate and print the merged settings without opening a connection.
    pub dry_run: bool,
}

/// What reading the password variable gave.
#[derive(Debug)]
pub enum EnvLookup {
    Present(String),
    NotPresent,
    NotUnicode,
}

/// A switch that is given turns its property on; an absent one leaves it.
pub open spec fn flag(b: bool) -> Option<bool> {
    if b {
        Some(true)
    } else {
        None
    }
}

/// The command-line values as overrides of the document, without the
/// password.
pub open spec fn cli_overrides(c: Cli) -> ConnectionOverrides {
    ConnectionOverrides {
        server: c.server,
        username: c.username,
        domain: c.domain,
        password: None,
        password_source: None,
        width: c.width,
        height: c.height,
        fullscreen: flag(c.fullscreen),
        multimon: flag(c.multimon),
        span: flag(c.span),
        admin: flag(c.admin),
        public_mode: flag(c.public),
        restricted_admin: flag(c.restricted_admin),
        remote_guard: flag(c.remote_guard),
        gateway: c.gateway,
        dynamic_resolution: flag(c.dynamic_resolution),
        remote_app: c.remote_app,
        remote_app_args: c.remote_app_args,
        remote_app_workdir: c.remote_app_workdir,
        redirect_clipboard: c.redirect_clipboard,
        redirect_printers: c.redirect_printers,
        redirect_drives: c.redirect_drives,
        redirect_smartcards: c.redirect_smartcards,
        redirect_com_ports: c.redirect_com_ports,
        redirect_webauthn: c.redirect_webauthn,
        redirect_location: c.redirect_location,
        redirect_cameras: c.redirect_cameras,
        redirect_microphone: c.redirect_microphone,
        audio_mode: c.audio_mode,
        custom_properties: c.custom_properties,
        title: c.title,
    }
}

/// The environment variable the password is read from: none when the
/// password is on the command line, else the one named by `--password-env`,
/// else `MSTSC_RS_PASSWORD`.
pub open spec fn password_variable_of(c: Cli) -> Option<Seq<char>> {
    match c.password {
        Some(_) => None,
        None => Some(
            match c.password_env {
                Some(n) => n@,
                None => default_password_variable(),
            },
        ),
    }
}

/// The `.rdp` source: the file's path and its contents.
pub open spec fn source_of(path: Option<String>, contents: Option<Vec<u8>>) -> Option<
    (String, Vec<u8>),
> {
    match (path, contents) {
        (Some(p), Some(b)) => Some((p, b)),
        _ => None,
    }
}

/// The session built from the command line `c`, apart from the password.
pub open spec fn cli_resolved(
    c: Cli,
    contents: Option<Vec<u8>>,
    r: Result<(SessionConfig, bool)>,
) -> bool {
    &&& resolved(
        source_of(c.rdp_file, contents),
        cli_overrides(c),
        match r {
            Ok((s, _)) => Ok(s),
            Err(e) => Err(e),
        },
    )
    &&& r matches Ok((_, dry_run)) ==> dry_run == c.dry_run
}

fn flag_value(b: bool) -> (r: Option<bool>)
    ensures
        r == flag(b),
{
    if b {
        Some(true)
    } else {
        None
    }
}

impl Cli {
    /// The environment variable to read the password from, if any.
    pub fn password_variable(&self) -> (r: Option<String>)
        ensures
            opt_view(r) == password_variable_of(*self),
    {
        match &self.password {
            Some(_) => None,
            None => match &self.password_env {
                Some(name) => Some(name.clone()),
                None => Some("MSTSC_RS_PASSWORD".to_owned()),
            },
        }
    }

    /// Builds the session from the command line, given what reading the
    /// password variable gave and the contents of the `.rdp` file. Returns
    /// the session and whether this is a dry run.
    pub fn into_session_config(self, password_lookup: EnvLookup, rdp_contents: Option<Vec<u8>>) -> (r:
        Result<(SessionConfig, bool)>)
        requires
            self.rdp_file is Some <==> rdp_contents is Some,
        ensures
            match self.password {
                Some(p) => cli_resolved(self, rdp_contents, r) && (r matches Ok((s, _)) ==> (
                s.password matches Some(x) && x@ == p@) && s.password_source == Some(
                    PasswordSource::CommandLine,
                )),
                None => match password_lookup {
                    EnvLookup::NotUnicode => r matches Err(
                        Error::NonUnicodePasswordEnvironment(name),
                    ) && password_variable_of(self) == Some(name@),
                    EnvLookup::NotPresent => cli_resolved(self, rdp_contents, r) && (r matches Ok(
                        (s, _),
                    ) ==> s.password is None && s.password_source is None),
                    EnvLookup::Present(v) => cli_resolved(self, rdp_contents, r) && (r matches Ok(
                        (s, _),
                    ) ==> (s.password matches Some(x) && x@ == v@) && (s.password_source matches Some(
                        PasswordSource::Environment(name),
                    ) && password_variable_of(self) == Some(name@))),
                },
            },
    {
        let ghost c = self;
        let variable = self.password_variable();
        let (password, password_source) = match self.password {
            Some(p) => (Some(SecretString::new(p.as_str())), Some(PasswordSource::CommandLine)),
            None => {
                let name = match variable {
                    Some(n) => n,
                    None => String::new(),
                };
                match password_lookup {
                    EnvLookup::Present(v) => (
                        Some(SecretString::new(v.as_str())),
                        Some(PasswordSource::Environment(name)),
                    ),
                    EnvLookup::NotPresent => (None, None),
                    EnvLookup::NotUnicode => {
                        return Err(Error::NonUnicodePasswordEnvironment(name));
                    },
                }
            },
        };
        let overrides = ConnectionOverrides {
            server: self.server,
            username: self.username,
            domain: self.domain,
            password,
            password_source,
            width: self.width,
            height: self.height,
            fullscreen: flag_value(self.fullscreen),
            multimon: flag_value(self.multimon),
            span: flag_value(self.span),
            admin: flag_value(self.admin),
            public_mode: flag_value(self.public),
            restricted_admin: flag_value(self.restricted_admin),
            remote_guard: flag_value(self.remote_guard),
            gateway: self.gateway,
            dynamic_resolution: flag_value(self.dynamic_resolution),
            remote_app: self.remote_app,
            remote_app_args: self.remote_app_args,
            remote_app_workdir: self.remote_app_workdir,
            redirect_clipboard: self.redirect_clipboard,
            redirect_printers: self.redirect_printers,
            redirect_drives: self.redirect_drives,
            redirect_smartcards: self.redirect_smartcards,
            redirect_com_ports: self.redirect_com_ports,
            redirect_webauthn: self.redirect_webauthn,
            redirect_location: self.redirect_location,
            redirect_cameras: self.redirect_cameras,
            redirect_microphone: self.redirect_microphone,
            audio_mode: self.audio_mode,
            custom_properties: self.custom_properties,
            title: self.title,
        };
        let source = match (self.rdp_file, rdp_contents) {
            (Some(path), Some(bytes)) => Some((path, bytes)),
            _ => None,
        };
        match SessionConfig::resolve(source, overrides) {
            Ok(config) => Ok((config, self.dry_run)),
            Err(e) => Err(e),
        }
    }
}

// ---------------------------------------------------------------------------
// mstsc.exe slash switches
// ---------------------------------------------------------------------------

/// One argument with a `mstsc.exe` switch rewritten as its long option
/// (switch names ignore ASCII case); any other argument is kept.
pub open spec fn mstsc_arg(a: Seq<char>) -> Seq<char> {
    let l = lower(a);
    if l == "/f"@ {
        "--fullscreen"@
    } else if l == "/multimon"@ {
        "--multimon"@
    } else if l == "/span"@ {
        "--span"@
    } else if l == "/admin"@ || l == "/console"@ {
        "--admin"@
    } else if l == "/public"@ {
        "--public"@
    } else if l == "/restrictedadmin"@ {
        "--restricted-admin"@
    } else if l == "/remoteguard"@ {
        "--remote-guard"@
    } else if l == "/?"@ || l == "/help"@ {
        "--help"@
    } else if starts_with_ignore_case(a, "/v:"@) {
        "--server="@ + a.skip(3)
    } else if starts_with_ignore_case(a, "/w:"@) {
        "--width="@ + a.skip(3)
    } else if starts_with_ignore_case(a, "/h:"@) {
        "--height="@ + a.skip(3)
    } else {
        a
    }
}

/// `prefix` followed by `a` without its first three characters.
fn with_value(prefix: &str, a: &[char]) -> (r: String)
    requires
        a@.len() >= 3,
    ensures
        r@ == prefix@ + a@.skip(3),
{
    let mut out = chars_of(prefix);
    let n = a.len();
    let mut i: usize = 3;
    while i < n
        invariant
            3 <= i <= n == a@.len(),
            out@ == prefix@ + a@.subrange(3, i as int),
        decreases n - i,
    {
        out.push(a[i]);
        assert(prefix@ + a@.subrange(3, i as int).push(a@[i as int]) =~= prefix@ + a@.subrange(
            3,
            i + 1,
        ));
        i = i + 1;
    }
    assert(a@.subrange(3, n as int) =~= a@.skip(3));
    string_of(out.as_slice())
}

/// Whether `l` is the switch `name`.
fn is_switch(l: &[char], name: &str) -> (r: bool)
    ensures
        r == (l@ == name@),
{
    chars_equal(l, chars_of(name).as_slice())
}

/// Rewrites one `mstsc.exe` switch as the long option it stands for.
pub fn normalize_mstsc_arg(arg: &str) -> (r: String)
    ensures
        r@ == mstsc_arg(arg@),
{
    let a = chars_of(arg);
    let l = lower_chars(a.as_slice());
    let l = l.as_slice();
    proof {
        reveal_strlit("/v:");
        reveal_strlit("/w:");
        reveal_strlit("/h:");
    }
    if is_switch(l, "/f") {
        "--fullscreen".to_owned()
    } else if is_switch(l, "/multimon") {
        "--multimon".to_owned()
    } else if is_switch(l, "/span") {
        "--span".to_owned()
    } else if is_switch(l, "/admin") || is_switch(l, "/console") {
        "--admin".to_owned()
    } else if is_switch(l, "/public") {
        "--public".to_owned()
    } else if is_switch(l, "/restrictedadmin") {
        "--restricted-admin".to_owned()
    } else if is_switch(l, "/remoteguard") {
        "--remote-guard".to_owned()
    } else if is_switch(l, "/?") || is_switch(l, "/help") {
        "--help".to_owned()
    } else if chars_starts_with_ignore_case(a.as_slice(), chars_of("/v:").as_slice()) {
        with_value("--server=", a.as_slice())
    } else if chars_starts_with_ignore_case(a.as_slice(), chars_of("/w:").as_slice()) {
        with_value("--width=", a.as_slice())
    } else if chars_starts_with_ignore_case(a.as_slice(), chars_of("/h:").as_slice()) {
        with_value("--height=", a.as_slice())
    } else {
        arg.to_owned()
    }
}

/// Rewrites every `mstsc.exe` switch of an argument list.
pub fn normalize_mstsc_args(args: &[String]) -> (r: Vec<String>)
    ensures
        r@.len() == args@.len(),
        forall|i: int| 0 <= i < args@.len() ==> #[trigger] r@[i]@ == mstsc_arg(args@[i]@),
{
    let mut out: Vec<String> = Vec::new();
    let n = args.len();
    for i in 0..n
        invariant
            n == args@.len(),
            out@.len() == i,
            forall|j: int| 0 <= j < i ==> #[trigger] out@[j]@ == mstsc_arg(args@[j]@),
    {
        out.push(normalize_mstsc_arg(args[i].as_str()));
    }
    out
}

/// Only slash switches are rewritten: an argument that does not start with
/// `/` is passed on unchanged.
pub proof fn lemma_plain_arguments_unchanged(a: Seq<char>)
    requires
        a.len() == 0 || a[0] != '/',
    ensures
        mstsc_arg(a) == a,
{
    reveal_strlit("/f");
    reveal_strlit("/multimon");
    reveal_strlit("/span");
    reveal_strlit("/admin");
    reveal_strlit("/console");
    reveal_strlit("/public");
    reveal_strlit("/restrictedadmin");
    reveal_strlit("/remoteguard");
    reveal_strlit("/?");
    reveal_strlit("/help");
    reveal_strlit("/v:");
    reveal_strlit("/w:");
    reveal_strlit("/h:");
    assert("/f"@.len() > 0 && "/f"@[0] == '/');
    assert("/multimon"@.len() > 0 && "/multimon"@[0] == '/');
    assert("/span"@.len() > 0 && "/span"@[0] == '/');
    assert("/admin"@.len() > 0 && "/admin"@[0] == '/');
    assert("/console"@.len() > 0 && "/console"@[0] == '/');
    assert("/public"@.len() > 0 && "/public"@[0] == '/');
    assert("/restrictedadmin"@.len() > 0 && "/restrictedadmin"@[0] == '/');
    assert("/remoteguard"@.len() > 0 && "/remoteguard"@[0] == '/');
    assert("/?"@.len() > 0 && "/?"@[0] == '/');
    assert("/help"@.len() > 0 && "/help"@[0] == '/');
    assert(lower("/v:"@).len() == 3 && lower("/v:"@)[0] == '/');
    assert(lower("/w:"@).len() == 3 && lower("/w:"@)[0] == '/');
    assert(lower("/h:"@).len() == 3 && lower("/h:"@)[0] == '/');
    if a.len() > 0 {
        assert(lower(a)[0] == lower_char(a[0]));
        assert(lower_char(a[0]) != '/');
        if a.len() >= 3 {
            assert(a.take(3)[0] == a[0]);
            assert(lower(a.take(3))[0] == lower_char(a[0]));
        }
    }
}

/// `--restricted-admin` (`/restrictedAdmin`) asks for Restricted Admin mode
/// and `--remote-guard` (`/remoteGuard`) for Remote Credential Guard, and
/// neither touches the other. With no `--set` value naming these
/// properties, a switch that is given turns its mode on, and a mode whose
/// switch is not given keeps what the `.rdp` file (or, without one, the
/// defaults) had.
pub proof fn lemma_sign_in_protection_switches(
    c: Cli,
    contents: Option<Vec<u8>>,
    r: Result<(SessionConfig, bool)>,
)
    requires
        cli_resolved(c, contents, r),
        r is Ok,
        last_assigned(custom_steps(c.custom_properties@), normalize_key("restricted admin mode"@))
            is None,
        last_assigned(custom_steps(c.custom_properties@), normalize_key("remote credential guard"@))
            is None,
    ensures
        ({
            let lines = r->Ok_0.0.document@.lines;
            let before = source_doc(source_of(c.rdp_file, contents))->0.lines;
            let ram = normalize_key("restricted admin mode"@);
            let rcg = normalize_key("remote credential guard"@);
            &&& c.restricted_admin ==> int_property(lines, "restricted admin mode"@) == Some(1i32)
            &&& !c.restricted_admin ==> lookup(lines, ram) == lookup(before, ram)
            &&& c.remote_guard ==> int_property(lines, "remote credential guard"@) == Some(1i32)
            &&& !c.remote_guard ==> lookup(lines, rcg) == lookup(before, rcg)
        }),
{
    let o = cli_overrides(c);
    let d = source_doc(source_of(c.rdp_file, contents))->0;
    lemma_named_restricted_admin(o);
    lemma_named_remote_guard(o);
    lemma_override_precedence(d, o, normalize_key("restricted admin mode"@));
    lemma_override_precedence(d, o, normalize_key("remote credential guard"@));
}

/// The `mstsc.exe` switches, in any ASCII case, become their long options:
/// `/admin` and `/console` ask for an administrative session, and each
/// other switch for its own option.
pub proof fn lemma_mstsc_switches(a: Seq<char>)
    ensures
        lower(a) == "/f"@ ==> mstsc_arg(a) == "--fullscreen"@,
        lower(a) == "/multimon"@ ==> mstsc_arg(a) == "--multimon"@,
        lower(a) == "/span"@ ==> mstsc_arg(a) == "--span"@,
        lower(a) == "/admin"@ || lower(a) == "/console"@ ==> mstsc_arg(a) == "--admin"@,
        lower(a) == "/public"@ ==> mstsc_arg(a) == "--public"@,
        lower(a) == "/restrictedadmin"@ ==> mstsc_arg(a) == "--restricted-admin"@,
        lower(a) == "/remoteguard"@ ==> mstsc_arg(a) == "--remote-guard"@,
        lower(a) == "/?"@ || lower(a) == "/help"@ ==> mstsc_arg(a) == "--help"@,
{
    reveal_strlit("/f");
    reveal_strlit("/multimon");
    reveal_strlit("/span");
    reveal_strlit("/admin");
    reveal_strlit("/console");
    reveal_strlit("/public");
    reveal_strlit("/restrictedadmin");
    reveal_strlit("/remoteguard");
    reveal_strlit("/?");
    reveal_strlit("/help");
    assert("/f"@.len() == 2 && "/?"@.len() == 2 && "/f"@[1] != "/?"@[1]);
    assert("/multimon"@.len() == 9);
    assert("/span"@.len() == 5 && "/help"@.len() == 5 && "/span"@[1] != "/help"@[1]);
    assert("/admin"@.len() == 6);
    assert("/console"@.len() == 8);
    assert("/public"@.len() == 7);
    assert("/restrictedadmin"@.len() == 16);
    assert("/remoteguard"@.len() == 12);
}

/// `/v:`, `/w:` and `/h:` (in any ASCII case) become `--server=`,
/// `--width=` and `--height=` followed by the rest of the argument.
pub proof fn lemma_mstsc_values(a: Seq<char>)
    ensures
        starts_with_ignore_case(a, "/v:"@) ==> mstsc_arg(a) == "--server="@ + a.skip(3),
        starts_with_ignore_case(a, "/w:"@) ==> mstsc_arg(a) == "--width="@ + a.skip(3),
        starts_with_ignore_case(a, "/h:"@) ==> mstsc_arg(a) == "--height="@ + a.skip(3),
{
    reveal_strlit("/f");
    reveal_strlit("/multimon");
    reveal_strlit("/span");
    reveal_strlit("/admin");
    reveal_strlit("/console");
    reveal_strlit("/public");
    reveal_strlit("/restrictedadmin");
    reveal_strlit("/remoteguard");
    reveal_strlit("/?");
    reveal_strlit("/help");
    reveal_strlit("/v:");
    reveal_strlit("/w:");
    reveal_strlit("/h:");
    assert("/f"@.len() == 2 || "/f"@[2] != ':');
    assert("/multimon"@.len() == 2 || "/multimon"@[2] != ':');
    assert("/span"@.len() == 2 || "/span"@[2] != ':');
    assert("/admin"@.len() == 2 || "/admin"@[2] != ':');
    assert("/console"@.len() == 2 || "/console"@[2] != ':');
    assert("/public"@.len() == 2 || "/public"@[2] != ':');
    assert("/restrictedadmin"@.len() == 2 || "/restrictedadmin"@[2] != ':');
    assert("/remoteguard"@.len() == 2 || "/remoteguard"@[2] != ':');
    assert("/?"@.len() == 2 || "/?"@[2] != ':');
    assert("/help"@.len() == 2 || "/help"@[2] != ':');
    assert(lower("/v:"@) == "/v:"@);
    assert(lower("/w:"@) == "/w:"@);
    assert(lower("/h:"@) == "/h:"@);
    if a.len() >= 3 {
        assert(lower(a).len() == a.len());
        assert(lower(a.take(3))[1] == lower(a)[1]);
        assert(lower(a.take(3))[2] == lower(a)[2]);
    }
}

} // verus!
