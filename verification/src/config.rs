//! Merging of defaults, the `.rdp` file, command-line values and interactive
//! input into the settings for one session.
use vstd::prelude::*;

use crate::encoding::decode_text;
use crate::error::{Error, Result};
use crate::rdp::{
    crlf, lemma_get_after_set, lemma_remove_all, lemma_set_keeps_other_properties, lookup,
    normalize_key, parse_doc, parse_line_spec, remove_key, render_doc, set_lines, DocView,
    LineView, RdpDocument, RdpEncoding, RdpValueView,
};
use crate::text::{
    chars_of, extend_chars, is_blank, is_ws, lead_ws, lower, lower_char, string_of, trail_ws, trim,
    trim_start,
};

verus! {

// ---------------------------------------------------------------------------
// Secrets
// ---------------------------------------------------------------------------

/// `Zeroize::zeroize` for a `String`: overwrites the bytes with zeros and
/// empties the string.
#[verifier::external_body]
fn zeroize_string(s: &mut String)
    ensures
        final(s)@ == Seq::<char>::empty(),
{
    zeroize::Zeroize::zeroize(s);
}

/// A password kept apart from the settings text.
#[derive(Clone, Debug)]
pub struct SecretString(String);

impl View for SecretString {
    type V = Seq<char>;

    closed spec fn view(&self) -> Seq<char> {
        self.0@
    }
}

impl Default for SecretString {
    fn default() -> (r: Self)
        ensures
            r@ == Seq::<char>::empty(),
    {
        SecretString(String::new())
    }
}

impl SecretString {
    pub fn new(value: &str) -> (r: Self)
        ensures
            r@ == value@,
    {
        SecretString(value.to_owned())
    }

    pub fn expose(&self) -> (r: &str)
        ensures
            r@ == self@,
    {
        self.0.as_str()
    }

    pub fn is_empty(&self) -> (r: bool)
        ensures
            r == (self@.len() == 0),
    {
        self.0.as_str().is_empty()
    }

    /// Overwrites the secret with zeros and leaves it empty.
    pub fn wipe(&mut self)
        ensures
            final(self)@ == Seq::<char>::empty(),
    {
        zeroize_string(&mut self.0);
    }
}

#[derive(Clone, Debug, PartialEq, Eq)]
pub enum PasswordSource {
    CommandLine,
    Environment(String),
    Interactive,
}

/// Values given on the command line; each `Some` overrides the document.
#[derive(Clone, Debug, Default)]
pub struct ConnectionOverrides {
    pub server: Option<String>,
    pub username: Option<String>,
    pub domain: Option<String>,
    pub password: Option<SecretString>,
    pub password_source: Option<PasswordSource>,
    pub width: Option<u32>,
    pub height: Option<u32>,
    pub fullscreen: Option<bool>,
    pub multimon: Option<bool>,
    pub span: Option<bool>,
    pub admin: Option<bool>,
    pub public_mode: Option<bool>,
    pub restricted_admin: Option<bool>,
    pub remote_guard: Option<bool>,
    pub gateway: Option<String>,
    pub dynamic_resolution: Option<bool>,
    pub remote_app: Option<String>,
    pub remote_app_args: Option<String>,
    pub remote_app_workdir: Option<String>,
    pub redirect_clipboard: Option<bool>,
    pub redirect_printers: Option<bool>,
    pub redirect_drives: Option<String>,
    pub redirect_smartcards: Option<bool>,
    pub redirect_com_ports: Option<bool>,
    pub redirect_webauthn: Option<bool>,
    pub redirect_location: Option<bool>,
    pub redirect_cameras: Option<String>,
    pub redirect_microphone: Option<bool>,
    pub audio_mode: Option<u32>,
    pub custom_properties: Vec<String>,
    pub title: Option<String>,
}

// ---------------------------------------------------------------------------
// The merge as a sequence of property assignments
// ---------------------------------------------------------------------------

/// One property assignment: a name and a value.
pub type Step = (Seq<char>, RdpValueView);

/// Assignments applied in order.
pub open spec fn apply_steps(lines: Seq<LineView>, steps: Seq<Step>) -> Seq<LineView>
    decreases steps.len(),
{
    if steps.len() == 0 {
        lines
    } else {
        set_lines(apply_steps(lines, steps.drop_last()), steps.last().0, steps.last().1)
    }
}

/// The value of the last assignment to the normalised name `nk`.
pub open spec fn last_assigned(steps: Seq<Step>, nk: Seq<char>) -> Option<RdpValueView>
    decreases steps.len(),
{
    if steps.len() == 0 {
        None
    } else if normalize_key(steps.last().0) == nk {
        Some(steps.last().1)
    } else {
        last_assigned(steps.drop_last(), nk)
    }
}

pub open spec fn int_step(key: Seq<char>, v: i32) -> Seq<Step> {
    seq![(key, RdpValueView::Integer(v))]
}

pub open spec fn string_step(key: Seq<char>, v: Option<String>) -> Seq<Step> {
    match v {
        Some(s) => seq![(key, RdpValueView::String(s@))],
        None => seq![],
    }
}

/// Widths, heights and modes above `i32::MAX` are stored as `i32::MAX`.
pub open spec fn u32_step(key: Seq<char>, v: Option<u32>) -> Seq<Step> {
    match v {
        Some(n) => int_step(
            key,
            if n > i32::MAX {
                i32::MAX
            } else {
                n as i32
            },
        ),
        None => seq![],
    }
}

pub open spec fn bool_as_step(key: Seq<char>, v: Option<bool>, yes: i32, no: i32) -> Seq<Step> {
    match v {
        Some(b) => int_step(
            key,
            if b {
                yes
            } else {
                no
            },
        ),
        None => seq![],
    }
}

pub open spec fn bool_step(key: Seq<char>, v: Option<bool>) -> Seq<Step> {
    bool_as_step(key, v, 1, 0)
}

/// The settings of a session started without an `.rdp` file.
pub open spec fn default_steps() -> Seq<Step> {
    int_step("screen mode id"@, 1) + int_step("dynamic resolution"@, 1) + int_step(
        "session bpp"@,
        32,
    ) + int_step("compression"@, 1) + int_step("networkautodetect"@, 1) + int_step(
        "bandwidthautodetect"@,
        1,
    ) + int_step("enablecredsspsupport"@, 1) + int_step("authentication level"@, 2) + int_step(
        "prompt for credentials"@,
        0,
    ) + int_step("redirectclipboard"@, 1) + int_step("redirectprinters"@, 1) + int_step(
        "redirectsmartcards"@,
        1,
    ) + int_step("redirectwebauthn"@, 1) + int_step("audiomode"@, 0) + int_step(
        "audiocapturemode"@,
        1,
    )
}

/// The document of a session started without an `.rdp` file.
pub open spec fn default_doc() -> DocView {
    DocView {
        lines: apply_steps(seq![], default_steps()),
        encoding: RdpEncoding::Utf8,
        newline: crlf(),
        trailing_newline: true,
    }
}

/// Legacy span is one large remote desktop across the local virtual desktop:
/// it forces full screen and turns multiple-monitor mode off.
pub open spec fn span_steps(span: Option<bool>) -> Seq<Step> {
    if span == Some(true) {
        int_step("screen mode id"@, 2) + int_step("use multimon"@, 0)
    } else {
        seq![]
    }
}

/// A gateway host turns gateway use on.
pub open spec fn gateway_steps(gateway: Option<String>) -> Seq<Step> {
    if gateway is Some {
        int_step("gatewayusagemethod"@, 1) + int_step("gatewayprofileusagemethod"@, 1)
    } else {
        seq![]
    }
}

/// A RemoteApp program turns RemoteApp mode on.
pub open spec fn remote_app_steps(program: Option<String>) -> Seq<Step> {
    match program {
        Some(p) => int_step("remoteapplicationmode"@, 1) + seq![
            ("remoteapplicationprogram"@, RdpValueView::String(p@)),
        ],
        None => seq![],
    }
}

/// The assignments made by the named command-line values, in the order in
/// which later ones win.
pub open spec fn named_steps(o: ConnectionOverrides) -> Seq<Step> {
    string_step("full address"@, o.server) + string_step("username"@, o.username) + string_step(
        "domain"@,
        o.domain,
    ) + u32_step("desktopwidth"@, o.width) + u32_step("desktopheight"@, o.height) + bool_as_step(
        "screen mode id"@,
        o.fullscreen,
        2,
        1,
    ) + bool_step("use multimon"@, o.multimon) + bool_step("span monitors"@, o.span)
        + span_steps(o.span) + bool_step("administrative session"@, o.admin) + bool_step(
        "public mode"@,
        o.public_mode,
    ) + bool_step("restricted admin mode"@, o.restricted_admin) + bool_step(
        "remote credential guard"@,
        o.remote_guard,
    ) + string_step("gatewayhostname"@, o.gateway) + gateway_steps(o.gateway) + bool_step(
        "dynamic resolution"@,
        o.dynamic_resolution,
    ) + bool_step("redirectclipboard"@, o.redirect_clipboard) + bool_step(
        "redirectprinters"@,
        o.redirect_printers,
    ) + string_step("drivestoredirect"@, o.redirect_drives) + bool_step(
        "redirectsmartcards"@,
        o.redirect_smartcards,
    ) + bool_step("redirectcomports"@, o.redirect_com_ports) + bool_step(
        "redirectwebauthn"@,
        o.redirect_webauthn,
    ) + bool_step("redirectlocation"@, o.redirect_location) + string_step(
        "camerastoredirect"@,
        o.redirect_cameras,
    ) + bool_step("audiocapturemode"@, o.redirect_microphone) + u32_step(
        "audiomode"@,
        o.audio_mode,
    ) + remote_app_steps(o.remote_app) + string_step(
        "remoteapplicationcmdline"@,
        o.remote_app_args,
    ) + string_step("shell working directory"@, o.remote_app_workdir)
}

/// The assignments made by `--set name:type:value`, in order.
pub open spec fn custom_steps(assignments: Seq<String>) -> Seq<Step>
    decreases assignments.len(),
{
    if assignments.len() == 0 {
        seq![]
    } else {
        custom_steps(assignments.drop_last()) + match parse_line_spec(assignments.last()@) {
            Some(e) => seq![(e.key, e.value)],
            None => seq![],
        }
    }
}

/// Index of the first `--set` value that is not a property line.
pub open spec fn first_invalid(assignments: Seq<String>) -> Option<int>
    decreases assignments.len(),
{
    if assignments.len() == 0 {
        None
    } else {
        match first_invalid(assignments.drop_last()) {
            Some(i) => Some(i),
            None => if parse_line_spec(assignments.last()@) is None {
                Some(assignments.len() - 1)
            } else {
                None
            },
        }
    }
}

/// Every assignment of the merge, in order.
pub open spec fn override_steps(o: ConnectionOverrides) -> Seq<Step> {
    named_steps(o) + custom_steps(o.custom_properties@)
}

/// Precedence: after a sequence of assignments, a property holds the value
/// of its last assignment, or the value it had before if none assigned it.
pub proof fn lemma_precedence(lines: Seq<LineView>, steps: Seq<Step>, nk: Seq<char>)
    ensures
        lookup(apply_steps(lines, steps), nk) == match last_assigned(steps, nk) {
            Some(v) => Some(v),
            None => lookup(lines, nk),
        },
    decreases steps.len(),
{
    if steps.len() > 0 {
        let before = apply_steps(lines, steps.drop_last());
        lemma_precedence(lines, steps.drop_last(), nk);
        if normalize_key(steps.last().0) == nk {
            lemma_get_after_set(before, steps.last().0, steps.last().1);
        } else {
            lemma_set_keeps_other_properties(before, steps.last().0, steps.last().1, nk);
        }
    }
}

proof fn lemma_apply_steps_concat(lines: Seq<LineView>, a: Seq<Step>, b: Seq<Step>)
    ensures
        apply_steps(lines, a + b) == apply_steps(apply_steps(lines, a), b),
    decreases b.len(),
{
    if b.len() == 0 {
        assert(a + b =~= a);
    } else {
        lemma_apply_steps_concat(lines, a, b.drop_last());
        assert((a + b).drop_last() =~= a + b.drop_last());
        assert((a + b).last() == b.last());
    }
}

proof fn lemma_apply_one(lines: Seq<LineView>, key: Seq<char>, v: RdpValueView)
    ensures
        apply_steps(lines, seq![(key, v)]) == set_lines(lines, key, v),
{
    let steps = seq![(key, v)];
    assert(steps.drop_last() =~= Seq::<Step>::empty());
    assert(apply_steps(lines, steps.drop_last()) == lines);
    assert(steps.last() == (key, v));
}

/// `doc` with `lines` replaced.
pub open spec fn with_lines(d: DocView, lines: Seq<LineView>) -> DocView {
    DocView { lines: lines, ..d }
}

/// The assignments `done` were applied to `base`, and now `piece` is.
proof fn lemma_extend(base: Seq<LineView>, done: Seq<Step>, piece: Seq<Step>, now: Seq<LineView>)
    requires
        now == apply_steps(apply_steps(base, done), piece),
    ensures
        now == apply_steps(base, done + piece),
{
    lemma_apply_steps_concat(base, done, piece);
}

fn set_string(
    document: &mut RdpDocument,
    key: &str,
    value: &Option<String>,
    Ghost(base): Ghost<Seq<LineView>>,
    Ghost(done): Ghost<Seq<Step>>,
) -> (next: Ghost<Seq<Step>>)
    requires
        old(document)@.lines == apply_steps(base, done),
    ensures
        next@ == done + string_step(key@, *value),
        final(document)@ == with_lines(old(document)@, apply_steps(base, next@)),
{
    let ghost start = document@.lines;
    match value {
        Some(v) => {
            document.set_string(key, v.as_str());
            proof {
                lemma_apply_one(start, key@, RdpValueView::String(v@));
            }
        },
        None => {},
    }
    proof {
        lemma_extend(base, done, string_step(key@, *value), document@.lines);
    }
    Ghost(done + string_step(key@, *value))
}

fn set_u32(
    document: &mut RdpDocument,
    key: &str,
    value: Option<u32>,
    Ghost(base): Ghost<Seq<LineView>>,
    Ghost(done): Ghost<Seq<Step>>,
) -> (next: Ghost<Seq<Step>>)
    requires
        old(document)@.lines == apply_steps(base, done),
    ensures
        next@ == done + u32_step(key@, value),
        final(document)@ == with_lines(old(document)@, apply_steps(base, next@)),
{
    let ghost start = document@.lines;
    match value {
        Some(v) => {
            let clamped: i32 = if v > 0x7fff_ffff {
                0x7fff_ffff
            } else {
                v as i32
            };
            document.set_integer(key, clamped);
            proof {
                lemma_apply_one(start, key@, RdpValueView::Integer(clamped));
            }
        },
        None => {},
    }
    proof {
        lemma_extend(base, done, u32_step(key@, value), document@.lines);
    }
    Ghost(done + u32_step(key@, value))
}

fn set_bool_as(
    document: &mut RdpDocument,
    key: &str,
    value: Option<bool>,
    yes: i32,
    no: i32,
    Ghost(base): Ghost<Seq<LineView>>,
    Ghost(done): Ghost<Seq<Step>>,
) -> (next: Ghost<Seq<Step>>)
    requires
        old(document)@.lines == apply_steps(base, done),
    ensures
        next@ == done + bool_as_step(key@, value, yes, no),
        final(document)@ == with_lines(old(document)@, apply_steps(base, next@)),
{
    let ghost start = document@.lines;
    match value {
        Some(b) => {
            let v = if b {
                yes
            } else {
                no
            };
            document.set_integer(key, v);
            proof {
                lemma_apply_one(start, key@, RdpValueView::Integer(v));
            }
        },
        None => {},
    }
    proof {
        lemma_extend(base, done, bool_as_step(key@, value, yes, no), document@.lines);
    }
    Ghost(done + bool_as_step(key@, value, yes, no))
}

fn set_bool(
    document: &mut RdpDocument,
    key: &str,
    value: Option<bool>,
    Ghost(base): Ghost<Seq<LineView>>,
    Ghost(done): Ghost<Seq<Step>>,
) -> (next: Ghost<Seq<Step>>)
    requires
        old(document)@.lines == apply_steps(base, done),
    ensures
        next@ == done + bool_step(key@, value),
        final(document)@ == with_lines(old(document)@, apply_steps(base, next@)),
{
    set_bool_as(document, key, value, 1, 0, Ghost(base), Ghost(done))
}

fn set_int(
    document: &mut RdpDocument,
    key: &str,
    value: i32,
    Ghost(base): Ghost<Seq<LineView>>,
    Ghost(done): Ghost<Seq<Step>>,
) -> (next: Ghost<Seq<Step>>)
    requires
        old(document)@.lines == apply_steps(base, done),
    ensures
        next@ == done + int_step(key@, value),
        final(document)@ == with_lines(old(document)@, apply_steps(base, next@)),
{
    let ghost start = document@.lines;
    document.set_integer(key, value);
    proof {
        lemma_apply_one(start, key@, RdpValueView::Integer(value));
        lemma_extend(base, done, int_step(key@, value), document@.lines);
    }
    Ghost(done + int_step(key@, value))
}

/// The document of a session started without an `.rdp` file.
pub fn default_document() -> (d: RdpDocument)
    ensures
        d@ == default_doc(),
{
    let mut d = RdpDocument::default();
    let ghost base = d@.lines;
    assert(apply_steps(base, seq![]) == base);
    let g = set_int(&mut d, "screen mode id", 1, Ghost(base), Ghost(Seq::<Step>::empty()));
    assert(g@ =~= int_step("screen mode id"@, 1));
    let g = set_int(&mut d, "dynamic resolution", 1, Ghost(base), g);
    let g = set_int(&mut d, "session bpp", 32, Ghost(base), g);
    let g = set_int(&mut d, "compression", 1, Ghost(base), g);
    let g = set_int(&mut d, "networkautodetect", 1, Ghost(base), g);
    let g = set_int(&mut d, "bandwidthautodetect", 1, Ghost(base), g);
    let g = set_int(&mut d, "enablecredsspsupport", 1, Ghost(base), g);
    let g = set_int(&mut d, "authentication level", 2, Ghost(base), g);
    let g = set_int(&mut d, "prompt for credentials", 0, Ghost(base), g);
    let g = set_int(&mut d, "redirectclipboard", 1, Ghost(base), g);
    let g = set_int(&mut d, "redirectprinters", 1, Ghost(base), g);
    let g = set_int(&mut d, "redirectsmartcards", 1, Ghost(base), g);
    let g = set_int(&mut d, "redirectwebauthn", 1, Ghost(base), g);
    let g = set_int(&mut d, "audiomode", 0, Ghost(base), g);
    let g = set_int(&mut d, "audiocapturemode", 1, Ghost(base), g);
    assert(g@ == default_steps());
    d
}

fn apply_span(
    document: &mut RdpDocument,
    span: Option<bool>,
    Ghost(base): Ghost<Seq<LineView>>,
    Ghost(done): Ghost<Seq<Step>>,
) -> (next: Ghost<Seq<Step>>)
    requires
        old(document)@.lines == apply_steps(base, done),
    ensures
        next@ == done + span_steps(span),
        final(document)@ == with_lines(old(document)@, apply_steps(base, next@)),
{
    if span == Some(true) {
        let g = set_int(document, "screen mode id", 2, Ghost(base), Ghost(done));
        let g = set_int(document, "use multimon", 0, Ghost(base), g);
        assert(g@ =~= done + span_steps(span));
        g
    } else {
        assert(done + span_steps(span) =~= done);
        Ghost(done + span_steps(span))
    }
}

fn apply_gateway(
    document: &mut RdpDocument,
    gateway: &Option<String>,
    Ghost(base): Ghost<Seq<LineView>>,
    Ghost(done): Ghost<Seq<Step>>,
) -> (next: Ghost<Seq<Step>>)
    requires
        old(document)@.lines == apply_steps(base, done),
    ensures
        next@ == done + gateway_steps(*gateway),
        final(document)@ == with_lines(old(document)@, apply_steps(base, next@)),
{
    if gateway.is_some() {
        let g = set_int(document, "gatewayusagemethod", 1, Ghost(base), Ghost(done));
        let g = set_int(document, "gatewayprofileusagemethod", 1, Ghost(base), g);
        assert(g@ =~= done + gateway_steps(*gateway));
        g
    } else {
        assert(done + gateway_steps(*gateway) =~= done);
        Ghost(done + gateway_steps(*gateway))
    }
}

fn apply_remote_app(
    document: &mut RdpDocument,
    program: &Option<String>,
    Ghost(base): Ghost<Seq<LineView>>,
    Ghost(done): Ghost<Seq<Step>>,
) -> (next: Ghost<Seq<Step>>)
    requires
        old(document)@.lines == apply_steps(base, done),
    ensures
        next@ == done + remote_app_steps(*program),
        final(document)@ == with_lines(old(document)@, apply_steps(base, next@)),
{
    match program {
        Some(p) => {
            let g = set_int(document, "remoteapplicationmode", 1, Ghost(base), Ghost(done));
            let g = set_string(document, "remoteapplicationprogram", program, Ghost(base), g);
            assert(g@ =~= done + remote_app_steps(*program));
            g
        },
        None => {
            assert(done + remote_app_steps(*program) =~= done);
            Ghost(done + remote_app_steps(*program))
        },
    }
}

/// The `--set` values taken one by one.
proof fn lemma_custom_prefix(a: Seq<String>, i: int)
    requires
        0 <= i < a.len(),
    ensures
        custom_steps(a.take(i + 1)) == custom_steps(a.take(i)) + match parse_line_spec(a[i]@) {
            Some(e) => seq![(e.key, e.value)],
            None => seq![],
        },
        first_invalid(a.take(i + 1)) == match first_invalid(a.take(i)) {
            Some(j) => Some(j),
            None => if parse_line_spec(a[i]@) is None {
                Some(i)
            } else {
                None
            },
        },
{
    assert(a.take(i + 1).drop_last() =~= a.take(i));
}

/// Applies the named command-line values that are present.
fn apply_named(document: &mut RdpDocument, o: &ConnectionOverrides)
    ensures
        final(document)@ == with_lines(
            old(document)@,
            apply_steps(old(document)@.lines, named_steps(*o)),
        ),
{
    let ghost base = document@.lines;
    assert(apply_steps(base, seq![]) == base);
    let g = set_string(document, "full address", &o.server, Ghost(base), Ghost(Seq::<Step>::empty()));
    assert(g@ =~= string_step("full address"@, o.server));
    let g = set_string(document, "username", &o.username, Ghost(base), g);
    let g = set_string(document, "domain", &o.domain, Ghost(base), g);
    let g = set_u32(document, "desktopwidth", o.width, Ghost(base), g);
    let g = set_u32(document, "desktopheight", o.height, Ghost(base), g);
    let g = set_bool_as(document, "screen mode id", o.fullscreen, 2, 1, Ghost(base), g);
    let g = set_bool(document, "use multimon", o.multimon, Ghost(base), g);
    let g = set_bool(document, "span monitors", o.span, Ghost(base), g);
    let g = apply_span(document, o.span, Ghost(base), g);
    let g = set_bool(document, "administrative session", o.admin, Ghost(base), g);
    let g = set_bool(document, "public mode", o.public_mode, Ghost(base), g);
    let g = set_bool(document, "restricted admin mode", o.restricted_admin, Ghost(base), g);
    let g = set_bool(document, "remote credential guard", o.remote_guard, Ghost(base), g);
    let g = set_string(document, "gatewayhostname", &o.gateway, Ghost(base), g);
    let g = apply_gateway(document, &o.gateway, Ghost(base), g);
    let g = set_bool(document, "dynamic resolution", o.dynamic_resolution, Ghost(base), g);
    let g = set_bool(document, "redirectclipboard", o.redirect_clipboard, Ghost(base), g);
    let g = set_bool(document, "redirectprinters", o.redirect_printers, Ghost(base), g);
    let g = set_string(document, "drivestoredirect", &o.redirect_drives, Ghost(base), g);
    let g = set_bool(document, "redirectsmartcards", o.redirect_smartcards, Ghost(base), g);
    let g = set_bool(document, "redirectcomports", o.redirect_com_ports, Ghost(base), g);
    let g = set_bool(document, "redirectwebauthn", o.redirect_webauthn, Ghost(base), g);
    let g = set_bool(document, "redirectlocation", o.redirect_location, Ghost(base), g);
    let g = set_string(document, "camerastoredirect", &o.redirect_cameras, Ghost(base), g);
    let g = set_bool(document, "audiocapturemode", o.redirect_microphone, Ghost(base), g);
    let g = set_u32(document, "audiomode", o.audio_mode, Ghost(base), g);
    let g = apply_remote_app(document, &o.remote_app, Ghost(base), g);
    let g = set_string(document, "remoteapplicationcmdline", &o.remote_app_args, Ghost(base), g);
    let g = set_string(document, "shell working directory", &o.remote_app_workdir, Ghost(base), g);
    assert(g@ == named_steps(*o));
}

/// Once a prefix of the `--set` values holds an invalid one, every longer
/// prefix reports the same one.
proof fn lemma_first_invalid_extends(a: Seq<String>, k: int, m: int)
    requires
        0 <= k <= m <= a.len(),
        first_invalid(a.take(k)) is Some,
    ensures
        first_invalid(a.take(m)) == first_invalid(a.take(k)),
    decreases m - k,
{
    if m > k {
        lemma_first_invalid_extends(a, k, m - 1);
        lemma_custom_prefix(a, m - 1);
    }
}

/// Applies the command-line values to `document`: every named value that is
/// present, then every `--set name:type:value` in order. Fails at the first
/// `--set` value that is not a property line, after the ones before it.
pub fn apply_overrides(document: &mut RdpDocument, overrides: &ConnectionOverrides) -> (r: Result<
    (),
>)
    ensures
        match first_invalid(overrides.custom_properties@) {
            None => r is Ok && final(document)@ == with_lines(
                old(document)@,
                apply_steps(old(document)@.lines, override_steps(*overrides)),
            ),
            Some(i) => (r matches Err(Error::InvalidRdpAssignment(text)) && text@
                == overrides.custom_properties@[i]@) && final(document)@ == with_lines(
                old(document)@,
                apply_steps(
                    old(document)@.lines,
                    named_steps(*overrides) + custom_steps(overrides.custom_properties@.take(i)),
                ),
            ),
        },
{
    let o = overrides;
    let ghost base = document@.lines;
    apply_named(document, o);
    let ghost named = named_steps(*o);
    let ghost all = o.custom_properties@;
    let n = o.custom_properties.len();
    assert(all.take(0) =~= Seq::<String>::empty());
    assert(named + custom_steps(all.take(0)) =~= named);
    for i in 0..n
        invariant
            n == all.len(),
            o == overrides,
            all == o.custom_properties@,
            named == named_steps(*o),
            document@ == with_lines(old(document)@, apply_steps(base, named + custom_steps(all.take(i as int)))),
            first_invalid(all.take(i as int)) is None,
            base == old(document)@.lines,
    {
        proof {
            lemma_custom_prefix(all, i as int);
        }
        let ghost before = document@.lines;
        match document.set_assignment(o.custom_properties[i].as_str()) {
            Ok(()) => {
                proof {
                    let e = parse_line_spec(all[i as int]@).unwrap();
                    lemma_apply_one(before, e.key, e.value);
                    lemma_extend(base, named + custom_steps(all.take(i as int)), seq![(e.key, e.value)], document@.lines);
                    assert(named + custom_steps(all.take(i as int)) + seq![(e.key, e.value)] =~= named + custom_steps(all.take(i + 1)));
                }
            },
            Err(e) => {
                proof {
                    assert(first_invalid(all.take(i + 1)) == Some(i as int));
                    lemma_first_invalid_extends(all, i + 1, all.len() as int);
                    assert(all.take(all.len() as int) =~= all);
                }
                return Err(e);
            },
        }
    }
    assert(all.take(n as int) =~= all);
    Ok(())
}

// ---------------------------------------------------------------------------
// The session
// ---------------------------------------------------------------------------

pub open spec fn opt_view(v: Option<String>) -> Option<Seq<char>> {
    match v {
        Some(s) => Some(s@),
        None => None,
    }
}

/// A text property that is present and not blank.
pub open spec fn text_property(lines: Seq<LineView>, key: Seq<char>) -> Option<Seq<char>> {
    match lookup(lines, normalize_key(key)) {
        Some(RdpValueView::String(s)) => if trim(s).len() > 0 {
            Some(s)
        } else {
            None
        },
        _ => None,
    }
}

pub open spec fn int_property(lines: Seq<LineView>, key: Seq<char>) -> Option<i32> {
    match lookup(lines, normalize_key(key)) {
        Some(RdpValueView::Integer(n)) => Some(n),
        _ => None,
    }
}

/// The window title: the one asked for, else `<server> - mstsc-rs`, else
/// `mstsc-rs`.
pub open spec fn session_title(title: Option<String>, server: Option<Seq<char>>) -> Seq<char> {
    match title {
        Some(t) => t@,
        None => match server {
            Some(s) => s + " - mstsc-rs"@,
            None => "mstsc-rs"@,
        },
    }
}

/// The document a session starts from: the `.rdp` file's, when one was
/// given, or the defaults; `None` when the file is not text.
pub open spec fn source_doc(source: Option<(String, Vec<u8>)>) -> Option<DocView> {
    match source {
        None => Some(default_doc()),
        Some((_, bytes)) => match decode_text(bytes@) {
            Some((text, encoding)) => Some(parse_doc(text, encoding)),
            None => None,
        },
    }
}

/// Fully merged settings. `document` is the authoritative settings stream sent
/// to the system RDP control.
#[derive(Clone, Debug)]
pub struct SessionConfig {
    pub source_path: Option<String>,
    pub document: RdpDocument,
    pub server: Option<String>,
    pub username: Option<String>,
    pub domain: Option<String>,
    pub password: Option<SecretString>,
    pub password_source: Option<PasswordSource>,
    pub has_embedded_password: bool,
    pub dynamic_resolution: bool,
    pub fullscreen: bool,
    pub span: bool,
    pub title: String,
}

/// What the session's own fields say of its document: the connection names
/// that are present and not blank, whether a password is embedded, and the
/// display modes. Dynamic resolution is on unless the document turns it off
/// or spans monitors.
pub open spec fn derived_from(c: SessionConfig, lines: Seq<LineView>) -> bool {
    &&& opt_view(c.server) == text_property(lines, "full address"@)
    &&& opt_view(c.username) == text_property(lines, "username"@)
    &&& opt_view(c.domain) == text_property(lines, "domain"@)
    &&& c.has_embedded_password == (lookup(lines, normalize_key("password 51"@)) is Some || lookup(
        lines,
        normalize_key("password"@),
    ) is Some)
    &&& c.span == (int_property(lines, "span monitors"@) == Some(1i32))
    &&& c.dynamic_resolution == (int_property(lines, "dynamic resolution"@) != Some(0i32)
        && !c.span)
    &&& c.fullscreen == (int_property(lines, "screen mode id"@) == Some(2i32))
}

/// What building a session from `source` and the command-line values `o`
/// gives, apart from the password: an undecodable file fails, then the first
/// invalid `--set` value; otherwise the document is the source's with every
/// assignment of the merge applied, and the fields follow from it.
pub open spec fn resolved(
    source: Option<(String, Vec<u8>)>,
    o: ConnectionOverrides,
    r: Result<SessionConfig>,
) -> bool {
    match source_doc(source) {
        None => r matches Err(Error::InvalidRdpEncoding),
        Some(d) => match first_invalid(o.custom_properties@) {
            Some(i) => r matches Err(Error::InvalidRdpAssignment(text)) && text@
                == o.custom_properties@[i]@,
            None => r matches Ok(c) && {
                &&& c.document@ == with_lines(d, apply_steps(d.lines, override_steps(o)))
                &&& derived_from(c, c.document@.lines)
                &&& c.title@ == session_title(o.title, opt_view(c.server))
                &&& match source {
                    Some((path, _)) => c.source_path matches Some(p) && p@ == path@,
                    None => c.source_path is None,
                }
            },
        },
    }
}

/// A text property of `document`, when present and not blank.
fn text_value(document: &RdpDocument, key: &str) -> (r: Option<String>)
    ensures
        opt_view(r) == text_property(document@.lines, key@),
{
    match document.get_string(key) {
        Some(value) => {
            if is_blank(chars_of(value).as_slice()) {
                None
            } else {
                Some(value.to_owned())
            }
        },
        None => None,
    }
}

impl SessionConfig {
    /// Builds the settings of a session from an optional `.rdp` file (its
    /// path and bytes) and the command-line values.
    pub fn resolve(source: Option<(String, Vec<u8>)>, overrides: ConnectionOverrides) -> (r: Result<
        Self,
    >)
        ensures
            resolved(source, overrides, r),
            r matches Ok(c) ==> c.password == overrides.password && c.password_source
                == overrides.password_source,
    {
        let (source_path, mut document) = match source {
            Some((path, bytes)) => match RdpDocument::from_bytes(bytes.as_slice()) {
                Ok(d) => (Some(path), d),
                Err(e) => {
                    return Err(e);
                },
            },
            None => (None, default_document()),
        };
        match apply_overrides(&mut document, &overrides) {
            Ok(()) => {},
            Err(e) => {
                return Err(e);
            },
        }
        let server = text_value(&document, "full address");
        let username = text_value(&document, "username");
        let domain = text_value(&document, "domain");
        let has_embedded_password = document.contains("password 51") || document.contains(
            "password",
        );
        let span = document.get_integer("span monitors") == Some(1i32);
        let dynamic_resolution = document.get_integer("dynamic resolution") != Some(0i32) && !span;
        let fullscreen = document.get_integer("screen mode id") == Some(2i32);
        let title = match overrides.title {
            Some(t) => t,
            None => match &server {
                Some(s) => {
                    let mut t = chars_of(s.as_str());
                    let suffix = chars_of(" - mstsc-rs");
                    extend_chars(&mut t, suffix.as_slice());
                    string_of(t.as_slice())
                },
                None => "mstsc-rs".to_owned(),
            },
        };
        Ok(SessionConfig {
            source_path,
            document,
            server,
            username,
            domain,
            password: overrides.password,
            password_source: overrides.password_source,
            has_embedded_password,
            dynamic_resolution,
            fullscreen,
            span,
            title,
        })
    }

    /// The connection form is needed exactly when no server is known.
    pub fn needs_interactive_input(&self) -> (r: bool)
        ensures
            r == self.server is None,
    {
        self.server.is_none()
    }

    /// Takes the values entered in the connection form: the server replaces
    /// `full address`; a user name or domain replaces its property, and a
    /// missing one removes every copy of it. A password entered here is marked
    /// as interactive; the one it replaces is wiped.
    pub fn apply_interactive(
        &mut self,
        server: String,
        username: Option<String>,
        domain: Option<String>,
        password: Option<SecretString>,
    )
        ensures
            final(self).document@ == with_lines(
                old(self).document@,
                interactive_lines(old(self).document@.lines, server@, opt_view(username), opt_view(domain)),
            ),
            final(self).server == Some(server),
            final(self).username == username,
            final(self).domain == domain,
            final(self).password == password,
            final(self).password_source == (if password is Some {
                Some(PasswordSource::Interactive)
            } else {
                None
            }),
            final(self).source_path == old(self).source_path,
            final(self).has_embedded_password == old(self).has_embedded_password,
            final(self).dynamic_resolution == old(self).dynamic_resolution,
            final(self).fullscreen == old(self).fullscreen,
            final(self).span == old(self).span,
            final(self).title == old(self).title,
    {
        self.document.set_string("full address", server.as_str());
        match &username {
            Some(u) => self.document.set_string("username", u.as_str()),
            None => self.document.remove_all("username"),
        }
        match &domain {
            Some(d) => self.document.set_string("domain", d.as_str()),
            None => self.document.remove_all("domain"),
        }
        self.server = Some(server);
        self.username = username;
        self.domain = domain;
        let source = if password.is_some() {
            Some(PasswordSource::Interactive)
        } else {
            None
        };
        let mut previous = password;
        core::mem::swap(&mut previous, &mut self.password);
        if let Some(mut p) = previous {
            p.wipe();
        }
        self.password_source = source;
    }

    /// Forgets the password once the control holds its own copy; the text is
    /// wiped first.
    pub fn discard_password(&mut self)
        ensures
            final(self).password is None,
            final(self).document == old(self).document,
            final(self).server == old(self).server,
            final(self).username == old(self).username,
            final(self).domain == old(self).domain,
            final(self).password_source == old(self).password_source,
            final(self).source_path == old(self).source_path,
            final(self).has_embedded_password == old(self).has_embedded_password,
            final(self).dynamic_resolution == old(self).dynamic_resolution,
            final(self).fullscreen == old(self).fullscreen,
            final(self).span == old(self).span,
            final(self).title == old(self).title,
    {
        let mut previous = None;
        core::mem::swap(&mut previous, &mut self.password);
        if let Some(mut p) = previous {
            p.wipe();
        }
    }

    /// Produces the setting stream without adding a clear-text password.
    pub fn rdp_settings_text(&self) -> (r: String)
        ensures
            r@ == render_doc(self.document@),
    {
        self.document.render()
    }
}

/// The lines after the connection form: `full address` set, and the user
/// name and domain set or removed.
pub open spec fn interactive_lines(
    lines: Seq<LineView>,
    server: Seq<char>,
    username: Option<Seq<char>>,
    domain: Option<Seq<char>>,
) -> Seq<LineView> {
    let a = set_lines(lines, "full address"@, RdpValueView::String(server));
    let b = match username {
        Some(u) => set_lines(a, "username"@, RdpValueView::String(u)),
        None => remove_key(a, normalize_key("username"@)),
    };
    match domain {
        Some(d) => set_lines(b, "domain"@, RdpValueView::String(d)),
        None => remove_key(b, normalize_key("domain"@)),
    }
}

// ---------------------------------------------------------------------------
// Laws of the merge
// ---------------------------------------------------------------------------

/// Later assignments win: of two runs of assignments, a property assigned in
/// the second takes its last value there; otherwise its value from the
/// first run, if any.
pub proof fn lemma_later_steps_win(a: Seq<Step>, b: Seq<Step>, nk: Seq<char>)
    ensures
        last_assigned(a + b, nk) == match last_assigned(b, nk) {
            Some(v) => Some(v),
            None => last_assigned(a, nk),
        },
    decreases b.len(),
{
    if b.len() == 0 {
        assert(a + b =~= a);
    } else {
        lemma_later_steps_win(a, b.drop_last(), nk);
        assert((a + b).drop_last() =~= a + b.drop_last());
        assert((a + b).last() == b.last());
    }
}

/// The order of precedence of a session's settings: a `--set` assignment
/// beats the named command-line values, which beat the document the session
/// starts from (the `.rdp` file or the defaults).
pub proof fn lemma_override_precedence(d: DocView, o: ConnectionOverrides, nk: Seq<char>)
    ensures
        lookup(apply_steps(d.lines, override_steps(o)), nk) == match last_assigned(
            custom_steps(o.custom_properties@),
            nk,
        ) {
            Some(v) => Some(v),
            None => match last_assigned(named_steps(o), nk) {
                Some(v) => Some(v),
                None => lookup(d.lines, nk),
            },
        },
{
    lemma_precedence(d.lines, override_steps(o), nk);
    lemma_later_steps_win(named_steps(o), custom_steps(o.custom_properties@), nk);
}

/// The settings text never depends on the password: the merge makes the
/// same assignments whatever password was given, or none.
pub proof fn lemma_settings_ignore_password(o: ConnectionOverrides)
    ensures
        override_steps(o) == override_steps(
            (ConnectionOverrides { password: None, password_source: None, ..o }),
        ),
{
}

/// A name with no blanks at either end keeps its length when normalised.
proof fn lemma_plain_key_len(k: Seq<char>)
    requires
        k.len() > 0,
        !is_ws(k[0]),
        !is_ws(k.last()),
    ensures
        normalize_key(k).len() == k.len(),
        normalize_key(k)[0] == lower_char(k[0]),
        normalize_key(k) == lower(k),
{
    assert(lead_ws(k) == 0);
    assert(trim_start(k) =~= k);
    assert(trail_ws(k) == 0);
    assert(trim(k) =~= k);
}

/// The connection form's values are what the session then holds:
/// `full address` reads back as the server, and the user name and domain
/// as entered, or as absent when left out.
pub proof fn lemma_form_values_read_back(
    lines: Seq<LineView>,
    server: Seq<char>,
    username: Option<Seq<char>>,
    domain: Option<Seq<char>>,
)
    ensures
        lookup(interactive_lines(lines, server, username, domain), normalize_key("full address"@))
            == Some(RdpValueView::String(server)),
        lookup(interactive_lines(lines, server, username, domain), normalize_key("username"@))
            == match username {
            Some(u) => Some(RdpValueView::String(u)),
            None => None,
        },
        lookup(interactive_lines(lines, server, username, domain), normalize_key("domain"@))
            == match domain {
            Some(d) => Some(RdpValueView::String(d)),
            None => None,
        },
{
    reveal_strlit("full address");
    reveal_strlit("username");
    reveal_strlit("domain");
    let fa = normalize_key("full address"@);
    let un = normalize_key("username"@);
    let dm = normalize_key("domain"@);
    lemma_plain_key_len("full address"@);
    lemma_plain_key_len("username"@);
    lemma_plain_key_len("domain"@);
    assert(fa != un && fa != dm && un != dm);
    let a = set_lines(lines, "full address"@, RdpValueView::String(server));
    lemma_get_after_set(lines, "full address"@, RdpValueView::String(server));
    let b = match username {
        Some(u) => set_lines(a, "username"@, RdpValueView::String(u)),
        None => remove_key(a, un),
    };
    match username {
        Some(u) => {
            lemma_get_after_set(a, "username"@, RdpValueView::String(u));
            lemma_set_keeps_other_properties(a, "username"@, RdpValueView::String(u), fa);
        },
        None => {
            lemma_remove_all(a, un, fa);
        },
    }
    match domain {
        Some(d) => {
            lemma_get_after_set(b, "domain"@, RdpValueView::String(d));
            lemma_set_keeps_other_properties(b, "domain"@, RdpValueView::String(d), fa);
            lemma_set_keeps_other_properties(b, "domain"@, RdpValueView::String(d), un);
        },
        None => {
            lemma_remove_all(b, dm, fa);
            lemma_remove_all(b, dm, un);
        },
    }
}

/// Assignments taken two runs at a time.
broadcast proof fn lemma_assigned_in_concat(a: Seq<Step>, b: Seq<Step>, nk: Seq<char>)
    ensures
        #[trigger] last_assigned(a + b, nk) == match last_assigned(b, nk) {
            Some(v) => Some(v),
            None => last_assigned(a, nk),
        },
{
    lemma_later_steps_win(a, b, nk);
}

/// A single assignment.
broadcast proof fn lemma_assigned_in_one(key: Seq<char>, v: RdpValueView, nk: Seq<char>)
    ensures
        #[trigger] last_assigned(seq![(key, v)], nk) == if normalize_key(key) == nk {
            Some(v)
        } else {
            None
        },
{
    let steps = seq![(key, v)];
    assert(steps.drop_last() =~= Seq::<Step>::empty());
    assert(steps.last() == (key, v));
    assert(last_assigned(Seq::<Step>::empty(), nk) is None);
}

/// None of the named values after legacy span assigns a name of 12 to 14
/// characters, which the span settings have.
#[verifier::rlimit(100)]
#[verifier::spinoff_prover]
proof fn lemma_after_span(o: ConnectionOverrides, nk: Seq<char>)
    requires
        12 <= nk.len() <= 14,
    ensures
        last_assigned(named_steps(o), nk) == last_assigned(
            string_step("full address"@, o.server) + string_step("username"@, o.username)
                + string_step("domain"@, o.domain) + u32_step("desktopwidth"@, o.width) + u32_step(
                "desktopheight"@,
                o.height,
            ) + bool_as_step("screen mode id"@, o.fullscreen, 2, 1) + bool_step(
                "use multimon"@,
                o.multimon,
            ) + bool_step("span monitors"@, o.span) + span_steps(o.span),
            nk,
        ),
{
    broadcast use lemma_assigned_in_concat, lemma_assigned_in_one;

    reveal_strlit("administrative session");
    lemma_plain_key_len("administrative session"@);
    reveal_strlit("public mode");
    lemma_plain_key_len("public mode"@);
    reveal_strlit("restricted admin mode");
    lemma_plain_key_len("restricted admin mode"@);
    reveal_strlit("remote credential guard");
    lemma_plain_key_len("remote credential guard"@);
    reveal_strlit("gatewayhostname");
    lemma_plain_key_len("gatewayhostname"@);
    reveal_strlit("gatewayusagemethod");
    lemma_plain_key_len("gatewayusagemethod"@);
    reveal_strlit("gatewayprofileusagemethod");
    lemma_plain_key_len("gatewayprofileusagemethod"@);
    reveal_strlit("dynamic resolution");
    lemma_plain_key_len("dynamic resolution"@);
    reveal_strlit("redirectclipboard");
    lemma_plain_key_len("redirectclipboard"@);
    reveal_strlit("redirectprinters");
    lemma_plain_key_len("redirectprinters"@);
    reveal_strlit("drivestoredirect");
    lemma_plain_key_len("drivestoredirect"@);
    reveal_strlit("redirectsmartcards");
    lemma_plain_key_len("redirectsmartcards"@);
    reveal_strlit("redirectcomports");
    lemma_plain_key_len("redirectcomports"@);
    reveal_strlit("redirectwebauthn");
    lemma_plain_key_len("redirectwebauthn"@);
    reveal_strlit("redirectlocation");
    lemma_plain_key_len("redirectlocation"@);
    reveal_strlit("camerastoredirect");
    lemma_plain_key_len("camerastoredirect"@);
    reveal_strlit("audiocapturemode");
    lemma_plain_key_len("audiocapturemode"@);
    reveal_strlit("audiomode");
    lemma_plain_key_len("audiomode"@);
    reveal_strlit("remoteapplicationmode");
    lemma_plain_key_len("remoteapplicationmode"@);
    reveal_strlit("remoteapplicationprogram");
    lemma_plain_key_len("remoteapplicationprogram"@);
    reveal_strlit("remoteapplicationcmdline");
    lemma_plain_key_len("remoteapplicationcmdline"@);
    reveal_strlit("shell working directory");
    lemma_plain_key_len("shell working directory"@);
}

/// Legacy span is one large desktop across the local screens, not
/// multiple-monitor mode: when span is asked for on the command line and no
/// `--set` value names these properties, the session spans the monitors in
/// full screen, with multiple-monitor mode and dynamic resolution off.
pub proof fn lemma_span_is_single_desktop(d: DocView, o: ConnectionOverrides, c: SessionConfig)
    requires
        o.span == Some(true),
        last_assigned(custom_steps(o.custom_properties@), normalize_key("screen mode id"@)) is None,
        last_assigned(custom_steps(o.custom_properties@), normalize_key("use multimon"@)) is None,
        last_assigned(custom_steps(o.custom_properties@), normalize_key("span monitors"@)) is None,
        derived_from(c, apply_steps(d.lines, override_steps(o))),
    ensures
        int_property(apply_steps(d.lines, override_steps(o)), "screen mode id"@) == Some(2i32),
        int_property(apply_steps(d.lines, override_steps(o)), "use multimon"@) == Some(0i32),
        int_property(apply_steps(d.lines, override_steps(o)), "span monitors"@) == Some(1i32),
        c.span && c.fullscreen && !c.dynamic_resolution,
{
    broadcast use lemma_assigned_in_concat, lemma_assigned_in_one;

    reveal_strlit("screen mode id");
    reveal_strlit("use multimon");
    reveal_strlit("span monitors");
    lemma_plain_key_len("screen mode id"@);
    lemma_plain_key_len("use multimon"@);
    lemma_plain_key_len("span monitors"@);
    let smi = normalize_key("screen mode id"@);
    let um = normalize_key("use multimon"@);
    let sm = normalize_key("span monitors"@);
    lemma_after_span(o, smi);
    lemma_after_span(o, um);
    lemma_after_span(o, sm);
    lemma_override_precedence(d, o, smi);
    lemma_override_precedence(d, o, um);
    lemma_override_precedence(d, o, sm);
}

/// No named value after `dynamic resolution` assigns it.
#[verifier::rlimit(50)]
#[verifier::spinoff_prover]
proof fn lemma_after_dynamic_resolution(o: ConnectionOverrides)
    ensures
        last_assigned(named_steps(o), normalize_key("dynamic resolution"@)) == last_assigned(
            string_step("full address"@, o.server) + string_step("username"@, o.username)
                + string_step("domain"@, o.domain) + u32_step("desktopwidth"@, o.width) + u32_step(
                "desktopheight"@,
                o.height,
            ) + bool_as_step("screen mode id"@, o.fullscreen, 2, 1) + bool_step(
                "use multimon"@,
                o.multimon,
            ) + bool_step("span monitors"@, o.span) + span_steps(o.span) + bool_step(
                "administrative session"@,
                o.admin,
            ) + bool_step("public mode"@, o.public_mode) + bool_step(
                "restricted admin mode"@,
                o.restricted_admin,
            ) + bool_step("remote credential guard"@, o.remote_guard) + string_step(
                "gatewayhostname"@,
                o.gateway,
            ) + gateway_steps(o.gateway) + bool_step("dynamic resolution"@, o.dynamic_resolution),
            normalize_key("dynamic resolution"@),
        ),
{
    broadcast use lemma_assigned_in_concat, lemma_assigned_in_one;

    reveal_strlit("dynamic resolution");
    lemma_plain_key_len("dynamic resolution"@);
    reveal_strlit("redirectclipboard");
    lemma_plain_key_len("redirectclipboard"@);
    reveal_strlit("redirectprinters");
    lemma_plain_key_len("redirectprinters"@);
    reveal_strlit("drivestoredirect");
    lemma_plain_key_len("drivestoredirect"@);
    reveal_strlit("redirectsmartcards");
    lemma_plain_key_len("redirectsmartcards"@);
    reveal_strlit("redirectcomports");
    lemma_plain_key_len("redirectcomports"@);
    reveal_strlit("redirectwebauthn");
    lemma_plain_key_len("redirectwebauthn"@);
    reveal_strlit("redirectlocation");
    lemma_plain_key_len("redirectlocation"@);
    reveal_strlit("camerastoredirect");
    lemma_plain_key_len("camerastoredirect"@);
    reveal_strlit("audiocapturemode");
    lemma_plain_key_len("audiocapturemode"@);
    reveal_strlit("audiomode");
    lemma_plain_key_len("audiomode"@);
    reveal_strlit("remoteapplicationmode");
    lemma_plain_key_len("remoteapplicationmode"@);
    reveal_strlit("remoteapplicationprogram");
    lemma_plain_key_len("remoteapplicationprogram"@);
    reveal_strlit("remoteapplicationcmdline");
    lemma_plain_key_len("remoteapplicationcmdline"@);
    reveal_strlit("shell working directory");
    lemma_plain_key_len("shell working directory"@);
}

/// The named values set dynamic resolution only from its own value.
#[verifier::rlimit(50)]
#[verifier::spinoff_prover]
proof fn lemma_named_dynamic_resolution(o: ConnectionOverrides)
    ensures
        last_assigned(named_steps(o), normalize_key("dynamic resolution"@)) == match o.dynamic_resolution {
            Some(b) => Some(RdpValueView::Integer(if b { 1i32 } else { 0i32 })),
            None => None,
        },
{
    broadcast use lemma_assigned_in_concat, lemma_assigned_in_one;

    reveal_strlit("dynamic resolution");
    lemma_plain_key_len("dynamic resolution"@);
    reveal_strlit("full address");
    lemma_plain_key_len("full address"@);
    reveal_strlit("username");
    lemma_plain_key_len("username"@);
    reveal_strlit("domain");
    lemma_plain_key_len("domain"@);
    reveal_strlit("desktopwidth");
    lemma_plain_key_len("desktopwidth"@);
    reveal_strlit("desktopheight");
    lemma_plain_key_len("desktopheight"@);
    reveal_strlit("screen mode id");
    lemma_plain_key_len("screen mode id"@);
    reveal_strlit("use multimon");
    lemma_plain_key_len("use multimon"@);
    reveal_strlit("span monitors");
    lemma_plain_key_len("span monitors"@);
    reveal_strlit("administrative session");
    lemma_plain_key_len("administrative session"@);
    reveal_strlit("public mode");
    lemma_plain_key_len("public mode"@);
    reveal_strlit("restricted admin mode");
    lemma_plain_key_len("restricted admin mode"@);
    reveal_strlit("remote credential guard");
    lemma_plain_key_len("remote credential guard"@);
    reveal_strlit("gatewayhostname");
    lemma_plain_key_len("gatewayhostname"@);
    reveal_strlit("gatewayusagemethod");
    lemma_plain_key_len("gatewayusagemethod"@);
    reveal_strlit("gatewayprofileusagemethod");
    lemma_plain_key_len("gatewayprofileusagemethod"@);
    lemma_after_dynamic_resolution(o);
}

/// The named values set span only from its own value.
#[verifier::rlimit(50)]
#[verifier::spinoff_prover]
proof fn lemma_named_span(o: ConnectionOverrides)
    ensures
        last_assigned(named_steps(o), normalize_key("span monitors"@)) == match o.span {
            Some(b) => Some(RdpValueView::Integer(if b { 1i32 } else { 0i32 })),
            None => None,
        },
{
    broadcast use lemma_assigned_in_concat, lemma_assigned_in_one;

    reveal_strlit("full address");
    lemma_plain_key_len("full address"@);
    reveal_strlit("username");
    lemma_plain_key_len("username"@);
    reveal_strlit("domain");
    lemma_plain_key_len("domain"@);
    reveal_strlit("desktopwidth");
    lemma_plain_key_len("desktopwidth"@);
    reveal_strlit("desktopheight");
    lemma_plain_key_len("desktopheight"@);
    reveal_strlit("screen mode id");
    lemma_plain_key_len("screen mode id"@);
    reveal_strlit("use multimon");
    lemma_plain_key_len("use multimon"@);
    reveal_strlit("span monitors");
    lemma_plain_key_len("span monitors"@);
    lemma_after_span(o, normalize_key("span monitors"@));
}

/// What the defaults say of dynamic resolution and span.
#[verifier::rlimit(50)]
#[verifier::spinoff_prover]
proof fn lemma_default_display()
    ensures
        last_assigned(default_steps(), normalize_key("dynamic resolution"@)) == Some(
            RdpValueView::Integer(1),
        ),
        last_assigned(default_steps(), normalize_key("span monitors"@)) is None,
{
    broadcast use lemma_assigned_in_concat, lemma_assigned_in_one;

    reveal_strlit("span monitors");
    lemma_plain_key_len("span monitors"@);
    reveal_strlit("screen mode id");
    lemma_plain_key_len("screen mode id"@);
    reveal_strlit("dynamic resolution");
    lemma_plain_key_len("dynamic resolution"@);
    reveal_strlit("session bpp");
    lemma_plain_key_len("session bpp"@);
    reveal_strlit("compression");
    lemma_plain_key_len("compression"@);
    reveal_strlit("networkautodetect");
    lemma_plain_key_len("networkautodetect"@);
    reveal_strlit("bandwidthautodetect");
    lemma_plain_key_len("bandwidthautodetect"@);
    reveal_strlit("enablecredsspsupport");
    lemma_plain_key_len("enablecredsspsupport"@);
    reveal_strlit("authentication level");
    lemma_plain_key_len("authentication level"@);
    reveal_strlit("prompt for credentials");
    lemma_plain_key_len("prompt for credentials"@);
    reveal_strlit("redirectclipboard");
    lemma_plain_key_len("redirectclipboard"@);
    reveal_strlit("redirectprinters");
    lemma_plain_key_len("redirectprinters"@);
    reveal_strlit("redirectsmartcards");
    lemma_plain_key_len("redirectsmartcards"@);
    reveal_strlit("redirectwebauthn");
    lemma_plain_key_len("redirectwebauthn"@);
    reveal_strlit("audiomode");
    lemma_plain_key_len("audiomode"@);
    reveal_strlit("audiocapturemode");
    lemma_plain_key_len("audiocapturemode"@);
}

/// Sessions follow the window by default: starting without an `.rdp` file,
/// dynamic resolution is on unless it is turned off or span is asked for;
/// turned off, it stays off (no `--set` value naming these properties).
pub proof fn lemma_dynamic_resolution_by_default(o: ConnectionOverrides, c: SessionConfig)
    requires
        last_assigned(custom_steps(o.custom_properties@), normalize_key("dynamic resolution"@)) is None,
        last_assigned(custom_steps(o.custom_properties@), normalize_key("span monitors"@)) is None,
        derived_from(c, apply_steps(default_doc().lines, override_steps(o))),
    ensures
        c.dynamic_resolution <==> (o.dynamic_resolution != Some(false) && o.span != Some(true)),
{
    broadcast use lemma_assigned_in_concat, lemma_assigned_in_one;

    reveal_strlit("dynamic resolution");
    reveal_strlit("span monitors");
    lemma_plain_key_len("dynamic resolution"@);
    lemma_plain_key_len("span monitors"@);
    let dr = normalize_key("dynamic resolution"@);
    let sm = normalize_key("span monitors"@);
    let d = default_doc();
    lemma_default_display();
    lemma_precedence(Seq::<LineView>::empty(), default_steps(), dr);
    lemma_precedence(Seq::<LineView>::empty(), default_steps(), sm);
    lemma_named_dynamic_resolution(o);
    lemma_named_span(o);
    lemma_override_precedence(d, o, dr);
    lemma_override_precedence(d, o, sm);
}

/// No named value after `redirectwebauthn` assigns it.
#[verifier::rlimit(50)]
#[verifier::spinoff_prover]
proof fn lemma_after_webauthn(o: ConnectionOverrides)
    ensures
        last_assigned(named_steps(o), normalize_key("redirectwebauthn"@)) == last_assigned(
            string_step("full address"@, o.server) + string_step("username"@, o.username)
                + string_step("domain"@, o.domain) + u32_step("desktopwidth"@, o.width) + u32_step(
                "desktopheight"@,
                o.height,
            ) + bool_as_step("screen mode id"@, o.fullscreen, 2, 1) + bool_step(
                "use multimon"@,
                o.multimon,
            ) + bool_step("span monitors"@, o.span) + span_steps(o.span) + bool_step(
                "administrative session"@,
                o.admin,
            ) + bool_step("public mode"@, o.public_mode) + bool_step(
                "restricted admin mode"@,
                o.restricted_admin,
            ) + bool_step("remote credential guard"@, o.remote_guard) + string_step(
                "gatewayhostname"@,
                o.gateway,
            ) + gateway_steps(o.gateway) + bool_step(
                "dynamic resolution"@,
                o.dynamic_resolution,
            ) + bool_step("redirectclipboard"@, o.redirect_clipboard) + bool_step(
                "redirectprinters"@,
                o.redirect_printers,
            ) + string_step("drivestoredirect"@, o.redirect_drives) + bool_step(
                "redirectsmartcards"@,
                o.redirect_smartcards,
            ) + bool_step("redirectcomports"@, o.redirect_com_ports) + bool_step("redirectwebauthn"@, o.redirect_webauthn),
            normalize_key("redirectwebauthn"@),
        ),
{
    broadcast use lemma_assigned_in_concat, lemma_assigned_in_one;

    reveal_strlit("redirectwebauthn");
    lemma_plain_key_len("redirectwebauthn"@);
    reveal_strlit("redirectlocation");
    lemma_plain_key_len("redirectlocation"@);
    reveal_strlit("camerastoredirect");
    lemma_plain_key_len("camerastoredirect"@);
    reveal_strlit("audiocapturemode");
    lemma_plain_key_len("audiocapturemode"@);
    reveal_strlit("audiomode");
    lemma_plain_key_len("audiomode"@);
    reveal_strlit("remoteapplicationmode");
    lemma_plain_key_len("remoteapplicationmode"@);
    reveal_strlit("remoteapplicationprogram");
    lemma_plain_key_len("remoteapplicationprogram"@);
    reveal_strlit("remoteapplicationcmdline");
    lemma_plain_key_len("remoteapplicationcmdline"@);
    reveal_strlit("shell working directory");
    lemma_plain_key_len("shell working directory"@);
    assert(normalize_key("redirectwebauthn"@)[8] != normalize_key("redirectlocation"@)[8]);
}

/// The named values set WebAuthn redirection only from its own value.
#[verifier::rlimit(50)]
#[verifier::spinoff_prover]
proof fn lemma_named_webauthn(o: ConnectionOverrides)
    ensures
        last_assigned(named_steps(o), normalize_key("redirectwebauthn"@)) == match o.redirect_webauthn {
            Some(b) => Some(RdpValueView::Integer(if b { 1i32 } else { 0i32 })),
            None => None,
        },
{
    broadcast use lemma_assigned_in_concat, lemma_assigned_in_one;

    reveal_strlit("redirectwebauthn");
    lemma_plain_key_len("redirectwebauthn"@);
    reveal_strlit("full address");
    lemma_plain_key_len("full address"@);
    reveal_strlit("username");
    lemma_plain_key_len("username"@);
    reveal_strlit("domain");
    lemma_plain_key_len("domain"@);
    reveal_strlit("desktopwidth");
    lemma_plain_key_len("desktopwidth"@);
    reveal_strlit("desktopheight");
    lemma_plain_key_len("desktopheight"@);
    reveal_strlit("screen mode id");
    lemma_plain_key_len("screen mode id"@);
    reveal_strlit("use multimon");
    lemma_plain_key_len("use multimon"@);
    reveal_strlit("span monitors");
    lemma_plain_key_len("span monitors"@);
    reveal_strlit("administrative session");
    lemma_plain_key_len("administrative session"@);
    reveal_strlit("public mode");
    lemma_plain_key_len("public mode"@);
    reveal_strlit("restricted admin mode");
    lemma_plain_key_len("restricted admin mode"@);
    reveal_strlit("remote credential guard");
    lemma_plain_key_len("remote credential guard"@);
    reveal_strlit("gatewayhostname");
    lemma_plain_key_len("gatewayhostname"@);
    reveal_strlit("gatewayusagemethod");
    lemma_plain_key_len("gatewayusagemethod"@);
    reveal_strlit("gatewayprofileusagemethod");
    lemma_plain_key_len("gatewayprofileusagemethod"@);
    reveal_strlit("dynamic resolution");
    lemma_plain_key_len("dynamic resolution"@);
    reveal_strlit("redirectclipboard");
    lemma_plain_key_len("redirectclipboard"@);
    reveal_strlit("redirectprinters");
    lemma_plain_key_len("redirectprinters"@);
    reveal_strlit("drivestoredirect");
    lemma_plain_key_len("drivestoredirect"@);
    reveal_strlit("redirectsmartcards");
    lemma_plain_key_len("redirectsmartcards"@);
    reveal_strlit("redirectcomports");
    lemma_plain_key_len("redirectcomports"@);
    assert(normalize_key("redirectwebauthn"@)[8] != normalize_key("redirectprinters"@)[8]);
    assert(normalize_key("redirectwebauthn"@)[8] != normalize_key("redirectcomports"@)[8]);
    lemma_after_webauthn(o);
}

/// The defaults turn WebAuthn redirection on.
#[verifier::rlimit(50)]
#[verifier::spinoff_prover]
proof fn lemma_default_webauthn()
    ensures
        last_assigned(default_steps(), normalize_key("redirectwebauthn"@)) == Some(RdpValueView::Integer(1)),
{
    broadcast use lemma_assigned_in_concat, lemma_assigned_in_one;

    reveal_strlit("screen mode id");
    lemma_plain_key_len("screen mode id"@);
    reveal_strlit("dynamic resolution");
    lemma_plain_key_len("dynamic resolution"@);
    reveal_strlit("session bpp");
    lemma_plain_key_len("session bpp"@);
    reveal_strlit("compression");
    lemma_plain_key_len("compression"@);
    reveal_strlit("networkautodetect");
    lemma_plain_key_len("networkautodetect"@);
    reveal_strlit("bandwidthautodetect");
    lemma_plain_key_len("bandwidthautodetect"@);
    reveal_strlit("enablecredsspsupport");
    lemma_plain_key_len("enablecredsspsupport"@);
    reveal_strlit("authentication level");
    lemma_plain_key_len("authentication level"@);
    reveal_strlit("prompt for credentials");
    lemma_plain_key_len("prompt for credentials"@);
    reveal_strlit("redirectclipboard");
    lemma_plain_key_len("redirectclipboard"@);
    reveal_strlit("redirectprinters");
    lemma_plain_key_len("redirectprinters"@);
    reveal_strlit("redirectsmartcards");
    lemma_plain_key_len("redirectsmartcards"@);
    reveal_strlit("redirectwebauthn");
    lemma_plain_key_len("redirectwebauthn"@);
    reveal_strlit("audiomode");
    lemma_plain_key_len("audiomode"@);
    reveal_strlit("audiocapturemode");
    lemma_plain_key_len("audiocapturemode"@);
    assert(normalize_key("redirectwebauthn"@)[8] != normalize_key("redirectprinters"@)[8]);
}

/// WebAuthn is redirected by default, as `mstsc` does: starting without an
/// `.rdp` file, `redirectwebauthn` is 1 unless it is turned off (no `--set`
/// value naming it), so the system plug-in is loaded.
pub proof fn lemma_webauthn_by_default(o: ConnectionOverrides)
    requires
        last_assigned(custom_steps(o.custom_properties@), normalize_key("redirectwebauthn"@)) is None,
        o.redirect_webauthn != Some(false),
    ensures
        int_property(apply_steps(default_doc().lines, override_steps(o)), "redirectwebauthn"@)
            == Some(1i32),
{
    lemma_default_webauthn();
    lemma_named_webauthn(o);
    lemma_precedence(Seq::<LineView>::empty(), default_steps(), normalize_key("redirectwebauthn"@));
    lemma_override_precedence(default_doc(), o, normalize_key("redirectwebauthn"@));
}

/// The named values after the microphone option do not assign
/// `audiocapturemode`.
#[verifier::rlimit(50)]
#[verifier::spinoff_prover]
proof fn lemma_named_microphone(o: ConnectionOverrides)
    requires
        o.redirect_microphone is Some,
    ensures
        last_assigned(named_steps(o), normalize_key("audiocapturemode"@)) == Some(
            RdpValueView::Integer(
                if o.redirect_microphone->0 {
                    1i32
                } else {
                    0i32
                },
            ),
        ),
{
    broadcast use lemma_assigned_in_concat, lemma_assigned_in_one;

    reveal_strlit("audiocapturemode");
    lemma_plain_key_len("audiocapturemode"@);
    reveal_strlit("audiomode");
    lemma_plain_key_len("audiomode"@);
    reveal_strlit("remoteapplicationmode");
    lemma_plain_key_len("remoteapplicationmode"@);
    reveal_strlit("remoteapplicationprogram");
    lemma_plain_key_len("remoteapplicationprogram"@);
    reveal_strlit("remoteapplicationcmdline");
    lemma_plain_key_len("remoteapplicationcmdline"@);
    reveal_strlit("shell working directory");
    lemma_plain_key_len("shell working directory"@);
}

/// `--redirect-microphone` decides microphone redirection: after a merge
/// with it, and with no `--set` value naming `audiocapturemode`, that
/// property is 1 when the option is true and 0 when it is false.
pub proof fn lemma_microphone_option(
    source: Option<(String, Vec<u8>)>,
    o: ConnectionOverrides,
    c: SessionConfig,
)
    requires
        resolved(source, o, Ok(c)),
        o.redirect_microphone is Some,
        last_assigned(custom_steps(o.custom_properties@), normalize_key("audiocapturemode"@)) is None,
    ensures
        int_property(c.document@.lines, "audiocapturemode"@) == Some(
            if o.redirect_microphone->0 {
                1i32
            } else {
                0i32
            },
        ),
{
    let d = source_doc(source)->0;
    lemma_named_microphone(o);
    lemma_override_precedence(d, o, normalize_key("audiocapturemode"@));
}

/// `--redirect-microphone` assigns no property but `audiocapturemode`: two
/// merges of the same file whose command lines differ only in that option
/// give documents that agree on every other property.
pub proof fn lemma_microphone_option_only(
    source: Option<(String, Vec<u8>)>,
    o: ConnectionOverrides,
    c: SessionConfig,
    o2: ConnectionOverrides,
    c2: SessionConfig,
    nk: Seq<char>,
)
    requires
        resolved(source, o, Ok(c)),
        resolved(source, o2, Ok(c2)),
        o2 == (ConnectionOverrides { redirect_microphone: o2.redirect_microphone, ..o }),
        nk != normalize_key("audiocapturemode"@),
    ensures
        lookup(c.document@.lines, nk) == lookup(c2.document@.lines, nk),
{
    broadcast use lemma_assigned_in_concat, lemma_assigned_in_one;

    let d = source_doc(source)->0;
    lemma_override_precedence(d, o, nk);
    lemma_override_precedence(d, o2, nk);
    assert(last_assigned(Seq::<Step>::empty(), nk) is None);
    assert(last_assigned(named_steps(o), nk) == last_assigned(named_steps(o2), nk));
}

/// The named values set `restricted admin mode` only from its own value.
pub proof fn lemma_named_restricted_admin(o: ConnectionOverrides)
    ensures
        last_assigned(named_steps(o), normalize_key("restricted admin mode"@)) == match o.restricted_admin {
            Some(b) => Some(RdpValueView::Integer(if b { 1i32 } else { 0i32 })),
            None => None,
        },
{
    lemma_option_restricted_admin_mode(o);
}

/// The named values set `remote credential guard` only from its own value.
pub proof fn lemma_named_remote_guard(o: ConnectionOverrides)
    ensures
        last_assigned(named_steps(o), normalize_key("remote credential guard"@)) == match o.remote_guard {
            Some(b) => Some(RdpValueView::Integer(if b { 1i32 } else { 0i32 })),
            None => None,
        },
{
    lemma_option_remote_credential_guard(o);
}

// ---------------------------------------------------------------------------
// Which property each command-line option sets
// ---------------------------------------------------------------------------

/// What an on/off option gives its property: 1 or 0, or nothing when the
/// option is not given.
pub open spec fn flag_given(v: Option<bool>) -> Option<RdpValueView> {
    flag_as_given(v, 1, 0)
}

/// What an on/off option gives its property, with the values it uses for on
/// and off.
pub open spec fn flag_as_given(v: Option<bool>, yes: i32, no: i32) -> Option<RdpValueView> {
    match v {
        Some(b) => Some(RdpValueView::Integer(if b { yes } else { no })),
        None => None,
    }
}

/// What a text option gives its property.
pub open spec fn text_given(v: Option<String>) -> Option<RdpValueView> {
    match v {
        Some(s) => Some(RdpValueView::String(s@)),
        None => None,
    }
}

/// What a number option gives its property; numbers above `i32::MAX` are
/// stored as `i32::MAX`.
pub open spec fn number_given(v: Option<u32>) -> Option<RdpValueView> {
    match v {
        Some(n) => Some(RdpValueView::Integer(if n > i32::MAX { i32::MAX } else { n as i32 })),
        None => None,
    }
}

/// After the merge, `key` holds what the command line gave it, or, when it
/// gave nothing, what the document had before.
pub open spec fn given_or_kept(
    after: Seq<LineView>,
    before: Seq<LineView>,
    key: Seq<char>,
    given: Option<RdpValueView>,
) -> bool {
    lookup(after, normalize_key(key)) == match given {
        Some(v) => Some(v),
        None => lookup(before, normalize_key(key)),
    }
}

/// The named values of the command line up to the public mode, in order.
spec fn named_through_public_mode(o: ConnectionOverrides) -> Seq<Step> {
    string_step("full address"@, o.server) + string_step("username"@, o.username) + string_step("domain"@, o.domain) + u32_step("desktopwidth"@, o.width) + u32_step("desktopheight"@, o.height) + bool_as_step("screen mode id"@, o.fullscreen, 2, 1) + bool_step("use multimon"@, o.multimon) + bool_step("span monitors"@, o.span) + span_steps(o.span) + bool_step("administrative session"@, o.admin) + bool_step("public mode"@, o.public_mode)
}

/// The named values of the command line up to the drives, in order.
spec fn named_through_drives(o: ConnectionOverrides) -> Seq<Step> {
    string_step("full address"@, o.server) + string_step("username"@, o.username) + string_step("domain"@, o.domain) + u32_step("desktopwidth"@, o.width) + u32_step("desktopheight"@, o.height) + bool_as_step("screen mode id"@, o.fullscreen, 2, 1) + bool_step("use multimon"@, o.multimon) + bool_step("span monitors"@, o.span) + span_steps(o.span) + bool_step("administrative session"@, o.admin) + bool_step("public mode"@, o.public_mode) + bool_step("restricted admin mode"@, o.restricted_admin) + bool_step("remote credential guard"@, o.remote_guard) + string_step("gatewayhostname"@, o.gateway) + gateway_steps(o.gateway) + bool_step("dynamic resolution"@, o.dynamic_resolution) + bool_step("redirectclipboard"@, o.redirect_clipboard) + bool_step("redirectprinters"@, o.redirect_printers) + string_step("drivestoredirect"@, o.redirect_drives)
}

/// The named values after the drives assign only their own properties.
#[verifier::rlimit(50)]
#[verifier::spinoff_prover]
proof fn lemma_named_after_drives(o: ConnectionOverrides, nk: Seq<char>)
    requires
        nk != normalize_key("redirectsmartcards"@),
        nk != normalize_key("redirectcomports"@),
        nk != normalize_key("redirectwebauthn"@),
        nk != normalize_key("redirectlocation"@),
        nk != normalize_key("camerastoredirect"@),
        nk != normalize_key("audiocapturemode"@),
        nk != normalize_key("audiomode"@),
        nk != normalize_key("remoteapplicationmode"@),
        nk != normalize_key("remoteapplicationprogram"@),
        nk != normalize_key("remoteapplicationcmdline"@),
        nk != normalize_key("shell working directory"@),
    ensures
        last_assigned(named_steps(o), nk) == last_assigned(named_through_drives(o), nk),
{
    broadcast use lemma_assigned_in_concat, lemma_assigned_in_one;

    assert(last_assigned(Seq::<Step>::empty(), nk) is None);
}

/// The named values from Restricted Admin mode to the drives assign only
/// their own properties.
#[verifier::rlimit(50)]
#[verifier::spinoff_prover]
proof fn lemma_named_after_public_mode(o: ConnectionOverrides, nk: Seq<char>)
    requires
        nk != normalize_key("restricted admin mode"@),
        nk != normalize_key("remote credential guard"@),
        nk != normalize_key("gatewayhostname"@),
        nk != normalize_key("gatewayusagemethod"@),
        nk != normalize_key("gatewayprofileusagemethod"@),
        nk != normalize_key("dynamic resolution"@),
        nk != normalize_key("redirectclipboard"@),
        nk != normalize_key("redirectprinters"@),
        nk != normalize_key("drivestoredirect"@),
    ensures
        last_assigned(named_through_drives(o), nk) == last_assigned(named_through_public_mode(o), nk),
{
    broadcast use lemma_assigned_in_concat, lemma_assigned_in_one;

    assert(last_assigned(Seq::<Step>::empty(), nk) is None);
}

/// The named values up to the public mode assign only their own properties.
#[verifier::rlimit(50)]
#[verifier::spinoff_prover]
proof fn lemma_named_through_public_mode_only_theirs(o: ConnectionOverrides, nk: Seq<char>)
    requires
        nk != normalize_key("full address"@),
        nk != normalize_key("username"@),
        nk != normalize_key("domain"@),
        nk != normalize_key("desktopwidth"@),
        nk != normalize_key("desktopheight"@),
        nk != normalize_key("screen mode id"@),
        nk != normalize_key("use multimon"@),
        nk != normalize_key("span monitors"@),
        nk != normalize_key("administrative session"@),
        nk != normalize_key("public mode"@),
    ensures
        last_assigned(named_through_public_mode(o), nk) is None,
{
    broadcast use lemma_assigned_in_concat, lemma_assigned_in_one;

    assert(last_assigned(Seq::<Step>::empty(), nk) is None);
}

/// The names of the properties the command line sets, as they are looked
/// up: their lengths, and a character that tells apart two of equal length.
#[verifier::rlimit(50)]
#[verifier::spinoff_prover]
proof fn lemma_named_keys_apart()
    ensures
        normalize_key("full address"@).len() == 12,
        normalize_key("username"@).len() == 8,
        normalize_key("domain"@).len() == 6,
        normalize_key("desktopwidth"@).len() == 12,
        normalize_key("desktopheight"@).len() == 13,
        normalize_key("screen mode id"@).len() == 14,
        normalize_key("use multimon"@).len() == 12,
        normalize_key("span monitors"@).len() == 13,
        normalize_key("administrative session"@).len() == 22,
        normalize_key("public mode"@).len() == 11,
        normalize_key("restricted admin mode"@).len() == 21,
        normalize_key("remote credential guard"@).len() == 23,
        normalize_key("gatewayhostname"@).len() == 15,
        normalize_key("gatewayusagemethod"@).len() == 18,
        normalize_key("gatewayprofileusagemethod"@).len() == 25,
        normalize_key("dynamic resolution"@).len() == 18,
        normalize_key("redirectclipboard"@).len() == 17,
        normalize_key("redirectprinters"@).len() == 16,
        normalize_key("drivestoredirect"@).len() == 16,
        normalize_key("redirectsmartcards"@).len() == 18,
        normalize_key("redirectcomports"@).len() == 16,
        normalize_key("redirectwebauthn"@).len() == 16,
        normalize_key("redirectlocation"@).len() == 16,
        normalize_key("camerastoredirect"@).len() == 17,
        normalize_key("audiocapturemode"@).len() == 16,
        normalize_key("audiomode"@).len() == 9,
        normalize_key("remoteapplicationmode"@).len() == 21,
        normalize_key("remoteapplicationprogram"@).len() == 24,
        normalize_key("remoteapplicationcmdline"@).len() == 24,
        normalize_key("shell working directory"@).len() == 23,
        normalize_key("full address"@)[0] != normalize_key("desktopwidth"@)[0],
        normalize_key("full address"@)[0] != normalize_key("use multimon"@)[0],
        normalize_key("desktopwidth"@)[0] != normalize_key("use multimon"@)[0],
        normalize_key("desktopheight"@)[0] != normalize_key("span monitors"@)[0],
        normalize_key("restricted admin mode"@)[2] != normalize_key("remoteapplicationmode"@)[2],
        normalize_key("remote credential guard"@)[0] != normalize_key("shell working directory"@)[0],
        normalize_key("gatewayusagemethod"@)[0] != normalize_key("dynamic resolution"@)[0],
        normalize_key("gatewayusagemethod"@)[0] != normalize_key("redirectsmartcards"@)[0],
        normalize_key("dynamic resolution"@)[0] != normalize_key("redirectsmartcards"@)[0],
        normalize_key("redirectclipboard"@)[0] != normalize_key("camerastoredirect"@)[0],
        normalize_key("redirectprinters"@)[0] != normalize_key("drivestoredirect"@)[0],
        normalize_key("redirectprinters"@)[8] != normalize_key("redirectcomports"@)[8],
        normalize_key("redirectprinters"@)[8] != normalize_key("redirectwebauthn"@)[8],
        normalize_key("redirectprinters"@)[8] != normalize_key("redirectlocation"@)[8],
        normalize_key("redirectprinters"@)[0] != normalize_key("audiocapturemode"@)[0],
        normalize_key("drivestoredirect"@)[0] != normalize_key("redirectcomports"@)[0],
        normalize_key("drivestoredirect"@)[0] != normalize_key("redirectwebauthn"@)[0],
        normalize_key("drivestoredirect"@)[0] != normalize_key("redirectlocation"@)[0],
        normalize_key("drivestoredirect"@)[0] != normalize_key("audiocapturemode"@)[0],
        normalize_key("redirectcomports"@)[8] != normalize_key("redirectwebauthn"@)[8],
        normalize_key("redirectcomports"@)[8] != normalize_key("redirectlocation"@)[8],
        normalize_key("redirectcomports"@)[0] != normalize_key("audiocapturemode"@)[0],
        normalize_key("redirectwebauthn"@)[8] != normalize_key("redirectlocation"@)[8],
        normalize_key("redirectwebauthn"@)[0] != normalize_key("audiocapturemode"@)[0],
        normalize_key("redirectlocation"@)[0] != normalize_key("audiocapturemode"@)[0],
        normalize_key("remoteapplicationprogram"@)[17] != normalize_key("remoteapplicationcmdline"@)[17],
{
    reveal_strlit("full address");
    lemma_plain_key_len("full address"@);
    reveal_strlit("username");
    lemma_plain_key_len("username"@);
    reveal_strlit("domain");
    lemma_plain_key_len("domain"@);
    reveal_strlit("desktopwidth");
    lemma_plain_key_len("desktopwidth"@);
    reveal_strlit("desktopheight");
    lemma_plain_key_len("desktopheight"@);
    reveal_strlit("screen mode id");
    lemma_plain_key_len("screen mode id"@);
    reveal_strlit("use multimon");
    lemma_plain_key_len("use multimon"@);
    reveal_strlit("span monitors");
    lemma_plain_key_len("span monitors"@);
    reveal_strlit("administrative session");
    lemma_plain_key_len("administrative session"@);
    reveal_strlit("public mode");
    lemma_plain_key_len("public mode"@);
    reveal_strlit("restricted admin mode");
    lemma_plain_key_len("restricted admin mode"@);
    reveal_strlit("remote credential guard");
    lemma_plain_key_len("remote credential guard"@);
    reveal_strlit("gatewayhostname");
    lemma_plain_key_len("gatewayhostname"@);
    reveal_strlit("gatewayusagemethod");
    lemma_plain_key_len("gatewayusagemethod"@);
    reveal_strlit("gatewayprofileusagemethod");
    lemma_plain_key_len("gatewayprofileusagemethod"@);
    reveal_strlit("dynamic resolution");
    lemma_plain_key_len("dynamic resolution"@);
    reveal_strlit("redirectclipboard");
    lemma_plain_key_len("redirectclipboard"@);
    reveal_strlit("redirectprinters");
    lemma_plain_key_len("redirectprinters"@);
    reveal_strlit("drivestoredirect");
    lemma_plain_key_len("drivestoredirect"@);
    reveal_strlit("redirectsmartcards");
    lemma_plain_key_len("redirectsmartcards"@);
    reveal_strlit("redirectcomports");
    lemma_plain_key_len("redirectcomports"@);
    reveal_strlit("redirectwebauthn");
    lemma_plain_key_len("redirectwebauthn"@);
    reveal_strlit("redirectlocation");
    lemma_plain_key_len("redirectlocation"@);
    reveal_strlit("camerastoredirect");
    lemma_plain_key_len("camerastoredirect"@);
    reveal_strlit("audiocapturemode");
    lemma_plain_key_len("audiocapturemode"@);
    reveal_strlit("audiomode");
    lemma_plain_key_len("audiomode"@);
    reveal_strlit("remoteapplicationmode");
    lemma_plain_key_len("remoteapplicationmode"@);
    reveal_strlit("remoteapplicationprogram");
    lemma_plain_key_len("remoteapplicationprogram"@);
    reveal_strlit("remoteapplicationcmdline");
    lemma_plain_key_len("remoteapplicationcmdline"@);
    reveal_strlit("shell working directory");
    lemma_plain_key_len("shell working directory"@);
}

/// The only command-line values that set `full address`.
#[verifier::rlimit(50)]
#[verifier::spinoff_prover]
proof fn lemma_option_full_address(o: ConnectionOverrides)
    ensures
        last_assigned(named_steps(o), normalize_key("full address"@)) == text_given(o.server),
{
    broadcast use lemma_assigned_in_concat, lemma_assigned_in_one;

    lemma_named_keys_apart();
    assert(last_assigned(Seq::<Step>::empty(), normalize_key("full address"@)) is None);
    lemma_named_after_drives(o, normalize_key("full address"@));
    lemma_named_after_public_mode(o, normalize_key("full address"@));
}

/// The only command-line values that set `username`.
#[verifier::rlimit(50)]
#[verifier::spinoff_prover]
proof fn lemma_option_username(o: ConnectionOverrides)
    ensures
        last_assigned(named_steps(o), normalize_key("username"@)) == text_given(o.username),
{
    broadcast use lemma_assigned_in_concat, lemma_assigned_in_one;

    lemma_named_keys_apart();
    assert(last_assigned(Seq::<Step>::empty(), normalize_key("username"@)) is None);
    lemma_named_after_drives(o, normalize_key("username"@));
    lemma_named_after_public_mode(o, normalize_key("username"@));
}

/// The only command-line values that set `domain`.
#[verifier::rlimit(50)]
#[verifier::spinoff_prover]
proof fn lemma_option_domain(o: ConnectionOverrides)
    ensures
        last_assigned(named_steps(o), normalize_key("domain"@)) == text_given(o.domain),
{
    broadcast use lemma_assigned_in_concat, lemma_assigned_in_one;

    lemma_named_keys_apart();
    assert(last_assigned(Seq::<Step>::empty(), normalize_key("domain"@)) is None);
    lemma_named_after_drives(o, normalize_key("domain"@));
    lemma_named_after_public_mode(o, normalize_key("domain"@));
}

/// The only command-line values that set `desktopwidth`.
#[verifier::rlimit(50)]
#[verifier::spinoff_prover]
proof fn lemma_option_desktopwidth(o: ConnectionOverrides)
    ensures
        last_assigned(named_steps(o), normalize_key("desktopwidth"@)) == number_given(o.width),
{
    broadcast use lemma_assigned_in_concat, lemma_assigned_in_one;

    lemma_named_keys_apart();
    assert(last_assigned(Seq::<Step>::empty(), normalize_key("desktopwidth"@)) is None);
    lemma_named_after_drives(o, normalize_key("desktopwidth"@));
    lemma_named_after_public_mode(o, normalize_key("desktopwidth"@));
}

/// The only command-line values that set `desktopheight`.
#[verifier::rlimit(50)]
#[verifier::spinoff_prover]
proof fn lemma_option_desktopheight(o: ConnectionOverrides)
    ensures
        last_assigned(named_steps(o), normalize_key("desktopheight"@)) == number_given(o.height),
{
    broadcast use lemma_assigned_in_concat, lemma_assigned_in_one;

    lemma_named_keys_apart();
    assert(last_assigned(Seq::<Step>::empty(), normalize_key("desktopheight"@)) is None);
    lemma_named_after_drives(o, normalize_key("desktopheight"@));
    lemma_named_after_public_mode(o, normalize_key("desktopheight"@));
}

/// The only command-line values that set `screen mode id`.
#[verifier::rlimit(50)]
#[verifier::spinoff_prover]
proof fn lemma_option_screen_mode_id(o: ConnectionOverrides)
    ensures
        last_assigned(named_steps(o), normalize_key("screen mode id"@)) == if o.span == Some(true) {
            Some(RdpValueView::Integer(2))
        } else {
            flag_as_given(o.fullscreen, 2, 1)
        },
{
    broadcast use lemma_assigned_in_concat, lemma_assigned_in_one;

    lemma_named_keys_apart();
    assert(last_assigned(Seq::<Step>::empty(), normalize_key("screen mode id"@)) is None);
    lemma_named_after_drives(o, normalize_key("screen mode id"@));
    lemma_named_after_public_mode(o, normalize_key("screen mode id"@));
}

/// The only command-line values that set `use multimon`.
#[verifier::rlimit(50)]
#[verifier::spinoff_prover]
proof fn lemma_option_use_multimon(o: ConnectionOverrides)
    ensures
        last_assigned(named_steps(o), normalize_key("use multimon"@)) == if o.span == Some(true) {
            Some(RdpValueView::Integer(0))
        } else {
            flag_given(o.multimon)
        },
{
    broadcast use lemma_assigned_in_concat, lemma_assigned_in_one;

    lemma_named_keys_apart();
    assert(last_assigned(Seq::<Step>::empty(), normalize_key("use multimon"@)) is None);
    lemma_named_after_drives(o, normalize_key("use multimon"@));
    lemma_named_after_public_mode(o, normalize_key("use multimon"@));
}

/// The only command-line values that set `span monitors`.
#[verifier::rlimit(50)]
#[verifier::spinoff_prover]
proof fn lemma_option_span_monitors(o: ConnectionOverrides)
    ensures
        last_assigned(named_steps(o), normalize_key("span monitors"@)) == flag_given(o.span),
{
    broadcast use lemma_assigned_in_concat, lemma_assigned_in_one;

    lemma_named_keys_apart();
    assert(last_assigned(Seq::<Step>::empty(), normalize_key("span monitors"@)) is None);
    lemma_named_after_drives(o, normalize_key("span monitors"@));
    lemma_named_after_public_mode(o, normalize_key("span monitors"@));
}

/// The only command-line values that set `administrative session`.
#[verifier::rlimit(50)]
#[verifier::spinoff_prover]
proof fn lemma_option_administrative_session(o: ConnectionOverrides)
    ensures
        last_assigned(named_steps(o), normalize_key("administrative session"@)) == flag_given(o.admin),
{
    broadcast use lemma_assigned_in_concat, lemma_assigned_in_one;

    lemma_named_keys_apart();
    assert(last_assigned(Seq::<Step>::empty(), normalize_key("administrative session"@)) is None);
    lemma_named_after_drives(o, normalize_key("administrative session"@));
    lemma_named_after_public_mode(o, normalize_key("administrative session"@));
}

/// The only command-line values that set `public mode`.
#[verifier::rlimit(50)]
#[verifier::spinoff_prover]
proof fn lemma_option_public_mode(o: ConnectionOverrides)
    ensures
        last_assigned(named_steps(o), normalize_key("public mode"@)) == flag_given(o.public_mode),
{
    broadcast use lemma_assigned_in_concat, lemma_assigned_in_one;

    lemma_named_keys_apart();
    assert(last_assigned(Seq::<Step>::empty(), normalize_key("public mode"@)) is None);
    lemma_named_after_drives(o, normalize_key("public mode"@));
    lemma_named_after_public_mode(o, normalize_key("public mode"@));
}

/// The only command-line values that set `restricted admin mode`.
#[verifier::rlimit(50)]
#[verifier::spinoff_prover]
proof fn lemma_option_restricted_admin_mode(o: ConnectionOverrides)
    ensures
        last_assigned(named_steps(o), normalize_key("restricted admin mode"@)) == flag_given(o.restricted_admin),
{
    broadcast use lemma_assigned_in_concat, lemma_assigned_in_one;

    lemma_named_keys_apart();
    assert(last_assigned(Seq::<Step>::empty(), normalize_key("restricted admin mode"@)) is None);
    lemma_named_after_drives(o, normalize_key("restricted admin mode"@));
    lemma_named_through_public_mode_only_theirs(o, normalize_key("restricted admin mode"@));
}

/// The only command-line values that set `remote credential guard`.
#[verifier::rlimit(50)]
#[verifier::spinoff_prover]
proof fn lemma_option_remote_credential_guard(o: ConnectionOverrides)
    ensures
        last_assigned(named_steps(o), normalize_key("remote credential guard"@)) == flag_given(o.remote_guard),
{
    broadcast use lemma_assigned_in_concat, lemma_assigned_in_one;

    lemma_named_keys_apart();
    assert(last_assigned(Seq::<Step>::empty(), normalize_key("remote credential guard"@)) is None);
    lemma_named_after_drives(o, normalize_key("remote credential guard"@));
    lemma_named_through_public_mode_only_theirs(o, normalize_key("remote credential guard"@));
}

/// The only command-line values that set `gatewayhostname`.
#[verifier::rlimit(50)]
#[verifier::spinoff_prover]
proof fn lemma_option_gatewayhostname(o: ConnectionOverrides)
    ensures
        last_assigned(named_steps(o), normalize_key("gatewayhostname"@)) == text_given(o.gateway),
{
    broadcast use lemma_assigned_in_concat, lemma_assigned_in_one;

    lemma_named_keys_apart();
    assert(last_assigned(Seq::<Step>::empty(), normalize_key("gatewayhostname"@)) is None);
    lemma_named_after_drives(o, normalize_key("gatewayhostname"@));
    lemma_named_through_public_mode_only_theirs(o, normalize_key("gatewayhostname"@));
}

/// The only command-line values that set `gatewayusagemethod`.
#[verifier::rlimit(50)]
#[verifier::spinoff_prover]
proof fn lemma_option_gatewayusagemethod(o: ConnectionOverrides)
    ensures
        last_assigned(named_steps(o), normalize_key("gatewayusagemethod"@)) == if o.gateway is Some {
            Some(RdpValueView::Integer(1))
        } else {
            None
        },
{
    broadcast use lemma_assigned_in_concat, lemma_assigned_in_one;

    lemma_named_keys_apart();
    assert(last_assigned(Seq::<Step>::empty(), normalize_key("gatewayusagemethod"@)) is None);
    lemma_named_after_drives(o, normalize_key("gatewayusagemethod"@));
    lemma_named_through_public_mode_only_theirs(o, normalize_key("gatewayusagemethod"@));
}

/// The only command-line values that set `gatewayprofileusagemethod`.
#[verifier::rlimit(50)]
#[verifier::spinoff_prover]
proof fn lemma_option_gatewayprofileusagemethod(o: ConnectionOverrides)
    ensures
        last_assigned(named_steps(o), normalize_key("gatewayprofileusagemethod"@)) == if o.gateway is Some {
            Some(RdpValueView::Integer(1))
        } else {
            None
        },
{
    broadcast use lemma_assigned_in_concat, lemma_assigned_in_one;

    lemma_named_keys_apart();
    assert(last_assigned(Seq::<Step>::empty(), normalize_key("gatewayprofileusagemethod"@)) is None);
    lemma_named_after_drives(o, normalize_key("gatewayprofileusagemethod"@));
    lemma_named_through_public_mode_only_theirs(o, normalize_key("gatewayprofileusagemethod"@));
}

/// The only command-line values that set `dynamic resolution`.
#[verifier::rlimit(50)]
#[verifier::spinoff_prover]
proof fn lemma_option_dynamic_resolution(o: ConnectionOverrides)
    ensures
        last_assigned(named_steps(o), normalize_key("dynamic resolution"@)) == flag_given(o.dynamic_resolution),
{
    broadcast use lemma_assigned_in_concat, lemma_assigned_in_one;

    lemma_named_keys_apart();
    assert(last_assigned(Seq::<Step>::empty(), normalize_key("dynamic resolution"@)) is None);
    lemma_named_after_drives(o, normalize_key("dynamic resolution"@));
    lemma_named_through_public_mode_only_theirs(o, normalize_key("dynamic resolution"@));
}

/// The only command-line values that set `redirectclipboard`.
#[verifier::rlimit(50)]
#[verifier::spinoff_prover]
proof fn lemma_option_redirectclipboard(o: ConnectionOverrides)
    ensures
        last_assigned(named_steps(o), normalize_key("redirectclipboard"@)) == flag_given(o.redirect_clipboard),
{
    broadcast use lemma_assigned_in_concat, lemma_assigned_in_one;

    lemma_named_keys_apart();
    assert(last_assigned(Seq::<Step>::empty(), normalize_key("redirectclipboard"@)) is None);
    lemma_named_after_drives(o, normalize_key("redirectclipboard"@));
    lemma_named_through_public_mode_only_theirs(o, normalize_key("redirectclipboard"@));
}

/// The only command-line values that set `redirectprinters`.
#[verifier::rlimit(50)]
#[verifier::spinoff_prover]
proof fn lemma_option_redirectprinters(o: ConnectionOverrides)
    ensures
        last_assigned(named_steps(o), normalize_key("redirectprinters"@)) == flag_given(o.redirect_printers),
{
    broadcast use lemma_assigned_in_concat, lemma_assigned_in_one;

    lemma_named_keys_apart();
    assert(last_assigned(Seq::<Step>::empty(), normalize_key("redirectprinters"@)) is None);
    lemma_named_after_drives(o, normalize_key("redirectprinters"@));
    lemma_named_through_public_mode_only_theirs(o, normalize_key("redirectprinters"@));
}

/// The only command-line values that set `drivestoredirect`.
#[verifier::rlimit(50)]
#[verifier::spinoff_prover]
proof fn lemma_option_drivestoredirect(o: ConnectionOverrides)
    ensures
        last_assigned(named_steps(o), normalize_key("drivestoredirect"@)) == text_given(o.redirect_drives),
{
    broadcast use lemma_assigned_in_concat, lemma_assigned_in_one;

    lemma_named_keys_apart();
    assert(last_assigned(Seq::<Step>::empty(), normalize_key("drivestoredirect"@)) is None);
    lemma_named_after_drives(o, normalize_key("drivestoredirect"@));
    lemma_named_through_public_mode_only_theirs(o, normalize_key("drivestoredirect"@));
}

/// The only command-line values that set `redirectsmartcards`.
#[verifier::rlimit(50)]
#[verifier::spinoff_prover]
proof fn lemma_option_redirectsmartcards(o: ConnectionOverrides)
    ensures
        last_assigned(named_steps(o), normalize_key("redirectsmartcards"@)) == flag_given(o.redirect_smartcards),
{
    broadcast use lemma_assigned_in_concat, lemma_assigned_in_one;

    lemma_named_keys_apart();
    assert(last_assigned(Seq::<Step>::empty(), normalize_key("redirectsmartcards"@)) is None);
    lemma_named_after_public_mode(o, normalize_key("redirectsmartcards"@));
    lemma_named_through_public_mode_only_theirs(o, normalize_key("redirectsmartcards"@));
}

/// The only command-line values that set `redirectcomports`.
#[verifier::rlimit(50)]
#[verifier::spinoff_prover]
proof fn lemma_option_redirectcomports(o: ConnectionOverrides)
    ensures
        last_assigned(named_steps(o), normalize_key("redirectcomports"@)) == flag_given(o.redirect_com_ports),
{
    broadcast use lemma_assigned_in_concat, lemma_assigned_in_one;

    lemma_named_keys_apart();
    assert(last_assigned(Seq::<Step>::empty(), normalize_key("redirectcomports"@)) is None);
    lemma_named_after_public_mode(o, normalize_key("redirectcomports"@));
    lemma_named_through_public_mode_only_theirs(o, normalize_key("redirectcomports"@));
}

/// The only command-line values that set `redirectwebauthn`.
#[verifier::rlimit(50)]
#[verifier::spinoff_prover]
proof fn lemma_option_redirectwebauthn(o: ConnectionOverrides)
    ensures
        last_assigned(named_steps(o), normalize_key("redirectwebauthn"@)) == flag_given(o.redirect_webauthn),
{
    broadcast use lemma_assigned_in_concat, lemma_assigned_in_one;

    lemma_named_keys_apart();
    assert(last_assigned(Seq::<Step>::empty(), normalize_key("redirectwebauthn"@)) is None);
    lemma_named_after_public_mode(o, normalize_key("redirectwebauthn"@));
    lemma_named_through_public_mode_only_theirs(o, normalize_key("redirectwebauthn"@));
}

/// The only command-line values that set `redirectlocation`.
#[verifier::rlimit(50)]
#[verifier::spinoff_prover]
proof fn lemma_option_redirectlocation(o: ConnectionOverrides)
    ensures
        last_assigned(named_steps(o), normalize_key("redirectlocation"@)) == flag_given(o.redirect_location),
{
    broadcast use lemma_assigned_in_concat, lemma_assigned_in_one;

    lemma_named_keys_apart();
    assert(last_assigned(Seq::<Step>::empty(), normalize_key("redirectlocation"@)) is None);
    lemma_named_after_public_mode(o, normalize_key("redirectlocation"@));
    lemma_named_through_public_mode_only_theirs(o, normalize_key("redirectlocation"@));
}

/// The only command-line values that set `camerastoredirect`.
#[verifier::rlimit(50)]
#[verifier::spinoff_prover]
proof fn lemma_option_camerastoredirect(o: ConnectionOverrides)
    ensures
        last_assigned(named_steps(o), normalize_key("camerastoredirect"@)) == text_given(o.redirect_cameras),
{
    broadcast use lemma_assigned_in_concat, lemma_assigned_in_one;

    lemma_named_keys_apart();
    assert(last_assigned(Seq::<Step>::empty(), normalize_key("camerastoredirect"@)) is None);
    lemma_named_after_public_mode(o, normalize_key("camerastoredirect"@));
    lemma_named_through_public_mode_only_theirs(o, normalize_key("camerastoredirect"@));
}

/// The only command-line values that set `audiocapturemode`.
#[verifier::rlimit(50)]
#[verifier::spinoff_prover]
proof fn lemma_option_audiocapturemode(o: ConnectionOverrides)
    ensures
        last_assigned(named_steps(o), normalize_key("audiocapturemode"@)) == flag_given(o.redirect_microphone),
{
    broadcast use lemma_assigned_in_concat, lemma_assigned_in_one;

    lemma_named_keys_apart();
    assert(last_assigned(Seq::<Step>::empty(), normalize_key("audiocapturemode"@)) is None);
    lemma_named_after_public_mode(o, normalize_key("audiocapturemode"@));
    lemma_named_through_public_mode_only_theirs(o, normalize_key("audiocapturemode"@));
}

/// The only command-line values that set `audiomode`.
#[verifier::rlimit(50)]
#[verifier::spinoff_prover]
proof fn lemma_option_audiomode(o: ConnectionOverrides)
    ensures
        last_assigned(named_steps(o), normalize_key("audiomode"@)) == number_given(o.audio_mode),
{
    broadcast use lemma_assigned_in_concat, lemma_assigned_in_one;

    lemma_named_keys_apart();
    assert(last_assigned(Seq::<Step>::empty(), normalize_key("audiomode"@)) is None);
    lemma_named_after_public_mode(o, normalize_key("audiomode"@));
    lemma_named_through_public_mode_only_theirs(o, normalize_key("audiomode"@));
}

/// The only command-line values that set `remoteapplicationmode`.
#[verifier::rlimit(50)]
#[verifier::spinoff_prover]
proof fn lemma_option_remoteapplicationmode(o: ConnectionOverrides)
    ensures
        last_assigned(named_steps(o), normalize_key("remoteapplicationmode"@)) == if o.remote_app is Some {
            Some(RdpValueView::Integer(1))
        } else {
            None
        },
{
    broadcast use lemma_assigned_in_concat, lemma_assigned_in_one;

    lemma_named_keys_apart();
    assert(last_assigned(Seq::<Step>::empty(), normalize_key("remoteapplicationmode"@)) is None);
    lemma_named_after_public_mode(o, normalize_key("remoteapplicationmode"@));
    lemma_named_through_public_mode_only_theirs(o, normalize_key("remoteapplicationmode"@));
}

/// The only command-line values that set `remoteapplicationprogram`.
#[verifier::rlimit(50)]
#[verifier::spinoff_prover]
proof fn lemma_option_remoteapplicationprogram(o: ConnectionOverrides)
    ensures
        last_assigned(named_steps(o), normalize_key("remoteapplicationprogram"@)) == text_given(o.remote_app),
{
    broadcast use lemma_assigned_in_concat, lemma_assigned_in_one;

    lemma_named_keys_apart();
    assert(last_assigned(Seq::<Step>::empty(), normalize_key("remoteapplicationprogram"@)) is None);
    lemma_named_after_public_mode(o, normalize_key("remoteapplicationprogram"@));
    lemma_named_through_public_mode_only_theirs(o, normalize_key("remoteapplicationprogram"@));
}

/// The only command-line values that set `remoteapplicationcmdline`.
#[verifier::rlimit(50)]
#[verifier::spinoff_prover]
proof fn lemma_option_remoteapplicationcmdline(o: ConnectionOverrides)
    ensures
        last_assigned(named_steps(o), normalize_key("remoteapplicationcmdline"@)) == text_given(o.remote_app_args),
{
    broadcast use lemma_assigned_in_concat, lemma_assigned_in_one;

    lemma_named_keys_apart();
    assert(last_assigned(Seq::<Step>::empty(), normalize_key("remoteapplicationcmdline"@)) is None);
    lemma_named_after_public_mode(o, normalize_key("remoteapplicationcmdline"@));
    lemma_named_through_public_mode_only_theirs(o, normalize_key("remoteapplicationcmdline"@));
}

/// The only command-line values that set `shell working directory`.
#[verifier::rlimit(50)]
#[verifier::spinoff_prover]
proof fn lemma_option_shell_working_directory(o: ConnectionOverrides)
    ensures
        last_assigned(named_steps(o), normalize_key("shell working directory"@)) == text_given(o.remote_app_workdir),
{
    broadcast use lemma_assigned_in_concat, lemma_assigned_in_one;

    lemma_named_keys_apart();
    assert(last_assigned(Seq::<Step>::empty(), normalize_key("shell working directory"@)) is None);
    lemma_named_after_public_mode(o, normalize_key("shell working directory"@));
    lemma_named_through_public_mode_only_theirs(o, normalize_key("shell working directory"@));
}

/// Each command-line option sets its own property and no other (the server, user name and domain, the desktop size, full screen, multiple monitors and span, administrative session and public mode): after a merge, a property that
/// no `--set` value names holds what its option gave, or, when the option
/// is not given, what the `.rdp` file (or the defaults) had. Span forces
/// full screen and turns multiple monitors off; a gateway host turns
/// gateway use on; a RemoteApp program turns RemoteApp mode on.
#[verifier::rlimit(100)]
#[verifier::spinoff_prover]
pub proof fn lemma_options_connection_values(
    source: Option<(String, Vec<u8>)>,
    o: ConnectionOverrides,
    c: SessionConfig,
)
    requires
        resolved(source, o, Ok(c)),
    ensures
        last_assigned(custom_steps(o.custom_properties@), normalize_key("full address"@)) is None
            ==> given_or_kept(
            c.document@.lines,
            source_doc(source)->0.lines,
            "full address"@,
            text_given(o.server),
        ),
        last_assigned(custom_steps(o.custom_properties@), normalize_key("username"@)) is None
            ==> given_or_kept(
            c.document@.lines,
            source_doc(source)->0.lines,
            "username"@,
            text_given(o.username),
        ),
        last_assigned(custom_steps(o.custom_properties@), normalize_key("domain"@)) is None
            ==> given_or_kept(
            c.document@.lines,
            source_doc(source)->0.lines,
            "domain"@,
            text_given(o.domain),
        ),
        last_assigned(custom_steps(o.custom_properties@), normalize_key("desktopwidth"@)) is None
            ==> given_or_kept(
            c.document@.lines,
            source_doc(source)->0.lines,
            "desktopwidth"@,
            number_given(o.width),
        ),
        last_assigned(custom_steps(o.custom_properties@), normalize_key("desktopheight"@)) is None
            ==> given_or_kept(
            c.document@.lines,
            source_doc(source)->0.lines,
            "desktopheight"@,
            number_given(o.height),
        ),
        last_assigned(custom_steps(o.custom_properties@), normalize_key("screen mode id"@)) is None
            ==> given_or_kept(
            c.document@.lines,
            source_doc(source)->0.lines,
            "screen mode id"@,
            if o.span == Some(true) {
                Some(RdpValueView::Integer(2))
            } else {
                flag_as_given(o.fullscreen, 2, 1)
            },
        ),
        last_assigned(custom_steps(o.custom_properties@), normalize_key("use multimon"@)) is None
            ==> given_or_kept(
            c.document@.lines,
            source_doc(source)->0.lines,
            "use multimon"@,
            if o.span == Some(true) {
                Some(RdpValueView::Integer(0))
            } else {
                flag_given(o.multimon)
            },
        ),
        last_assigned(custom_steps(o.custom_properties@), normalize_key("span monitors"@)) is None
            ==> given_or_kept(
            c.document@.lines,
            source_doc(source)->0.lines,
            "span monitors"@,
            flag_given(o.span),
        ),
        last_assigned(custom_steps(o.custom_properties@), normalize_key("administrative session"@)) is None
            ==> given_or_kept(
            c.document@.lines,
            source_doc(source)->0.lines,
            "administrative session"@,
            flag_given(o.admin),
        ),
        last_assigned(custom_steps(o.custom_properties@), normalize_key("public mode"@)) is None
            ==> given_or_kept(
            c.document@.lines,
            source_doc(source)->0.lines,
            "public mode"@,
            flag_given(o.public_mode),
        ),
{
    let d = source_doc(source)->0;
    lemma_option_full_address(o);
    lemma_override_precedence(d, o, normalize_key("full address"@));
    lemma_option_username(o);
    lemma_override_precedence(d, o, normalize_key("username"@));
    lemma_option_domain(o);
    lemma_override_precedence(d, o, normalize_key("domain"@));
    lemma_option_desktopwidth(o);
    lemma_override_precedence(d, o, normalize_key("desktopwidth"@));
    lemma_option_desktopheight(o);
    lemma_override_precedence(d, o, normalize_key("desktopheight"@));
    lemma_option_screen_mode_id(o);
    lemma_override_precedence(d, o, normalize_key("screen mode id"@));
    lemma_option_use_multimon(o);
    lemma_override_precedence(d, o, normalize_key("use multimon"@));
    lemma_option_span_monitors(o);
    lemma_override_precedence(d, o, normalize_key("span monitors"@));
    lemma_option_administrative_session(o);
    lemma_override_precedence(d, o, normalize_key("administrative session"@));
    lemma_option_public_mode(o);
    lemma_override_precedence(d, o, normalize_key("public mode"@));
}

/// Each command-line option sets its own property and no other (Restricted Admin mode, Remote Credential Guard, the gateway, dynamic resolution, clipboard, printers and drives): after a merge, a property that
/// no `--set` value names holds what its option gave, or, when the option
/// is not given, what the `.rdp` file (or the defaults) had. Span forces
/// full screen and turns multiple monitors off; a gateway host turns
/// gateway use on; a RemoteApp program turns RemoteApp mode on.
#[verifier::rlimit(100)]
#[verifier::spinoff_prover]
pub proof fn lemma_options_protection_and_devices(
    source: Option<(String, Vec<u8>)>,
    o: ConnectionOverrides,
    c: SessionConfig,
)
    requires
        resolved(source, o, Ok(c)),
    ensures
        last_assigned(custom_steps(o.custom_properties@), normalize_key("restricted admin mode"@)) is None
            ==> given_or_kept(
            c.document@.lines,
            source_doc(source)->0.lines,
            "restricted admin mode"@,
            flag_given(o.restricted_admin),
        ),
        last_assigned(custom_steps(o.custom_properties@), normalize_key("remote credential guard"@)) is None
            ==> given_or_kept(
            c.document@.lines,
            source_doc(source)->0.lines,
            "remote credential guard"@,
            flag_given(o.remote_guard),
        ),
        last_assigned(custom_steps(o.custom_properties@), normalize_key("gatewayhostname"@)) is None
            ==> given_or_kept(
            c.document@.lines,
            source_doc(source)->0.lines,
            "gatewayhostname"@,
            text_given(o.gateway),
        ),
        last_assigned(custom_steps(o.custom_properties@), normalize_key("gatewayusagemethod"@)) is None
            ==> given_or_kept(
            c.document@.lines,
            source_doc(source)->0.lines,
            "gatewayusagemethod"@,
            if o.gateway is Some {
                Some(RdpValueView::Integer(1))
            } else {
                None
            },
        ),
        last_assigned(custom_steps(o.custom_properties@), normalize_key("gatewayprofileusagemethod"@)) is None
            ==> given_or_kept(
            c.document@.lines,
            source_doc(source)->0.lines,
            "gatewayprofileusagemethod"@,
            if o.gateway is Some {
                Some(RdpValueView::Integer(1))
            } else {
                None
            },
        ),
        last_assigned(custom_steps(o.custom_properties@), normalize_key("dynamic resolution"@)) is None
            ==> given_or_kept(
            c.document@.lines,
            source_doc(source)->0.lines,
            "dynamic resolution"@,
            flag_given(o.dynamic_resolution),
        ),
        last_assigned(custom_steps(o.custom_properties@), normalize_key("redirectclipboard"@)) is None
            ==> given_or_kept(
            c.document@.lines,
            source_doc(source)->0.lines,
            "redirectclipboard"@,
            flag_given(o.redirect_clipboard),
        ),
        last_assigned(custom_steps(o.custom_properties@), normalize_key("redirectprinters"@)) is None
            ==> given_or_kept(
            c.document@.lines,
            source_doc(source)->0.lines,
            "redirectprinters"@,
            flag_given(o.redirect_printers),
        ),
        last_assigned(custom_steps(o.custom_properties@), normalize_key("drivestoredirect"@)) is None
            ==> given_or_kept(
            c.document@.lines,
            source_doc(source)->0.lines,
            "drivestoredirect"@,
            text_given(o.redirect_drives),
        ),
{
    let d = source_doc(source)->0;
    lemma_option_restricted_admin_mode(o);
    lemma_override_precedence(d, o, normalize_key("restricted admin mode"@));
    lemma_option_remote_credential_guard(o);
    lemma_override_precedence(d, o, normalize_key("remote credential guard"@));
    lemma_option_gatewayhostname(o);
    lemma_override_precedence(d, o, normalize_key("gatewayhostname"@));
    lemma_option_gatewayusagemethod(o);
    lemma_override_precedence(d, o, normalize_key("gatewayusagemethod"@));
    lemma_option_gatewayprofileusagemethod(o);
    lemma_override_precedence(d, o, normalize_key("gatewayprofileusagemethod"@));
    lemma_option_dynamic_resolution(o);
    lemma_override_precedence(d, o, normalize_key("dynamic resolution"@));
    lemma_option_redirectclipboard(o);
    lemma_override_precedence(d, o, normalize_key("redirectclipboard"@));
    lemma_option_redirectprinters(o);
    lemma_override_precedence(d, o, normalize_key("redirectprinters"@));
    lemma_option_drivestoredirect(o);
    lemma_override_precedence(d, o, normalize_key("drivestoredirect"@));
}

/// Each command-line option sets its own property and no other (smart cards, serial ports, WebAuthn, location, cameras, microphone, audio playback and RemoteApp): after a merge, a property that
/// no `--set` value names holds what its option gave, or, when the option
/// is not given, what the `.rdp` file (or the defaults) had. Span forces
/// full screen and turns multiple monitors off; a gateway host turns
/// gateway use on; a RemoteApp program turns RemoteApp mode on.
#[verifier::rlimit(100)]
#[verifier::spinoff_prover]
pub proof fn lemma_options_devices_and_programs(
    source: Option<(String, Vec<u8>)>,
    o: ConnectionOverrides,
    c: SessionConfig,
)
    requires
        resolved(source, o, Ok(c)),
    ensures
        last_assigned(custom_steps(o.custom_properties@), normalize_key("redirectsmartcards"@)) is None
            ==> given_or_kept(
            c.document@.lines,
            source_doc(source)->0.lines,
            "redirectsmartcards"@,
            flag_given(o.redirect_smartcards),
        ),
        last_assigned(custom_steps(o.custom_properties@), normalize_key("redirectcomports"@)) is None
            ==> given_or_kept(
            c.document@.lines,
            source_doc(source)->0.lines,
            "redirectcomports"@,
            flag_given(o.redirect_com_ports),
        ),
        last_assigned(custom_steps(o.custom_properties@), normalize_key("redirectwebauthn"@)) is None
            ==> given_or_kept(
            c.document@.lines,
            source_doc(source)->0.lines,
            "redirectwebauthn"@,
            flag_given(o.redirect_webauthn),
        ),
        last_assigned(custom_steps(o.custom_properties@), normalize_key("redirectlocation"@)) is None
            ==> given_or_kept(
            c.document@.lines,
            source_doc(source)->0.lines,
            "redirectlocation"@,
            flag_given(o.redirect_location),
        ),
        last_assigned(custom_steps(o.custom_properties@), normalize_key("camerastoredirect"@)) is None
            ==> given_or_kept(
            c.document@.lines,
            source_doc(source)->0.lines,
            "camerastoredirect"@,
            text_given(o.redirect_cameras),
        ),
        last_assigned(custom_steps(o.custom_properties@), normalize_key("audiocapturemode"@)) is None
            ==> given_or_kept(
            c.document@.lines,
            source_doc(source)->0.lines,
            "audiocapturemode"@,
            flag_given(o.redirect_microphone),
        ),
        last_assigned(custom_steps(o.custom_properties@), normalize_key("audiomode"@)) is None
            ==> given_or_kept(
            c.document@.lines,
            source_doc(source)->0.lines,
            "audiomode"@,
            number_given(o.audio_mode),
        ),
        last_assigned(custom_steps(o.custom_properties@), normalize_key("remoteapplicationmode"@)) is None
            ==> given_or_kept(
            c.document@.lines,
            source_doc(source)->0.lines,
            "remoteapplicationmode"@,
            if o.remote_app is Some {
                Some(RdpValueView::Integer(1))
            } else {
                None
            },
        ),
        last_assigned(custom_steps(o.custom_properties@), normalize_key("remoteapplicationprogram"@)) is None
            ==> given_or_kept(
            c.document@.lines,
            source_doc(source)->0.lines,
            "remoteapplicationprogram"@,
            text_given(o.remote_app),
        ),
        last_assigned(custom_steps(o.custom_properties@), normalize_key("remoteapplicationcmdline"@)) is None
            ==> given_or_kept(
            c.document@.lines,
            source_doc(source)->0.lines,
            "remoteapplicationcmdline"@,
            text_given(o.remote_app_args),
        ),
        last_assigned(custom_steps(o.custom_properties@), normalize_key("shell working directory"@)) is None
            ==> given_or_kept(
            c.document@.lines,
            source_doc(source)->0.lines,
            "shell working directory"@,
            text_given(o.remote_app_workdir),
        ),
{
    let d = source_doc(source)->0;
    lemma_option_redirectsmartcards(o);
    lemma_override_precedence(d, o, normalize_key("redirectsmartcards"@));
    lemma_option_redirectcomports(o);
    lemma_override_precedence(d, o, normalize_key("redirectcomports"@));
    lemma_option_redirectwebauthn(o);
    lemma_override_precedence(d, o, normalize_key("redirectwebauthn"@));
    lemma_option_redirectlocation(o);
    lemma_override_precedence(d, o, normalize_key("redirectlocation"@));
    lemma_option_camerastoredirect(o);
    lemma_override_precedence(d, o, normalize_key("camerastoredirect"@));
    lemma_option_audiocapturemode(o);
    lemma_override_precedence(d, o, normalize_key("audiocapturemode"@));
    lemma_option_audiomode(o);
    lemma_override_precedence(d, o, normalize_key("audiomode"@));
    lemma_option_remoteapplicationmode(o);
    lemma_override_precedence(d, o, normalize_key("remoteapplicationmode"@));
    lemma_option_remoteapplicationprogram(o);
    lemma_override_precedence(d, o, normalize_key("remoteapplicationprogram"@));
    lemma_option_remoteapplicationcmdline(o);
    lemma_override_precedence(d, o, normalize_key("remoteapplicationcmdline"@));
    lemma_option_shell_working_directory(o);
    lemma_override_precedence(d, o, normalize_key("shell working directory"@));
}

} // verus!
