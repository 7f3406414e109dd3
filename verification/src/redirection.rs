//! Which local drives, devices and cameras are redirected into the session.
//!
//! The RDP properties `drivestoredirect`, `devicestoredirect`,
//! `usbdevicestoredirect` and `camerastoredirect` hold `;`-separated
//! selectors: `*` for everything, an instance-path prefix (ignoring ASCII
//! case), a device setup class as `{GUID}`, a dynamic marker for devices that
//! appear later, and `-selector` to exclude.
use vstd::prelude::*;

use crate::config::{int_property, opt_view};
use crate::rdp::{lookup, normalize_key, LineView, RdpDocument, RdpValueView};
use crate::text::{
    chars_eq_ignore_case, chars_equal, chars_of, chars_starts_with_ignore_case, eq_ignore_case,
    is_digit, split_char, split_chars, starts_with_ignore_case, sub_chars, trim, trim_chars,
};

verus! {

// ---------------------------------------------------------------------------
// GUID text
// ---------------------------------------------------------------------------

pub open spec fn is_hex(c: char) -> bool {
    is_digit(c) || ('a' <= c && c <= 'f') || ('A' <= c && c <= 'F')
}

pub open spec fn hex_value(c: char) -> nat {
    if is_digit(c) {
        ((c as u32) - ('0' as u32)) as nat
    } else if 'a' <= c && c <= 'f' {
        ((c as u32) - ('a' as u32) + 10) as nat
    } else {
        ((c as u32) - ('A' as u32) + 10) as nat
    }
}

/// The number written by hexadecimal digits, most significant first.
pub open spec fn hex_number(d: Seq<char>) -> nat
    decreases d.len(),
{
    if d.len() == 0 {
        0
    } else {
        hex_number(d.drop_last()) * 16 + hex_value(d.last())
    }
}

/// Positions of the dashes in `xxxxxxxx-xxxx-xxxx-xxxx-xxxxxxxxxxxx`.
pub open spec fn is_guid_dash(i: int) -> bool {
    i == 8 || i == 13 || i == 18 || i == 23
}

/// The 32 digits of a GUID written with dashes.
pub open spec fn guid_digits(s: Seq<char>) -> Seq<char> {
    s.take(8) + s.subrange(9, 13) + s.subrange(14, 18) + s.subrange(19, 23) + s.skip(24)
}

/// The value of a GUID written as 36 characters, `8-4-4-4-12` hexadecimal
/// digits in either case separated by dashes; the digits, read as one
/// 128-bit number, are its value.
pub open spec fn guid_text(s: Seq<char>) -> Option<u128> {
    if s.len() == 36 && forall|i: int|
        0 <= i < 36 ==> if is_guid_dash(i) {
            s[i] == '-'
        } else {
            is_hex(#[trigger] s[i])
        } {
        Some(hex_number(guid_digits(s)) as u128)
    } else {
        None
    }
}

/// `GUID::try_from(&str)` of windows-core, taken as its 128-bit value:
/// `Some` exactly for 36 characters in the dashed `8-4-4-4-12` hexadecimal
/// form, holding the value of its 32 digits.
#[verifier::external_body]
fn parse_guid(text: &str) -> (r: Option<u128>)
    ensures
        r == guid_text(text@),
{
    match windows_core::GUID::try_from(text) {
        Ok(guid) => Some(guid.to_u128()),
        Err(_) => None,
    }
}

// ---------------------------------------------------------------------------
// Selector lists
// ---------------------------------------------------------------------------

/// The trimmed pieces that are not empty.
pub open spec fn nonempty_trimmed(parts: Seq<Seq<char>>) -> Seq<Seq<char>>
    decreases parts.len(),
{
    if parts.len() == 0 {
        seq![]
    } else if trim(parts.last()).len() > 0 {
        nonempty_trimmed(parts.drop_last()).push(trim(parts.last()))
    } else {
        nonempty_trimmed(parts.drop_last())
    }
}

/// The selectors of a `;`-separated list: trimmed, empty ones dropped.
pub open spec fn selector_list(value: Seq<char>) -> Seq<Seq<char>> {
    nonempty_trimmed(split_char(value, ';'))
}

/// `s` is in `list`.
pub open spec fn listed(list: Seq<Seq<char>>, s: Seq<char>) -> bool {
    exists|k: int| 0 <= k < list.len() && #[trigger] list[k] == s
}

/// The selectors of `value`.
fn selectors(value: &[char]) -> (r: Vec<Vec<char>>)
    ensures
        r@.len() == selector_list(value@).len(),
        forall|k: int| 0 <= k < r@.len() ==> #[trigger] r@[k]@ == selector_list(value@)[k],
{
    let parts = split_chars(value, ';');
    let ghost all = split_char(value@, ';');
    let mut out: Vec<Vec<char>> = Vec::new();
    let n = parts.len();
    for i in 0..n
        invariant
            n == parts@.len() == all.len(),
            all == split_char(value@, ';'),
            forall|k: int| 0 <= k < parts@.len() ==> #[trigger] parts@[k]@ == all[k],
            out@.len() == nonempty_trimmed(all.take(i as int)).len(),
            forall|k: int|
                0 <= k < out@.len() ==> #[trigger] out@[k]@ == nonempty_trimmed(
                    all.take(i as int),
                )[k],
    {
        let t = trim_chars(parts[i].as_slice());
        proof {
            assert(all.take(i + 1).drop_last() =~= all.take(i as int));
            assert(all.take(i + 1).last() == all[i as int]);
        }
        if t.len() > 0 {
            out.push(t);
        }
    }
    assert(all.take(n as int) =~= all);
    out
}

/// A selector that stands for everything.
pub open spec fn is_star(s: Seq<char>) -> bool {
    s == seq!['*']
}

fn is_star_chars(s: &[char]) -> (r: bool)
    ensures
        r == is_star(s@),
{
    if s.len() == 1 && s[0] == '*' {
        assert(s@ =~= seq!['*']);
        true
    } else {
        false
    }
}

/// A list that redirects devices plugged in later: it holds `*` or the
/// dynamic marker (ignoring ASCII case).
pub open spec fn redirects_new(value: Seq<char>, marker: Seq<char>) -> bool {
    exists|k: int|
        0 <= k < selector_list(value).len() && (is_star(#[trigger] selector_list(value)[k])
            || eq_ignore_case(selector_list(value)[k], marker))
}

fn selectors_redirect_new(value: &[char], dynamic_marker: &str) -> (r: bool)
    ensures
        r == redirects_new(value@, dynamic_marker@),
{
    let list = selectors(value);
    let marker = chars_of(dynamic_marker);
    let n = list.len();
    for k in 0..n
        invariant
            n == list@.len() == selector_list(value@).len(),
            forall|j: int| 0 <= j < list@.len() ==> #[trigger] list@[j]@ == selector_list(value@)[j],
            marker@ == dynamic_marker@,
            forall|j: int|
                0 <= j < k ==> !(is_star(#[trigger] selector_list(value@)[j]) || eq_ignore_case(
                    selector_list(value@)[j],
                    marker@,
                )),
    {
        let s = list[k].as_slice();
        if is_star_chars(s) || chars_eq_ignore_case(s, marker.as_slice()) {
            return true;
        }
    }
    false
}

/// A list that holds `*`.
pub open spec fn has_star(value: Seq<char>) -> bool {
    exists|k: int| 0 <= k < selector_list(value).len() && is_star(#[trigger] selector_list(value)[k])
}

fn selectors_have_star(value: &[char]) -> (r: bool)
    ensures
        r == has_star(value@),
{
    let list = selectors(value);
    let n = list.len();
    for k in 0..n
        invariant
            n == list@.len() == selector_list(value@).len(),
            forall|j: int| 0 <= j < list@.len() ==> #[trigger] list@[j]@ == selector_list(value@)[j],
            forall|j: int| 0 <= j < k ==> !is_star(#[trigger] selector_list(value@)[j]),
    {
        if is_star_chars(list[k].as_slice()) {
            return true;
        }
    }
    false
}

// ---------------------------------------------------------------------------
// Matching one selector
// ---------------------------------------------------------------------------

/// Without trailing `\` and `/`.
pub open spec fn strip_trailing_slashes(s: Seq<char>) -> Seq<char>
    decreases s.len(),
{
    if s.len() > 0 && (s.last() == '\\' || s.last() == '/') {
        strip_trailing_slashes(s.drop_last())
    } else {
        s
    }
}

/// A drive name compared without surrounding blanks or trailing slashes.
pub open spec fn drive_key(s: Seq<char>) -> Seq<char> {
    strip_trailing_slashes(trim(s))
}

pub fn normalize_drive_name(value: &[char]) -> (r: Vec<char>)
    ensures
        r@ == drive_key(value@),
{
    let t = trim_chars(value);
    let mut n = t.len();
    assert(t@.take(n as int) =~= t@);
    while n > 0 && (t[n - 1] == '\\' || t[n - 1] == '/')
        invariant
            n <= t@.len(),
            strip_trailing_slashes(t@) == strip_trailing_slashes(t@.take(n as int)),
        decreases n,
    {
        assert(t@.take(n as int).drop_last() =~= t@.take(n - 1));
        n = n - 1;
    }
    assert(strip_trailing_slashes(t@.take(n as int)) == t@.take(n as int));
    sub_chars(t.as_slice(), 0, n)
}

/// `{...}` around the text of a GUID.
pub open spec fn braced_guid(s: Seq<char>) -> Option<u128> {
    if s.len() >= 2 && s[0] == '{' && s.last() == '}' {
        guid_text(s.subrange(1, s.len() - 1))
    } else {
        None
    }
}

/// One selector against a device: `*` matches every device, `{GUID}` its
/// setup class, anything else a prefix of its instance path (ignoring ASCII
/// case).
pub open spec fn selector_hits(selector: Seq<char>, instance_id: Seq<char>, class_guid: Option<u128>) -> bool {
    if is_star(selector) {
        true
    } else {
        match braced_guid(selector) {
            Some(g) => class_guid == Some(g),
            None => starts_with_ignore_case(instance_id, selector),
        }
    }
}

fn selector_matches(selector: &[char], instance_id: &[char], class_guid: Option<u128>) -> (r: bool)
    ensures
        r == selector_hits(selector@, instance_id@, class_guid),
{
    if is_star_chars(selector) {
        return true;
    }
    let n = selector.len();
    if n >= 2 && selector[0] == '{' && selector[n - 1] == '}' {
        let inner = sub_chars(selector, 1, n - 1);
        let text = crate::text::string_of(inner.as_slice());
        if let Some(g) = parse_guid(text.as_str()) {
            return class_guid == Some(g);
        }
    }
    chars_starts_with_ignore_case(instance_id, selector)
}

// ---------------------------------------------------------------------------
// Matching a list
// ---------------------------------------------------------------------------

pub open spec fn is_exclusion(s: Seq<char>) -> bool {
    s.len() > 0 && s[0] == '-'
}

/// A selector naming the dynamic marker does not match an existing device.
pub open spec fn is_marker(s: Seq<char>, marker: Seq<char>) -> bool {
    marker.len() > 0 && eq_ignore_case(s, marker)
}

pub open spec fn includes(s: Seq<char>, id: Seq<char>, g: Option<u128>, marker: Seq<char>) -> bool {
    !is_exclusion(s) && (is_star(s) || (!is_marker(s, marker) && selector_hits(s, id, g)))
}

pub open spec fn excludes(s: Seq<char>, id: Seq<char>, g: Option<u128>) -> bool {
    is_exclusion(s) && selector_hits(s.skip(1), id, g)
}

/// A device is selected when some selector includes it and no `-selector`
/// excludes it.
pub open spec fn list_selects(configured: Seq<char>, id: Seq<char>, g: Option<u128>, marker: Seq<char>) -> bool {
    let l = selector_list(configured);
    &&& exists|k: int| 0 <= k < l.len() && includes(#[trigger] l[k], id, g, marker)
    &&& !exists|k: int| 0 <= k < l.len() && excludes(#[trigger] l[k], id, g)
}

/// Whether the device `instance_id` (of setup class `class_guid`, when
/// known) is selected by the list `configured`.
pub fn selector_list_matches(
    configured: &str,
    instance_id: &str,
    class_guid: Option<u128>,
    dynamic_marker: &str,
) -> (r: bool)
    ensures
        r == list_selects(configured@, instance_id@, class_guid, dynamic_marker@),
{
    let conf = chars_of(configured);
    let id = chars_of(instance_id);
    let marker = chars_of(dynamic_marker);
    let list = selectors(conf.as_slice());
    let ghost l = selector_list(configured@);
    let n = list.len();
    let mut selected = false;
    for k in 0..n
        invariant
            n == list@.len() == l.len(),
            l == selector_list(configured@),
            forall|j: int| 0 <= j < list@.len() ==> #[trigger] list@[j]@ == l[j],
            id@ == instance_id@,
            marker@ == dynamic_marker@,
            selected == exists|j: int| 0 <= j < k && includes(#[trigger] l[j], id@, class_guid, marker@),
    {
        let s = list[k].as_slice();
        let excluded = s.len() > 0 && s[0] == '-';
        if !excluded {
            let is_dynamic_marker = marker.len() > 0 && chars_eq_ignore_case(s, marker.as_slice());
            if is_star_chars(s) || (!is_dynamic_marker && selector_matches(s, id.as_slice(), class_guid)) {
                selected = true;
            }
        }
        proof {
            if selected {
                if includes(l[k as int], id@, class_guid, marker@) {
                    assert(0 <= k < k + 1);
                }
            }
        }
    }
    for k in 0..n
        invariant
            n == list@.len() == l.len(),
            l == selector_list(configured@),
            forall|j: int| 0 <= j < list@.len() ==> #[trigger] list@[j]@ == l[j],
            id@ == instance_id@,
            marker@ == dynamic_marker@,
            selected == ((exists|j: int| 0 <= j < n && includes(#[trigger] l[j], id@, class_guid, marker@))
                && !exists|j: int| 0 <= j < k && excludes(#[trigger] l[j], id@, class_guid)),
    {
        let s = list[k].as_slice();
        if s.len() > 0 && s[0] == '-' {
            let rest = sub_chars(s, 1, s.len());
            assert(rest@ =~= s@.skip(1));
            if selector_matches(rest.as_slice(), id.as_slice(), class_guid) {
                selected = false;
            }
        }
    }
    selected
}

/// An exclusion wins: a device matched by some `-selector` is never
/// selected, whatever else the list holds.
pub proof fn lemma_exclusion_wins(configured: Seq<char>, id: Seq<char>, g: Option<u128>, marker: Seq<char>, k: int)
    requires
        0 <= k < selector_list(configured).len(),
        excludes(selector_list(configured)[k], id, g),
    ensures
        !list_selects(configured, id, g, marker),
{
}

/// `*` selects every device that no `-selector` excludes.
pub proof fn lemma_star_selects(configured: Seq<char>, id: Seq<char>, g: Option<u128>, marker: Seq<char>)
    requires
        has_star(configured),
        forall|k: int|
            0 <= k < selector_list(configured).len() ==> !excludes(
                #[trigger] selector_list(configured)[k],
                id,
                g,
            ),
    ensures
        list_selects(configured, id, g, marker),
{
    let l = selector_list(configured);
    let k = choose|k: int| 0 <= k < l.len() && is_star(#[trigger] l[k]);
    assert(includes(l[k], id, g, marker));
}

/// `instance_id` names a USB device (`USB\...` or `\\?\usb#...`, ignoring
/// ASCII case), for controls that do not report it.
pub open spec fn usb_instance(instance_id: Seq<char>) -> bool {
    starts_with_ignore_case(instance_id, "USB\\"@) || starts_with_ignore_case(
        instance_id,
        "\\\\?\\usb#"@,
    )
}

pub fn looks_like_usb_instance(instance_id: &str) -> (r: bool)
    ensures
        r == usb_instance(instance_id@),
{
    let id = chars_of(instance_id);
    chars_starts_with_ignore_case(id.as_slice(), chars_of("USB\\").as_slice())
        || chars_starts_with_ignore_case(id.as_slice(), chars_of("\\\\?\\usb#").as_slice())
}

/// At most this many entries of a device, drive or camera collection are
/// visited.
pub open spec fn visit_limit() -> u32 {
    4096
}

pub fn entries_to_visit(count: u32) -> (r: u32)
    ensures
        r == if count < visit_limit() {
            count
        } else {
            visit_limit()
        },
{
    if count < 4096 {
        count
    } else {
        4096
    }
}

// ---------------------------------------------------------------------------
// The settings of a document
// ---------------------------------------------------------------------------

/// A string property, blank or not.
pub open spec fn string_property(lines: Seq<LineView>, key: Seq<char>) -> Option<Seq<char>> {
    match lookup(lines, normalize_key(key)) {
        Some(RdpValueView::String(s)) => Some(s),
        _ => None,
    }
}

/// The redirection properties of a document: the four selector lists as
/// written, video encoding on when its integer is not 0, and an encoding
/// quality only in 0..=2.
pub open spec fn redirection_of(r: RedirectionSettings, lines: Seq<LineView>) -> bool {
    &&& opt_view(r.drives) == string_property(lines, "drivestoredirect"@)
    &&& opt_view(r.devices) == string_property(lines, "devicestoredirect"@)
    &&& opt_view(r.usb_devices) == string_property(lines, "usbdevicestoredirect"@)
    &&& opt_view(r.cameras) == string_property(lines, "camerastoredirect"@)
    &&& r.encode_video == match int_property(lines, "encode redirected video capture"@) {
        Some(v) => Some(v != 0),
        None => None,
    }
    &&& r.encoding_quality == match int_property(
        lines,
        "redirected video capture encoding quality"@,
    ) {
        Some(v) => if 0 <= v <= 2 {
            Some(v)
        } else {
            None
        },
        None => None,
    }
}

#[derive(Clone, Debug, Default, PartialEq, Eq)]
pub struct RedirectionSettings {
    pub drives: Option<String>,
    pub devices: Option<String>,
    pub usb_devices: Option<String>,
    pub cameras: Option<String>,
    pub encode_video: Option<bool>,
    pub encoding_quality: Option<i32>,
}

fn string_value(document: &RdpDocument, key: &str) -> (r: Option<String>)
    ensures
        opt_view(r) == string_property(document@.lines, key@),
{
    match document.get_string(key) {
        Some(v) => Some(v.to_owned()),
        None => None,
    }
}

impl RedirectionSettings {
    pub fn from_document(document: &RdpDocument) -> (r: Self)
        ensures
            redirection_of(r, document@.lines),
    {
        let encode_video = match document.get_integer("encode redirected video capture") {
            Some(v) => Some(v != 0),
            None => None,
        };
        let encoding_quality = match document.get_integer(
            "redirected video capture encoding quality",
        ) {
            Some(v) => if 0 <= v && v <= 2 {
                Some(v)
            } else {
                None
            },
            None => None,
        };
        RedirectionSettings {
            drives: string_value(document, "drivestoredirect"),
            devices: string_value(document, "devicestoredirect"),
            usb_devices: string_value(document, "usbdevicestoredirect"),
            cameras: string_value(document, "camerastoredirect"),
            encode_video,
            encoding_quality,
        }
    }

    pub fn has_device_configuration(&self) -> (r: bool)
        ensures
            r == (self.devices is Some || self.usb_devices is Some),
    {
        self.devices.is_some() || self.usb_devices.is_some()
    }

    pub fn has_camera_configuration(&self) -> (r: bool)
        ensures
            r == (self.cameras is Some || self.encode_video is Some
                || self.encoding_quality is Some),
    {
        self.cameras.is_some() || self.encode_video.is_some() || self.encoding_quality.is_some()
    }

    pub fn redirect_dynamic_drives(&self) -> (r: bool)
        ensures
            r == (self.drives matches Some(d) && redirects_new(d@, "dynamicdrives"@)),
    {
        match &self.drives {
            Some(d) => selectors_redirect_new(chars_of(d.as_str()).as_slice(), "dynamicdrives"),
            None => false,
        }
    }

    pub fn redirect_dynamic_devices(&self) -> (r: bool)
        ensures
            r == ((self.devices matches Some(d) && redirects_new(d@, "dynamicdevices"@)) || (
            self.usb_devices matches Some(u) && has_star(u@))),
    {
        let by_devices = match &self.devices {
            Some(d) => selectors_redirect_new(chars_of(d.as_str()).as_slice(), "dynamicdevices"),
            None => false,
        };
        by_devices || match &self.usb_devices {
            Some(u) => selectors_have_star(chars_of(u.as_str()).as_slice()),
            None => false,
        }
    }

    /// Whether the local drive `drive_name` is redirected; `None` when no
    /// drive list is configured.
    pub fn drive_is_selected(&self, drive_name: &str) -> (r: Option<bool>)
        ensures
            match self.drives {
                None => r is None,
                Some(d) => r == Some(drive_selected(d@, drive_name@)),
            },
    {
        let configured = match &self.drives {
            Some(d) => d,
            None => {
                return None;
            },
        };
        let wanted = normalize_drive_name(chars_of(drive_name).as_slice());
        let marker = chars_of("dynamicdrives");
        let list = selectors(chars_of(configured.as_str()).as_slice());
        let ghost l = selector_list(configured@);
        let n = list.len();
        for k in 0..n
            invariant
                n == list@.len() == l.len(),
                l == selector_list(configured@),
                forall|j: int| 0 <= j < list@.len() ==> #[trigger] list@[j]@ == l[j],
                wanted@ == drive_key(drive_name@),
                self.drives == Some(*configured),
                marker@ == "dynamicdrives"@,
                forall|j: int| 0 <= j < k ==> !drive_hit(#[trigger] l[j], drive_name@),
        {
            let s = list[k].as_slice();
            if is_star_chars(s) || (!chars_equal(s, marker.as_slice()) && chars_eq_ignore_case(
                normalize_drive_name(s).as_slice(),
                wanted.as_slice(),
            )) {
                assert(drive_hit(l[k as int], drive_name@));
                return Some(true);
            }
        }
        Some(false)
    }

    /// Whether a device is redirected, by the USB list or the device list;
    /// `None` when that list is not configured.
    pub fn device_is_selected(&self, instance_id: &str, is_usb: bool, class_guid: Option<u128>) -> (r:
        Option<bool>)
        ensures
            match (if is_usb {
                self.usb_devices
            } else {
                self.devices
            }) {
                None => r is None,
                Some(c) => r == Some(
                    list_selects(
                        c@,
                        instance_id@,
                        class_guid,
                        if is_usb {
                            "dynamicusbdevices"@
                        } else {
                            "dynamicdevices"@
                        },
                    ),
                ),
            },
    {
        let configured = if is_usb {
            &self.usb_devices
        } else {
            &self.devices
        };
        match configured {
            Some(c) => Some(
                selector_list_matches(
                    c.as_str(),
                    instance_id,
                    class_guid,
                    if is_usb {
                        "dynamicusbdevices"
                    } else {
                        "dynamicdevices"
                    },
                ),
            ),
            None => None,
        }
    }

    /// Whether the camera `symbolic_link` is redirected; `None` when no
    /// camera list is configured.
    pub fn camera_is_selected(&self, symbolic_link: &str) -> (r: Option<bool>)
        ensures
            match self.cameras {
                None => r is None,
                Some(c) => r == Some(list_selects(c@, symbolic_link@, None, ""@)),
            },
    {
        match &self.cameras {
            Some(c) => Some(selector_list_matches(c.as_str(), symbolic_link, None, "")),
            None => None,
        }
    }

    /// Whether cameras are redirected unless listed otherwise: the camera
    /// list holds `*`; `None` when no camera list is configured.
    pub fn cameras_by_default(&self) -> (r: Option<bool>)
        ensures
            match self.cameras {
                None => r is None,
                Some(c) => r == Some(has_star(c@)),
            },
    {
        match &self.cameras {
            Some(c) => Some(selectors_have_star(chars_of(c.as_str()).as_slice())),
            None => None,
        }
    }
}

/// One drive selector against a drive: `*`, or the same drive name ignoring
/// ASCII case and trailing slashes (`dynamicdrives` itself names no drive).
pub open spec fn drive_hit(selector: Seq<char>, name: Seq<char>) -> bool {
    is_star(selector) || (selector != "dynamicdrives"@ && eq_ignore_case(
        drive_key(selector),
        drive_key(name),
    ))
}

pub open spec fn drive_selected(configured: Seq<char>, name: Seq<char>) -> bool {
    exists|k: int|
        0 <= k < selector_list(configured).len() && drive_hit(
            #[trigger] selector_list(configured)[k],
            name,
        )
}

} // verus!
