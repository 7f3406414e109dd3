//! The `.rdp` document: a line-preserving model of `name:type:value`
//! properties. Untouched lines are emitted exactly as they were read, while
//! overridden properties are rewritten canonically.
use vstd::prelude::*;

use crate::encoding::{
    decode, decode_text, encode, encode_text, lemma_encode_decode_text, plain_utf8_text,
};
use crate::error::{Error, Result};
use crate::text::{
    chars_equal, chars_of, decimal, decimal_int, extend_chars, find_char, format_i32, index_of,
    is_digit, is_ws, lead_ws, lemma_decimal_digits, lemma_decimal_int_parses, lemma_find_char_at,
    lemma_find_char_range, lemma_lead_ws_bound, lemma_trail_ws_bound, lemma_trim_trim, lower,
    lower_chars, parse_i32, parse_i32_chars,
    string_of, sub_chars, trail_ws, trim, trim_chars, trim_end, trim_start,
};

verus! {

/// Encoding detected when an `.rdp` document is loaded.
#[derive(Clone, Copy, Debug, PartialEq, Eq, Structural)]
pub enum RdpEncoding {
    Utf8,
    Utf8Bom,
    Utf16Le,
    Utf16Be,
}

impl Default for RdpEncoding {
    fn default() -> (r: Self)
        ensures
            r == RdpEncoding::Utf8,
    {
        RdpEncoding::Utf8
    }
}

// ---------------------------------------------------------------------------
// Mathematical model
// ---------------------------------------------------------------------------

/// The value of a property, its strings taken as character sequences.
pub enum RdpValueView {
    Integer(i32),
    String(Seq<char>),
    Binary(Seq<char>),
    Unknown { kind: Seq<char>, value: Seq<char> },
}

pub struct EntryView {
    pub key: Seq<char>,
    pub value: RdpValueView,
    pub raw: Seq<char>,
    pub dirty: bool,
}

pub enum LineView {
    Entry(EntryView),
    Raw(Seq<char>),
}

pub struct DocView {
    pub lines: Seq<LineView>,
    pub encoding: RdpEncoding,
    pub newline: Seq<char>,
    pub trailing_newline: bool,
}

/// The type tag of a value as it is written in a property line.
pub open spec fn value_kind(v: RdpValueView) -> Seq<char> {
    match v {
        RdpValueView::Integer(_) => seq!['i'],
        RdpValueView::String(_) => seq!['s'],
        RdpValueView::Binary(_) => seq!['b'],
        RdpValueView::Unknown { kind, .. } => kind,
    }
}

/// The value part of a property line.
pub open spec fn value_text(v: RdpValueView) -> Seq<char> {
    match v {
        RdpValueView::Integer(n) => decimal_int(n as int),
        RdpValueView::String(s) => s,
        RdpValueView::Binary(s) => s,
        RdpValueView::Unknown { value, .. } => value,
    }
}

/// A line as written: unmodified entries keep their original text.
pub open spec fn render_entry(e: EntryView) -> Seq<char> {
    if !e.dirty {
        e.raw
    } else {
        e.key + seq![':'] + value_kind(e.value) + seq![':'] + value_text(e.value)
    }
}

pub open spec fn render_line(l: LineView) -> Seq<char> {
    match l {
        LineView::Entry(e) => render_entry(e),
        LineView::Raw(r) => r,
    }
}

/// Property names compare after trimming and ASCII lower-casing.
pub open spec fn normalize_key(key: Seq<char>) -> Seq<char> {
    lower(trim(key))
}

pub open spec fn line_matches(l: LineView, nk: Seq<char>) -> bool {
    match l {
        LineView::Entry(e) => normalize_key(e.key) == nk,
        LineView::Raw(_) => false,
    }
}

/// The value of the last entry whose normalised name is `nk`.
pub open spec fn lookup(lines: Seq<LineView>, nk: Seq<char>) -> Option<RdpValueView>
    decreases lines.len(),
{
    if lines.len() == 0 {
        None
    } else if line_matches(lines.last(), nk) {
        match lines.last() {
            LineView::Entry(e) => Some(e.value),
            LineView::Raw(_) => None,
        }
    } else {
        lookup(lines.drop_last(), nk)
    }
}

/// Position of the last entry whose normalised name is `nk`.
pub open spec fn last_match(lines: Seq<LineView>, nk: Seq<char>) -> Option<int>
    decreases lines.len(),
{
    if lines.len() == 0 {
        None
    } else if line_matches(lines.last(), nk) {
        Some(lines.len() - 1)
    } else {
        last_match(lines.drop_last(), nk)
    }
}

/// Setting a property: the last entry with that name takes the new value
/// (keeping its spelling); without one, a new entry is appended.
pub open spec fn set_lines(lines: Seq<LineView>, key: Seq<char>, value: RdpValueView) -> Seq<
    LineView,
> {
    match last_match(lines, normalize_key(key)) {
        Some(j) => match lines[j] {
            LineView::Entry(e) => lines.update(
                j,
                LineView::Entry(EntryView { key: e.key, value: value, raw: e.raw, dirty: true }),
            ),
            LineView::Raw(_) => lines,
        },
        None => lines.push(
            LineView::Entry(EntryView { key: key, value: value, raw: seq![], dirty: true }),
        ),
    }
}

/// The lines without any entry named `nk`.
pub open spec fn remove_key(lines: Seq<LineView>, nk: Seq<char>) -> Seq<LineView>
    decreases lines.len(),
{
    if lines.len() == 0 {
        seq![]
    } else if line_matches(lines.last(), nk) {
        remove_key(lines.drop_last(), nk)
    } else {
        remove_key(lines.drop_last(), nk).push(lines.last())
    }
}

/// `name:type:value`: the name and type are trimmed and must not be empty;
/// the value keeps its colons; `i` values must be 32-bit integers.
pub open spec fn parse_line_spec(line: Seq<char>) -> Option<EntryView> {
    match find_char(line, ':') {
        None => None,
        Some(i1) => {
            let key = trim(line.take(i1));
            let rest = line.skip(i1 + 1);
            match find_char(rest, ':') {
                None => None,
                Some(i2) => {
                    let kind = trim(rest.take(i2));
                    let raw_value = rest.skip(i2 + 1);
                    if key.len() == 0 || kind.len() == 0 {
                        None
                    } else if lower(kind) == seq!['i'] {
                        match parse_i32(trim(raw_value)) {
                            Some(n) => Some(
                                EntryView {
                                    key: key,
                                    value: RdpValueView::Integer(n),
                                    raw: line,
                                    dirty: false,
                                },
                            ),
                            None => None,
                        }
                    } else if lower(kind) == seq!['s'] {
                        Some(
                            EntryView {
                                key: key,
                                value: RdpValueView::String(raw_value),
                                raw: line,
                                dirty: false,
                            },
                        )
                    } else if lower(kind) == seq!['b'] {
                        Some(
                            EntryView {
                                key: key,
                                value: RdpValueView::Binary(raw_value),
                                raw: line,
                                dirty: false,
                            },
                        )
                    } else {
                        Some(
                            EntryView {
                                key: key,
                                value: RdpValueView::Unknown { kind: kind, value: raw_value },
                                raw: line,
                                dirty: false,
                            },
                        )
                    }
                },
            }
        },
    }
}

pub open spec fn lines_view(v: Seq<RdpLine>) -> Seq<LineView> {
    v.map_values(|l: RdpLine| l@)
}

pub open spec fn pieces_to_lines(parts: Seq<Seq<char>>) -> Seq<LineView> {
    parts.map_values(|p: Seq<char>| line_of(p))
}

pub open spec fn rendered_lines(lines: Seq<LineView>) -> Seq<Seq<char>> {
    lines.map_values(|l: LineView| render_line(l))
}

pub open spec fn line_of(p: Seq<char>) -> LineView {
    match parse_line_spec(p) {
        Some(e) => LineView::Entry(e),
        None => LineView::Raw(p),
    }
}

pub open spec fn is_break(c: char) -> bool {
    c == '\r' || c == '\n'
}

/// Index of the first line-break character.
pub open spec fn find_break(s: Seq<char>) -> Option<int>
    decreases s.len(),
{
    if s.len() == 0 {
        None
    } else if is_break(s[0]) {
        Some(0)
    } else {
        match find_break(s.drop_first()) {
            Some(i) => Some(i + 1),
            None => None,
        }
    }
}

/// `\r\n` is one line break; a lone `\r` or `\n` is another.
pub open spec fn break_width(s: Seq<char>, i: int) -> int {
    if s[i] == '\r' && i + 1 < s.len() && s[i + 1] == '\n' {
        2
    } else {
        1
    }
}

/// The lines of a text, split at `\r\n`, `\n` and `\r`.
pub open spec fn lines_of(s: Seq<char>) -> Seq<Seq<char>>
    decreases s.len(),
{
    match find_break(s) {
        Some(i) => if 0 <= i < s.len() {
            seq![s.take(i)] + lines_of(s.skip(i + break_width(s, i)))
        } else {
            seq![s]
        },
        None => seq![s],
    }
}

pub open spec fn crlf() -> Seq<char> {
    seq!['\r', '\n']
}

pub open spec fn has_crlf(s: Seq<char>) -> bool {
    exists|i: int| 0 <= i < s.len() - 1 && #[trigger] s[i] == '\r' && s[i + 1] == '\n'
}

pub open spec fn has_char(s: Seq<char>, c: char) -> bool {
    exists|i: int| 0 <= i < s.len() && #[trigger] s[i] == c
}

/// The line break a document is written with: the first of `\r\n`, `\n`,
/// `\r` that occurs, `\r\n` when there is none.
pub open spec fn detect_newline(s: Seq<char>) -> Seq<char> {
    if has_crlf(s) {
        crlf()
    } else if has_char(s, '\n') {
        seq!['\n']
    } else if has_char(s, '\r') {
        seq!['\r']
    } else {
        crlf()
    }
}

pub open spec fn ends_with_break(s: Seq<char>) -> bool {
    s.len() > 0 && is_break(s.last())
}

/// The lines kept by the parser: a final empty piece after a trailing line
/// break is not a line.
pub open spec fn kept_lines(s: Seq<char>) -> Seq<Seq<char>> {
    let parts = lines_of(s);
    if ends_with_break(s) && parts.len() > 0 && parts.last().len() == 0 {
        parts.drop_last()
    } else {
        parts
    }
}

/// The document read from a text.
pub open spec fn parse_doc(s: Seq<char>, encoding: RdpEncoding) -> DocView {
    DocView {
        lines: pieces_to_lines(kept_lines(s)),
        encoding: encoding,
        newline: detect_newline(s),
        trailing_newline: ends_with_break(s),
    }
}

/// Pieces joined with a separator.
pub open spec fn join(parts: Seq<Seq<char>>, sep: Seq<char>) -> Seq<char>
    decreases parts.len(),
{
    if parts.len() == 0 {
        seq![]
    } else if parts.len() == 1 {
        parts[0]
    } else {
        join(parts.drop_last(), sep) + sep + parts.last()
    }
}

/// The text of a document.
pub open spec fn render_doc(d: DocView) -> Seq<char> {
    let text = join(rendered_lines(d.lines), d.newline);
    if d.trailing_newline && (d.lines.len() > 0 || text.len() > 0) {
        text + d.newline
    } else {
        text
    }
}

/// Every line break of `s` is exactly `nl`.
pub open spec fn uniform_breaks(s: Seq<char>, nl: Seq<char>) -> bool
    decreases s.len(),
{
    match find_break(s) {
        Some(i) => if 0 <= i < s.len() {
            s.subrange(i, i + break_width(s, i)) == nl && uniform_breaks(
                s.skip(i + break_width(s, i)),
                nl,
            )
        } else {
            true
        },
        None => true,
    }
}

// ---------------------------------------------------------------------------
// Executable types
// ---------------------------------------------------------------------------

/// A typed RDP value. Unknown type tags are deliberately retained.
#[derive(Clone, Debug, PartialEq, Eq)]
pub enum RdpValue {
    Integer(i32),
    String(String),
    Binary(String),
    Unknown { kind: String, value: String },
}

impl View for RdpValue {
    type V = RdpValueView;

    open spec fn view(&self) -> RdpValueView {
        match self {
            RdpValue::Integer(n) => RdpValueView::Integer(*n),
            RdpValue::String(s) => RdpValueView::String(s@),
            RdpValue::Binary(s) => RdpValueView::Binary(s@),
            RdpValue::Unknown { kind, value } => RdpValueView::Unknown {
                kind: kind@,
                value: value@,
            },
        }
    }
}

impl RdpValue {
    /// The type tag (`i`, `s`, `b`, or the unknown tag as written).
    fn kind(&self) -> (r: Vec<char>)
        ensures
            r@ == value_kind(self@),
    {
        match self {
            RdpValue::Integer(_) => {
                let mut r = Vec::new();
                r.push('i');
                assert(r@ =~= seq!['i']);
                r
            },
            RdpValue::String(_) => {
                let mut r = Vec::new();
                r.push('s');
                assert(r@ =~= seq!['s']);
                r
            },
            RdpValue::Binary(_) => {
                let mut r = Vec::new();
                r.push('b');
                assert(r@ =~= seq!['b']);
                r
            },
            RdpValue::Unknown { kind, .. } => chars_of(kind.as_str()),
        }
    }

    /// The value as it is written after the second colon.
    fn render_value(&self) -> (r: Vec<char>)
        ensures
            r@ == value_text(self@),
    {
        match self {
            RdpValue::Integer(n) => format_i32(*n),
            RdpValue::String(s) => chars_of(s.as_str()),
            RdpValue::Binary(s) => chars_of(s.as_str()),
            RdpValue::Unknown { value, .. } => chars_of(value.as_str()),
        }
    }
}

/// The text a property line was read from, and whether the line has been
/// edited since; an edited line is written out anew.
#[derive(Clone, Debug, PartialEq, Eq)]
pub struct LineSource {
    raw: String,
    dirty: bool,
}

impl View for LineSource {
    type V = (Seq<char>, bool);

    closed spec fn view(&self) -> (Seq<char>, bool) {
        (self.raw@, self.dirty)
    }
}

/// One parsed property line.
#[derive(Clone, Debug, PartialEq, Eq)]
pub struct RdpEntry {
    pub key: String,
    pub value: RdpValue,
    pub source: LineSource,
}

impl View for RdpEntry {
    type V = EntryView;

    open spec fn view(&self) -> EntryView {
        EntryView {
            key: self.key@,
            value: self.value@,
            raw: self.source@.0,
            dirty: self.source@.1,
        }
    }
}

impl RdpEntry {
    pub fn normalized_key(&self) -> (r: String)
        ensures
            r@ == normalize_key(self@.key),
    {
        let k = normalize_key_chars(chars_of(self.key.as_str()).as_slice());
        string_of(k.as_slice())
    }

    fn render_chars(&self) -> (r: Vec<char>)
        ensures
            r@ == render_entry(self@),
    {
        if !self.source.dirty {
            return chars_of(self.source.raw.as_str());
        }
        let mut text = chars_of(self.key.as_str());
        text.push(':');
        let kind = self.value.kind();
        extend_chars(&mut text, kind.as_slice());
        text.push(':');
        let value = self.value.render_value();
        extend_chars(&mut text, value.as_slice());
        assert(text@ =~= self.key@ + seq![':'] + value_kind(self.value@) + seq![':']
            + value_text(self.value@));
        text
    }

    pub fn render(&self) -> (r: String)
        ensures
            r@ == render_entry(self@),
    {
        let text = self.render_chars();
        string_of(text.as_slice())
    }

    /// Whether this entry's normalised name is `wanted`.
    fn key_is(&self, wanted: &[char]) -> (r: bool)
        ensures
            r == (normalize_key(self@.key) == wanted@),
    {
        let k = normalize_key_chars(chars_of(self.key.as_str()).as_slice());
        chars_equal(k.as_slice(), wanted)
    }
}

/// Parsed lines retain comments, blanks, malformed lines, unknown types and
/// original spellings so callers can round-trip documents without data loss.
#[derive(Clone, Debug, PartialEq, Eq)]
pub enum RdpLine {
    Entry(RdpEntry),
    Raw(String),
}

impl View for RdpLine {
    type V = LineView;

    open spec fn view(&self) -> LineView {
        match self {
            RdpLine::Entry(e) => LineView::Entry(e@),
            RdpLine::Raw(r) => LineView::Raw(r@),
        }
    }
}

impl RdpLine {
    fn render_chars(&self) -> (r: Vec<char>)
        ensures
            r@ == render_line(self@),
    {
        match self {
            RdpLine::Entry(e) => e.render_chars(),
            RdpLine::Raw(r) => chars_of(r.as_str()),
        }
    }
}

/// `str::trim().to_ascii_lowercase()`.
pub fn normalize_key_chars(key: &[char]) -> (r: Vec<char>)
    ensures
        r@ == normalize_key(key@),
{
    let t = trim_chars(key);
    lower_chars(t.as_slice())
}

proof fn lemma_find_char_some(s: Seq<char>, c: char)
    ensures
        find_char(s, c) matches Some(i) ==> 0 <= i < s.len(),
{
    lemma_find_char_range(s, c);
}

/// Parses one `name:type:value` line; `None` when it is not a property.
fn parse_line(line: &[char]) -> (r: Option<RdpLine>)
    ensures
        match parse_line_spec(line@) {
            Some(e) => r matches Some(l) && l@ == LineView::Entry(e),
            None => r is None,
        },
{
    proof {
        lemma_find_char_some(line@, ':');
    }
    let i1 = match index_of(line, ':') {
        Some(i) => i,
        None => {
            return None;
        },
    };
    assert(i1 < line.len());
    let key = trim_chars(sub_chars(line, 0, i1).as_slice());
    let rest = sub_chars(line, i1 + 1, line.len());
    assert(rest@ =~= line@.skip(i1 + 1));
    assert(line@.subrange(0, i1 as int) =~= line@.take(i1 as int));
    proof {
        lemma_find_char_some(rest@, ':');
    }
    let i2 = match index_of(rest.as_slice(), ':') {
        Some(i) => i,
        None => {
            return None;
        },
    };
    assert(i2 < rest.len());
    let kind = trim_chars(sub_chars(rest.as_slice(), 0, i2).as_slice());
    let raw_value = sub_chars(rest.as_slice(), i2 + 1, rest.len());
    assert(rest@.subrange(0, i2 as int) =~= rest@.take(i2 as int));
    assert(raw_value@ =~= rest@.skip(i2 + 1));
    if key.len() == 0 || kind.len() == 0 {
        return None;
    }
    let lk = lower_chars(kind.as_slice());
    let value = if lk.len() == 1 && lk[0] == 'i' {
        assert(lk@ =~= seq!['i']);
        let trimmed = trim_chars(raw_value.as_slice());
        match parse_i32_chars(trimmed.as_slice()) {
            Some(n) => RdpValue::Integer(n),
            None => {
                return None;
            },
        }
    } else if lk.len() == 1 && lk[0] == 's' {
        assert(lk@ =~= seq!['s']);
        assert(lk@ != seq!['i']);
        RdpValue::String(string_of(raw_value.as_slice()))
    } else if lk.len() == 1 && lk[0] == 'b' {
        assert(lk@ =~= seq!['b']);
        assert(lk@ != seq!['i'] && lk@ != seq!['s']);
        RdpValue::Binary(string_of(raw_value.as_slice()))
    } else {
        assert(lk@ != seq!['i'] && lk@ != seq!['s'] && lk@ != seq!['b']) by {
            if lk@.len() == 1 {
                assert(lk@[0] != 'i' && lk@[0] != 's' && lk@[0] != 'b');
            }
        }
        RdpValue::Unknown {
            kind: string_of(kind.as_slice()),
            value: string_of(raw_value.as_slice()),
        }
    };
    Some(
        RdpLine::Entry(
            RdpEntry {
                key: string_of(key.as_slice()),
                value,
                source: LineSource { raw: string_of(line), dirty: false },
            },
        ),
    )
}


pub proof fn lemma_last_match(lines: Seq<LineView>, nk: Seq<char>)
    ensures
        last_match(lines, nk) matches Some(j) ==> 0 <= j < lines.len() && line_matches(
            lines[j],
            nk,
        ) && (forall|k: int| j < k < lines.len() ==> !line_matches(#[trigger] lines[k], nk)),
        last_match(lines, nk) is None ==> forall|k: int|
            0 <= k < lines.len() ==> !line_matches(#[trigger] lines[k], nk),
    decreases lines.len(),
{
    if lines.len() > 0 && !line_matches(lines.last(), nk) {
        let t = lines.drop_last();
        lemma_last_match(t, nk);
        assert forall|k: int| 0 <= k < t.len() implies #[trigger] lines[k] == t[k] by {}
    }
}

// ---------------------------------------------------------------------------
// Splitting a text into lines
// ---------------------------------------------------------------------------

pub proof fn lemma_find_break_at(s: Seq<char>, i: int)
    requires
        0 <= i <= s.len(),
        forall|j: int| 0 <= j < i ==> !is_break(#[trigger] s[j]),
    ensures
        i < s.len() && is_break(s[i]) ==> find_break(s) == Some(i),
        i == s.len() ==> find_break(s) is None,
    decreases i,
{
    if i > 0 {
        let t = s.drop_first();
        assert forall|j: int| 0 <= j < i - 1 implies !is_break(#[trigger] t[j]) by {
            assert(t[j] == s[j + 1]);
        }
        assert(i - 1 < t.len() ==> t[i - 1] == s[i]);
        lemma_find_break_at(t, i - 1);
        assert(!is_break(s[0]));
    }
}

/// Splits a text at `\r\n`, `\n` and `\r`.
fn split_lines(s: &[char]) -> (r: Vec<Vec<char>>)
    ensures
        r@.len() == lines_of(s@).len(),
        forall|k: int| 0 <= k < r@.len() ==> #[trigger] r@[k]@ == lines_of(s@)[k],
{
    let n = s.len();
    let mut r: Vec<Vec<char>> = Vec::new();
    let ghost mut done: Seq<Seq<char>> = seq![];
    let mut start: usize = 0;
    let mut i: usize = 0;
    assert(s@.skip(0) =~= s@);
    while i < n
        invariant
            start <= i <= n == s@.len(),
            forall|j: int| start <= j < i ==> !is_break(#[trigger] s@[j]),
            lines_of(s@) == done + lines_of(s@.skip(start as int)),
            r@.len() == done.len(),
            forall|k: int| 0 <= k < r@.len() ==> #[trigger] r@[k]@ == done[k],
        decreases n - i,
    {
        if s[i] == '\r' || s[i] == '\n' {
            let width: usize = if s[i] == '\r' && i + 1 < n && s[i + 1] == '\n' {
                2
            } else {
                1
            };
            let piece = sub_chars(s, start, i);
            proof {
                let t = s@.skip(start as int);
                let k = i - start;
                assert forall|j: int| 0 <= j < k implies !is_break(#[trigger] t[j]) by {
                    assert(t[j] == s@[j + start]);
                }
                assert(t[k] == s@[i as int]);
                lemma_find_break_at(t, k);
                assert(k + 1 < t.len() ==> t[k + 1] == s@[i + 1]);
                assert(break_width(t, k) == width);
                assert(t.take(k) =~= piece@);
                assert(t.skip(k + width) =~= s@.skip(i + width));
                assert(lines_of(t) == seq![piece@] + lines_of(s@.skip(i + width)));
                assert(done + lines_of(t) =~= done.push(piece@) + lines_of(s@.skip(i + width)));
                done = done.push(piece@);
            }
            r.push(piece);
            start = i + width;
            i = start;
        } else {
            i = i + 1;
        }
    }
    let piece = sub_chars(s, start, n);
    proof {
        let t = s@.skip(start as int);
        assert forall|j: int| 0 <= j < n - start implies !is_break(#[trigger] t[j]) by {
            assert(t[j] == s@[j + start]);
        }
        lemma_find_break_at(t, n - start);
        assert(t =~= piece@);
        done = done.push(piece@);
    }
    r.push(piece);
    r
}

/// The line break to write: `\r\n` if present, else `\n`, else `\r`, else
/// `\r\n`.
fn detect_newline_chars(s: &[char]) -> (r: Vec<char>)
    ensures
        r@ == detect_newline(s@),
{
    let n = s.len();
    let mut crlf_seen = false;
    let mut lf_seen = false;
    let mut cr_seen = false;
    for i in 0..n
        invariant
            n == s@.len(),
            crlf_seen == exists|j: int| 0 <= j < i && j < n - 1 && #[trigger] s@[j] == '\r' && s@[j
                + 1] == '\n',
            lf_seen == exists|j: int| 0 <= j < i && #[trigger] s@[j] == '\n',
            cr_seen == exists|j: int| 0 <= j < i && #[trigger] s@[j] == '\r',
    {
        if s[i] == '\n' {
            lf_seen = true;
        }
        if s[i] == '\r' {
            cr_seen = true;
            if i + 1 < n && s[i + 1] == '\n' {
                crlf_seen = true;
            }
        }
    }
    let mut r: Vec<char> = Vec::new();
    if crlf_seen || (!lf_seen && !cr_seen) {
        r.push('\r');
        r.push('\n');
        assert(r@ =~= crlf());
    } else if lf_seen {
        r.push('\n');
        assert(r@ =~= seq!['\n']);
    } else {
        r.push('\r');
        assert(r@ =~= seq!['\r']);
    }
    r
}

pub proof fn lemma_lines_of_nonempty(s: Seq<char>)
    ensures
        lines_of(s).len() >= 1,
    decreases s.len(),
{
    match find_break(s) {
        Some(i) => if 0 <= i < s.len() {
            lemma_lines_of_nonempty(s.skip(i + break_width(s, i)));
        },
        None => {},
    }
}

// ---------------------------------------------------------------------------
// The document
// ---------------------------------------------------------------------------

/// A line-preserving `.rdp` model: untouched lines are emitted exactly after
/// decoding, while overridden properties are rewritten canonically.
#[derive(Clone, Debug, PartialEq, Eq)]
pub struct RdpDocument {
    lines: Vec<RdpLine>,
    encoding: RdpEncoding,
    newline: String,
    trailing_newline: bool,
}

impl View for RdpDocument {
    type V = DocView;

    closed spec fn view(&self) -> DocView {
        DocView {
            lines: lines_view(self.lines@),
            encoding: self.encoding,
            newline: self.newline@,
            trailing_newline: self.trailing_newline,
        }
    }
}

impl Default for RdpDocument {
    fn default() -> (r: Self)
        ensures
            r@.lines == Seq::<LineView>::empty(),
            r@.encoding == RdpEncoding::Utf8,
            r@.newline == crlf(),
            r@.trailing_newline,
    {
        let mut newline = String::new();
        crate::text::push_char(&mut newline, '\r');
        crate::text::push_char(&mut newline, '\n');
        let r = RdpDocument {
            lines: Vec::new(),
            encoding: RdpEncoding::Utf8,
            newline,
            trailing_newline: true,
        };
        assert(r@.lines =~= Seq::<LineView>::empty());
        assert(r@.newline =~= crlf());
        r
    }
}

impl RdpDocument {
    /// Reads a document from the bytes of an `.rdp` file.
    pub fn from_bytes(bytes: &[u8]) -> (r: Result<Self>)
        ensures
            match decode_text(bytes@) {
                Some((text, encoding)) => r matches Ok(d) && d@ == parse_doc(text, encoding),
                None => r matches Err(Error::InvalidRdpEncoding),
            },
    {
        match decode(bytes) {
            Some((text, encoding)) => Ok(Self::parse_with_encoding(text.as_slice(), encoding)),
            None => Err(Error::InvalidRdpEncoding),
        }
    }

    /// Reads a document from UTF-8 text.
    pub fn parse(text: &str) -> (r: Self)
        ensures
            r@ == parse_doc(text@, RdpEncoding::Utf8),
    {
        let chars = chars_of(text);
        Self::parse_with_encoding(chars.as_slice(), RdpEncoding::Utf8)
    }

    fn parse_with_encoding(text: &[char], encoding: RdpEncoding) -> (r: Self)
        ensures
            r@ == parse_doc(text@, encoding),
    {
        let newline_chars = detect_newline_chars(text);
        let n = text.len();
        let trailing_newline = n > 0 && (text[n - 1] == '\n' || text[n - 1] == '\r');
        let mut parts = split_lines(text);
        proof {
            lemma_lines_of_nonempty(text@);
        }
        let ghost all = lines_of(text@);
        let m = parts.len();
        if trailing_newline && m > 0 && parts[m - 1].len() == 0 {
            parts.pop();
        }
        let ghost kept = kept_lines(text@);
        assert(parts@.len() == kept.len());
        assert(forall|k: int| 0 <= k < parts@.len() ==> #[trigger] parts@[k]@ == kept[k]);
        let mut lines: Vec<RdpLine> = Vec::new();
        let count = parts.len();
        for k in 0..count
            invariant
                count == parts@.len() == kept.len(),
                forall|j: int| 0 <= j < parts@.len() ==> #[trigger] parts@[j]@ == kept[j],
                lines@.len() == k,
                forall|j: int| 0 <= j < k ==> #[trigger] lines@[j]@ == line_of(kept[j]),
        {
            let piece = parts[k].as_slice();
            let line = match parse_line(piece) {
                Some(l) => l,
                None => RdpLine::Raw(string_of(piece)),
            };
            lines.push(line);
        }
        let newline = string_of(newline_chars.as_slice());
        let r = RdpDocument { lines, encoding, newline, trailing_newline };
        assert(r@.lines =~= pieces_to_lines(kept));
        r
    }

    pub fn encoding(&self) -> (r: RdpEncoding)
        ensures
            r == self@.encoding,
    {
        self.encoding
    }

    pub fn lines(&self) -> (r: &[RdpLine])
        ensures
            lines_view(r@) == self@.lines,
    {
        self.lines.as_slice()
    }

    /// Index of the last entry named `wanted` (already normalised).
    fn last_match_index(&self, wanted: &[char]) -> (r: Option<usize>)
        ensures
            r matches Some(j) ==> last_match(self@.lines, wanted@) == Some(j as int),
            r is None ==> last_match(self@.lines, wanted@) is None,
            r matches Some(j) ==> j < self@.lines.len(),
    {
        let ghost all = self@.lines;
        let mut i = self.lines.len();
        assert(all.take(i as int) =~= all);
        while i > 0
            invariant
                i <= self.lines@.len(),
                all == self@.lines,
                last_match(all, wanted@) == last_match(all.take(i as int), wanted@),
            decreases i,
        {
            i = i - 1;
            let ghost prefix = all.take(i + 1);
            assert(prefix.drop_last() =~= all.take(i as int));
            assert(prefix.last() == self.lines@[i as int]@);
            if let RdpLine::Entry(e) = &self.lines[i] {
                if e.key_is(wanted) {
                    return Some(i);
                }
            }
        }
        None
    }

    /// The value of the last property named `key` (names compare trimmed and
    /// ignoring ASCII case).
    pub fn get(&self, key: &str) -> (r: Option<&RdpValue>)
        ensures
            match lookup(self@.lines, normalize_key(key@)) {
                Some(v) => r matches Some(x) && x@ == v,
                None => r is None,
            },
    {
        let wanted = normalize_key_chars(chars_of(key).as_slice());
        let ghost all = self@.lines;
        let mut i = self.lines.len();
        assert(all.take(i as int) =~= all);
        while i > 0
            invariant
                i <= self.lines@.len(),
                all == self@.lines,
                lookup(all, wanted@) == lookup(all.take(i as int), wanted@),
                wanted@ == normalize_key(key@),
            decreases i,
        {
            i = i - 1;
            let ghost prefix = all.take(i + 1);
            assert(prefix.drop_last() =~= all.take(i as int));
            assert(prefix.last() == self.lines@[i as int]@);
            if let RdpLine::Entry(e) = &self.lines[i] {
                if e.key_is(wanted.as_slice()) {
                    assert(prefix.last() == LineView::Entry(e@));
                    assert(line_matches(prefix.last(), wanted@));
                    assert(lookup(prefix, wanted@) == Some(e@.value));
                    assert(e@.value == e.value@);
                        return Some(&e.value);
                }
            }
        }
        None
    }

    pub fn get_string(&self, key: &str) -> (r: Option<&str>)
        ensures
            match lookup(self@.lines, normalize_key(key@)) {
                Some(RdpValueView::String(s)) => r matches Some(x) && x@ == s,
                _ => r is None,
            },
    {
        match self.get(key) {
            Some(RdpValue::String(value)) => Some(value.as_str()),
            _ => None,
        }
    }

    pub fn get_integer(&self, key: &str) -> (r: Option<i32>)
        ensures
            r == match lookup(self@.lines, normalize_key(key@)) {
                Some(RdpValueView::Integer(n)) => Some(n),
                _ => None,
            },
    {
        match self.get(key) {
            Some(RdpValue::Integer(value)) => Some(*value),
            _ => None,
        }
    }

    pub fn contains(&self, key: &str) -> (r: bool)
        ensures
            r == lookup(self@.lines, normalize_key(key@)) is Some,
    {
        self.get(key).is_some()
    }

    /// Removes all occurrences of a property. This is useful when a later
    /// credential representation must not coexist with an older one.
    pub fn remove_all(&mut self, key: &str)
        ensures
            final(self)@ == (DocView {
                lines: remove_key(old(self)@.lines, normalize_key(key@)),
                ..old(self)@
            }),
    {
        let wanted = normalize_key_chars(chars_of(key).as_slice());
        let ghost all = old(self)@.lines;
        let mut rest: Vec<RdpLine> = Vec::new();
        core::mem::swap(&mut rest, &mut self.lines);
        let ghost orig = rest@;
        assert(all =~= lines_view(orig));
        let n = rest.len();
        let mut k: usize = 0;
        assert(orig.skip(0) =~= orig);
        assert(remove_key(all.take(0), wanted@) =~= Seq::<LineView>::empty());
        assert(lines_view(self.lines@) =~= Seq::<LineView>::empty());
        while k < n
            invariant
                k <= n == orig.len(),
                rest@ == orig.skip(k as int),
                all == lines_view(orig),
                lines_view(self.lines@) == remove_key(all.take(k as int), wanted@),
                wanted@ == normalize_key(key@),
                self.encoding == old(self).encoding,
                self.newline == old(self).newline,
                self.trailing_newline == old(self).trailing_newline,
            decreases n - k,
        {
            let line = rest.remove(0);
            assert(line == orig[k as int]);
            let ghost before = self.lines@;
            let ghost prefix = all.take(k + 1);
            assert(prefix.drop_last() =~= all.take(k as int));
            assert(prefix.last() == line@);
            let keep = match &line {
                RdpLine::Entry(e) => !e.key_is(wanted.as_slice()),
                RdpLine::Raw(_) => true,
            };
            if keep {
                self.lines.push(line);
                assert(lines_view(self.lines@) =~= lines_view(before).push(prefix.last()));
            }
            assert(rest@ =~= orig.skip(k + 1));
            k = k + 1;
        }
        assert(all.take(n as int) =~= all);
    }

    pub fn set_integer(&mut self, key: &str, value: i32)
        ensures
            final(self)@ == (DocView {
                lines: set_lines(old(self)@.lines, key@, RdpValueView::Integer(value)),
                ..old(self)@
            }),
    {
        self.set_value(key.to_owned(), RdpValue::Integer(value));
    }

    pub fn set_string(&mut self, key: &str, value: &str)
        ensures
            final(self)@ == (DocView {
                lines: set_lines(old(self)@.lines, key@, RdpValueView::String(value@)),
                ..old(self)@
            }),
    {
        self.set_value(key.to_owned(), RdpValue::String(value.to_owned()));
    }

    pub fn set_binary(&mut self, key: &str, value: &str)
        ensures
            final(self)@ == (DocView {
                lines: set_lines(old(self)@.lines, key@, RdpValueView::Binary(value@)),
                ..old(self)@
            }),
    {
        self.set_value(key.to_owned(), RdpValue::Binary(value.to_owned()));
    }

    /// Applies a `name:type:value` assignment; fails when the text is not a
    /// property line.
    pub fn set_assignment(&mut self, assignment: &str) -> (r: Result<()>)
        ensures
            match parse_line_spec(assignment@) {
                Some(e) => r is Ok && final(self)@ == (DocView {
                    lines: set_lines(old(self)@.lines, e.key, e.value),
                    ..old(self)@
                }),
                None => final(self)@ == old(self)@ && (r matches Err(
                    Error::InvalidRdpAssignment(text),
                ) && text@ == assignment@),
            },
    {
        let chars = chars_of(assignment);
        match parse_line(chars.as_slice()) {
            Some(RdpLine::Entry(entry)) => {
                self.set_value(entry.key, entry.value);
                Ok(())
            },
            _ => Err(Error::InvalidRdpAssignment(assignment.to_owned())),
        }
    }

    fn set_value(&mut self, key: String, value: RdpValue)
        ensures
            final(self)@ == (DocView {
                lines: set_lines(old(self)@.lines, key@, value@),
                ..old(self)@
            }),
    {
        let key_chars = chars_of(key.as_str());
        let wanted = normalize_key_chars(key_chars.as_slice());
        assert(key_chars@ == key@);
        assert(wanted@ == normalize_key(key@));
        proof {
            lemma_last_match(self@.lines, wanted@);
        }
        match self.last_match_index(wanted.as_slice()) {
            Some(j) => {
                assert(self.lines@[j as int]@ == self@.lines[j as int]);
                if let RdpLine::Entry(e) = &self.lines[j] {
                    let updated = RdpEntry {
                        key: e.key.clone(),
                        value,
                        source: LineSource { raw: e.source.raw.clone(), dirty: true },
                    };
                    let ghost old_lines = self.lines@;
                    assert(updated@ == EntryView { key: e@.key, value: value@, raw: e@.raw, dirty: true });
                    self.lines.set(j, RdpLine::Entry(updated));
                    assert(lines_view(self.lines@) =~= lines_view(old_lines).update(j as int, RdpLine::Entry(updated)@));
                    assert(lines_view(old_lines)[j as int] == LineView::Entry(e@));
                    assert(self@.lines == set_lines(lines_view(old_lines), key@, value@));
                }
            },
            None => {
                let ghost old_lines = self.lines@;
                let entry = RdpEntry {
                    key,
                    value,
                    source: LineSource { raw: String::new(), dirty: true },
                };
                self.lines.push(RdpLine::Entry(entry));
                assert(lines_view(self.lines@) =~= lines_view(old_lines).push(RdpLine::Entry(entry)@));
                assert(self@.lines == set_lines(lines_view(old_lines), key@, value@));
            },
        }
    }

    /// The text of the document, in the line break it was read with.
    pub fn render(&self) -> (r: String)
        ensures
            r@ == render_doc(self@),
    {
        let ghost rendered = rendered_lines(self@.lines);
        let newline = chars_of(self.newline.as_str());
        let mut text: Vec<char> = Vec::new();
        let n = self.lines.len();
        for i in 0..n
            invariant
                n == self.lines@.len(),
                rendered == rendered_lines(self@.lines),
                newline@ == self@.newline,
                text@ == join(rendered.take(i as int), newline@),
        {
            let piece = self.lines[i].render_chars();
            proof {
                assert(rendered.take(i + 1).drop_last() =~= rendered.take(i as int));
                assert(rendered.take(i + 1).last() == piece@);
                if i == 0 {
                    assert(rendered.take(0) =~= Seq::<Seq<char>>::empty());
                }
            }
            if i > 0 {
                extend_chars(&mut text, newline.as_slice());
            }
            extend_chars(&mut text, piece.as_slice());
            proof {
                if i == 0 {
                    assert(text@ =~= piece@);
                    assert(rendered.take(1)[0] == piece@);
                }
            }
        }
        assert(rendered.take(n as int) =~= rendered);
        if self.trailing_newline && (n > 0 || text.len() > 0) {
            extend_chars(&mut text, newline.as_slice());
        }
        string_of(text.as_slice())
    }

    /// The document's bytes in the encoding it was read with.
    pub fn to_bytes(&self) -> (r: Vec<u8>)
        ensures
            r@ == encode_text(render_doc(self@), self@.encoding),
    {
        let text = self.render();
        encode(text.as_str(), self.encoding)
    }
}

// ---------------------------------------------------------------------------
// Laws of the document
// ---------------------------------------------------------------------------

/// `lookup` reads the entry found by `last_match`.
pub proof fn lemma_lookup_last_match(lines: Seq<LineView>, nk: Seq<char>)
    ensures
        lookup(lines, nk) == match last_match(lines, nk) {
            Some(j) => match lines[j] {
                LineView::Entry(e) => Some(e.value),
                LineView::Raw(_) => None,
            },
            None => None,
        },
    decreases lines.len(),
{
    if lines.len() > 0 && !line_matches(lines.last(), nk) {
        lemma_lookup_last_match(lines.drop_last(), nk);
        lemma_last_match(lines.drop_last(), nk);
    }
}

/// Two line sequences that agree on which lines are named `nk`, and agree on
/// those lines, have the same value for `nk`.
proof fn lemma_lookup_agree(a: Seq<LineView>, b: Seq<LineView>, nk: Seq<char>)
    requires
        a.len() == b.len(),
        forall|i: int| 0 <= i < a.len() ==> line_matches(#[trigger] a[i], nk) == line_matches(
            b[i],
            nk,
        ),
        forall|i: int| 0 <= i < a.len() && line_matches(#[trigger] a[i], nk) ==> a[i] == b[i],
    ensures
        lookup(a, nk) == lookup(b, nk),
    decreases a.len(),
{
    if a.len() > 0 {
        let a2 = a.drop_last();
        let b2 = b.drop_last();
        assert(line_matches(a.last(), nk) == line_matches(b.last(), nk));
        if !line_matches(a.last(), nk) {
            assert forall|i: int| 0 <= i < a2.len() implies line_matches(
                #[trigger] a2[i],
                nk,
            ) == line_matches(b2[i], nk) by {
                assert(a2[i] == a[i] && b2[i] == b[i]);
            }
            assert forall|i: int| 0 <= i < a2.len() && line_matches(#[trigger] a2[i], nk)
                implies a2[i] == b2[i] by {
                assert(a2[i] == a[i] && b2[i] == b[i]);
            }
            lemma_lookup_agree(a2, b2, nk);
        }
    }
}

/// Reading a property right after setting it gives the value that was set.
pub proof fn lemma_get_after_set(lines: Seq<LineView>, key: Seq<char>, value: RdpValueView)
    ensures
        lookup(set_lines(lines, key, value), normalize_key(key)) == Some(value),
{
    let nk = normalize_key(key);
    let after = set_lines(lines, key, value);
    lemma_last_match(lines, nk);
    match last_match(lines, nk) {
        Some(j) => {
            lemma_last_match(after, nk);
            lemma_lookup_last_match(after, nk);
            assert(line_matches(after[j], nk));
            assert forall|k: int| j < k < after.len() implies !line_matches(
                #[trigger] after[k],
                nk,
            ) by {
                assert(after[k] == lines[k]);
            }
            match last_match(after, nk) {
                Some(j2) => {
                    assert(j2 == j);
                },
                None => {},
            }
        },
        None => {
            assert(after.drop_last() =~= lines);
            assert(trim(key) == trim(key));
        },
    }
}

/// Setting one property leaves every property with another name as it was.
pub proof fn lemma_set_keeps_other_properties(
    lines: Seq<LineView>,
    key: Seq<char>,
    value: RdpValueView,
    other: Seq<char>,
)
    requires
        other != normalize_key(key),
    ensures
        lookup(set_lines(lines, key, value), other) == lookup(lines, other),
{
    let nk = normalize_key(key);
    let after = set_lines(lines, key, value);
    lemma_last_match(lines, nk);
    match last_match(lines, nk) {
        Some(j) => {
            assert forall|i: int| 0 <= i < lines.len() implies line_matches(
                #[trigger] lines[i],
                other,
            ) == line_matches(after[i], other) by {
                if i == j {
                    assert(!line_matches(lines[i], other));
                }
            }
            assert forall|i: int| 0 <= i < lines.len() && line_matches(#[trigger] lines[i], other)
                implies lines[i] == after[i] by {}
            lemma_lookup_agree(lines, after, other);
        },
        None => {
            assert(after.drop_last() =~= lines);
        },
    }
}

/// Setting a property changes at most the last entry with its name (earlier
/// duplicates stay as they were) or appends one entry.
pub proof fn lemma_set_touches_only_last_duplicate(
    lines: Seq<LineView>,
    key: Seq<char>,
    value: RdpValueView,
)
    ensures
        ({
            let after = set_lines(lines, key, value);
            match last_match(lines, normalize_key(key)) {
                Some(j) => after.len() == lines.len() && forall|i: int|
                    0 <= i < lines.len() && i != j ==> #[trigger] after[i] == lines[i],
                None => after.len() == lines.len() + 1 && forall|i: int|
                    0 <= i < lines.len() ==> #[trigger] after[i] == lines[i],
            }
        }),
{
    lemma_last_match(lines, normalize_key(key));
}

/// After removing a property, it has no value, and every property with
/// another name keeps its value.
pub proof fn lemma_remove_all(lines: Seq<LineView>, nk: Seq<char>, other: Seq<char>)
    ensures
        lookup(remove_key(lines, nk), nk) is None,
        other != nk ==> lookup(remove_key(lines, nk), other) == lookup(lines, other),
    decreases lines.len(),
{
    if lines.len() > 0 {
        let rest = lines.drop_last();
        lemma_remove_all(rest, nk, other);
        if !line_matches(lines.last(), nk) {
            let r = remove_key(rest, nk).push(lines.last());
            assert(r.drop_last() =~= remove_key(rest, nk));
        }
    }
}

proof fn lemma_join_prepend(a: Seq<char>, rest: Seq<Seq<char>>, sep: Seq<char>)
    requires
        rest.len() >= 1,
    ensures
        join(seq![a] + rest, sep) == a + sep + join(rest, sep),
    decreases rest.len(),
{
    let all = seq![a] + rest;
    if rest.len() == 1 {
        assert(all.drop_last() =~= seq![a]);
        assert(rest[0] == all.last());
        assert(join(seq![a], sep) == a);
        assert(join(rest, sep) == rest[0]);
    } else {
        lemma_join_prepend(a, rest.drop_last(), sep);
        assert(all.drop_last() =~= seq![a] + rest.drop_last());
        assert(all.last() == rest.last());
        assert(join(all, sep) == join(all.drop_last(), sep) + sep + all.last());
        assert(join(rest, sep) == join(rest.drop_last(), sep) + sep + rest.last());
        assert(a + sep + join(rest.drop_last(), sep) + sep + rest.last() =~= a + sep + (join(
            rest.drop_last(),
            sep,
        ) + sep + rest.last()));
    }
}

/// A text whose line breaks are all `nl` is its lines joined with `nl`.
pub proof fn lemma_join_lines(s: Seq<char>, nl: Seq<char>)
    requires
        uniform_breaks(s, nl),
    ensures
        join(lines_of(s), nl) == s,
    decreases s.len(),
{
    match find_break(s) {
        Some(i) => if 0 <= i < s.len() {
            let w = break_width(s, i);
            let rest = s.skip(i + w);
            lemma_join_lines(rest, nl);
            lemma_lines_of_nonempty(rest);
            lemma_join_prepend(s.take(i), lines_of(rest), nl);
            assert(s.take(i) + s.subrange(i, i + w) + rest =~= s);
        },
        None => {},
    }
}

proof fn lemma_find_break_range(s: Seq<char>)
    ensures
        find_break(s) matches Some(i) ==> 0 <= i < s.len() && is_break(s[i]) && forall|j: int|
            0 <= j < i ==> !is_break(#[trigger] s[j]),
        find_break(s) is None ==> forall|j: int| 0 <= j < s.len() ==> !is_break(#[trigger] s[j]),
    decreases s.len(),
{
    if s.len() > 0 && !is_break(s[0]) {
        let t = s.drop_first();
        lemma_find_break_range(t);
        assert forall|j: int| 1 <= j < s.len() implies #[trigger] s[j] == t[j - 1] by {}
    }
}

/// After a final line break, the last piece is empty.
proof fn lemma_trailing_piece(s: Seq<char>)
    requires
        ends_with_break(s),
    ensures
        lines_of(s).len() >= 2,
        lines_of(s).last().len() == 0,
    decreases s.len(),
{
    lemma_find_break_range(s);
    assert(is_break(s[s.len() - 1]));
    let i = find_break(s).unwrap();
    let w = break_width(s, i);
    let rest = s.skip(i + w);
    assert(i + w <= s.len());
    assert(lines_of(s) == seq![s.take(i)] + lines_of(rest));
    if rest.len() > 0 {
        assert(rest[rest.len() - 1] == s[s.len() - 1]);
        lemma_trailing_piece(rest);
        assert((seq![s.take(i)] + lines_of(rest)).last() == lines_of(rest).last());
    } else {
        assert(rest.len() == 0);
        assert(find_break(rest) is None);
        assert(lines_of(rest) == seq![rest]);
        assert((seq![s.take(i)] + lines_of(rest)).last() == rest);
    }
}

/// The text uses one line-break style only: it has no `\r`, or no `\n`, or
/// every `\r` is directly followed by `\n` and every `\n` directly preceded
/// by `\r`.
pub open spec fn single_break_style(s: Seq<char>) -> bool {
    ||| !has_char(s, '\r')
    ||| !has_char(s, '\n')
    ||| {
        &&& forall|i: int| 0 <= i < s.len() && #[trigger] s[i] == '\r' ==> i + 1 < s.len() && s[i + 1] == '\n'
        &&& forall|i: int| 0 <= i < s.len() && #[trigger] s[i] == '\n' ==> i > 0 && s[i - 1] == '\r'
    }
}

/// A text without one of `\r` and `\n` breaks only at the other.
proof fn lemma_uniform_without(s: Seq<char>, absent: char, nl: char)
    requires
        (absent == '\r' && nl == '\n') || (absent == '\n' && nl == '\r'),
        forall|j: int| 0 <= j < s.len() ==> #[trigger] s[j] != absent,
    ensures
        uniform_breaks(s, seq![nl]),
    decreases s.len(),
{
    lemma_find_break_range(s);
    if let Some(i) = find_break(s) {
        assert(s[i] == nl);
        assert(break_width(s, i) == 1) by {
            if i + 1 < s.len() {
                assert(s[i + 1] != absent);
            }
        }
        assert(s.subrange(i, i + 1) =~= seq![nl]);
        let t = s.skip(i + 1);
        assert forall|j: int| 0 <= j < t.len() implies #[trigger] t[j] != absent by {
            assert(t[j] == s[j + i + 1]);
        }
        lemma_uniform_without(t, absent, nl);
    }
}

/// A text whose `\r` and `\n` always come as `\r\n` breaks only at `\r\n`.
proof fn lemma_uniform_paired(s: Seq<char>)
    requires
        forall|i: int| 0 <= i < s.len() && #[trigger] s[i] == '\r' ==> i + 1 < s.len() && s[i + 1] == '\n',
        forall|i: int| 0 <= i < s.len() && #[trigger] s[i] == '\n' ==> i > 0 && s[i - 1] == '\r',
    ensures
        uniform_breaks(s, crlf()),
        find_break(s) matches Some(i) ==> 0 <= i < s.len() - 1 && s[i] == '\r' && s[i + 1] == '\n',
    decreases s.len(),
{
    lemma_find_break_range(s);
    if let Some(i) = find_break(s) {
        if s[i] == '\n' {
            assert(is_break(s[i - 1]));
        }
        assert(s[i] == '\r' && s[i + 1] == '\n');
        assert(s.subrange(i, i + 2) =~= crlf());
        let t = s.skip(i + 2);
        assert forall|j: int| 0 <= j < t.len() && #[trigger] t[j] == '\r' implies j + 1 < t.len()
            && t[j + 1] == '\n' by {
            assert(t[j] == s[j + i + 2]);
            assert(s[j + i + 3] == t[j + 1]);
        }
        assert forall|j: int| 0 <= j < t.len() && #[trigger] t[j] == '\n' implies j > 0 && t[j
            - 1] == '\r' by {
            assert(t[j] == s[j + i + 2]);
            if j == 0 {
                assert(s[i + 1] == '\n');
            } else {
                assert(s[j + i + 1] == t[j - 1]);
            }
        }
        lemma_uniform_paired(t);
    }
}

/// A text with one line-break style only breaks everywhere with the break
/// that it is detected to be written with.
pub proof fn lemma_single_style_uniform(s: Seq<char>)
    requires
        single_break_style(s),
    ensures
        uniform_breaks(s, detect_newline(s)),
{
    lemma_find_break_range(s);
    if let Some(i) = find_break(s) {
        if !has_char(s, '\r') {
            assert forall|j: int| 0 <= j < s.len() implies #[trigger] s[j] != '\r' by {
                if s[j] == '\r' {
                    assert(has_char(s, '\r'));
                }
            }
            assert(!has_crlf(s)) by {
                if has_crlf(s) {
                    let k = choose|k: int| 0 <= k < s.len() - 1 && #[trigger] s[k] == '\r' && s[k + 1] == '\n';
                    assert(s[k] != '\r');
                }
            }
            assert(s[i] == '\n');
            assert(has_char(s, '\n'));
            lemma_uniform_without(s, '\r', '\n');
        } else if !has_char(s, '\n') {
            assert forall|j: int| 0 <= j < s.len() implies #[trigger] s[j] != '\n' by {
                if s[j] == '\n' {
                    assert(has_char(s, '\n'));
                }
            }
            assert(!has_crlf(s)) by {
                if has_crlf(s) {
                    let k = choose|k: int| 0 <= k < s.len() - 1 && #[trigger] s[k] == '\r' && s[k + 1] == '\n';
                    assert(s[k + 1] != '\n');
                }
            }
            assert(s[i] == '\r');
            assert(has_char(s, '\r'));
            lemma_uniform_without(s, '\n', '\r');
        } else {
            lemma_uniform_paired(s);
            assert(s[i] == '\r' && s[i + 1] == '\n');
            assert(has_crlf(s));
        }
    }
}

proof fn lemma_render_line_of(p: Seq<char>)
    ensures
        render_line(line_of(p)) == p,
{
}

/// Parsing a text and rendering the document gives the text back, when the
/// text uses one line-break style only.
pub proof fn lemma_render_parse_roundtrip(s: Seq<char>, encoding: RdpEncoding)
    requires
        single_break_style(s),
    ensures
        render_doc(parse_doc(s, encoding)) == s,
{
    lemma_single_style_uniform(s);
    let d = parse_doc(s, encoding);
    let nl = detect_newline(s);
    let parts = lines_of(s);
    let kept = kept_lines(s);
    lemma_lines_of_nonempty(s);
    assert(rendered_lines(d.lines) =~= kept) by {
        assert forall|k: int| 0 <= k < kept.len() implies #[trigger] rendered_lines(d.lines)[k]
            == kept[k] by {
            lemma_render_line_of(kept[k]);
        }
    }
    lemma_join_lines(s, nl);
    if ends_with_break(s) {
        lemma_trailing_piece(s);
        assert(kept == parts.drop_last());
    }
}

/// Writing out a document read from bytes gives back the same bytes, when
/// the file began with a byte-order mark or was read as UTF-8 and its text
/// uses one line-break style only.
pub proof fn lemma_bytes_roundtrip(bytes: Seq<u8>)
    requires
        decode_text(bytes) is Some,
        single_break_style(decode_text(bytes).unwrap().0),
        crate::encoding::has_bom(bytes) || decode_text(bytes).unwrap().1 == RdpEncoding::Utf8,
    ensures
        encode_text(
            render_doc(parse_doc(decode_text(bytes).unwrap().0, decode_text(bytes).unwrap().1)),
            decode_text(bytes).unwrap().1,
        ) == bytes,
{
    let (t, e) = decode_text(bytes).unwrap();
    lemma_render_parse_roundtrip(t, e);
    crate::encoding::lemma_decode_encode_text(bytes);
}
// ---------------------------------------------------------------------------
// Writing out and reading back
// ---------------------------------------------------------------------------

/// Text without line-break characters.
pub open spec fn no_breaks(s: Seq<char>) -> bool {
    forall|i: int| 0 <= i < s.len() ==> !is_break(#[trigger] s[i])
}

/// One of the line breaks a document can be written with.
pub open spec fn is_line_break(nl: Seq<char>) -> bool {
    nl == crlf() || nl == seq!['\n'] || nl == seq!['\r']
}

/// The first character of joined pieces.
proof fn lemma_join_first(parts: Seq<Seq<char>>, nl: Seq<char>)
    requires
        parts.len() >= 1,
        nl.len() >= 1,
        join(parts, nl).len() > 0,
    ensures
        join(parts, nl)[0] == if parts[0].len() > 0 {
            parts[0][0]
        } else {
            nl[0]
        },
{
    if parts.len() > 1 {
        let rest = parts.skip(1);
        assert(seq![parts[0]] + rest =~= parts);
        lemma_join_prepend(parts[0], rest, nl);
    }
}

/// Pieces without line breaks, joined with a line break, split back into
/// the same pieces.
proof fn lemma_lines_of_join(parts: Seq<Seq<char>>, nl: Seq<char>)
    requires
        parts.len() >= 1,
        is_line_break(nl),
        forall|k: int| 0 <= k < parts.len() ==> no_breaks(#[trigger] parts[k]),
    ensures
        lines_of(join(parts, nl)) == parts,
    decreases parts.len(),
{
    let a = parts[0];
    if parts.len() == 1 {
        assert(join(parts, nl) == a);
        lemma_find_break_at(a, a.len() as int);
        assert(parts =~= seq![a]);
    } else {
        let rest = parts.skip(1);
        assert(seq![a] + rest =~= parts);
        lemma_join_prepend(a, rest, nl);
        let t = join(rest, nl);
        let s = a + nl + t;
        assert(join(parts, nl) == s);
        assert forall|k: int| 0 <= k < rest.len() implies no_breaks(#[trigger] rest[k]) by {
            assert(rest[k] == parts[k + 1]);
        }
        lemma_lines_of_join(rest, nl);
        let i = a.len() as int;
        assert forall|j: int| 0 <= j < i implies !is_break(#[trigger] s[j]) by {
            assert(s[j] == a[j]);
        }
        assert(s[i] == nl[0]);
        lemma_find_break_at(s, i);
        if t.len() > 0 {
            lemma_join_first(rest, nl);
            if rest[0].len() > 0 {
                assert(!is_break(rest[0][0]));
            }
        }
        let w = break_width(s, i);
        assert(w == nl.len()) by {
            if nl == seq!['\r'] && i + 1 < s.len() {
                assert(s[i + 1] == t[0]);
            }
        }
        assert(s.skip(i + w) =~= t);
        assert(s.take(i) =~= a);
        assert(lines_of(s) == seq![a] + lines_of(t));
    }
}

/// A rewritten entry whose text reads back as the same property: a name
/// without colons that is not blank, and an unknown type tag that is a
/// single word without colons, blanks at its ends or a standard letter.
pub open spec fn entry_text_rereads(e: EntryView) -> bool {
    &&& find_char(e.key, ':') is None
    &&& trim(e.key).len() > 0
    &&& match e.value {
        RdpValueView::Unknown { kind, .. } => {
            &&& find_char(kind, ':') is None
            &&& kind.len() > 0
            &&& trim(kind) == kind
            &&& lower(kind) != seq!['i']
            &&& lower(kind) != seq!['s']
            &&& lower(kind) != seq!['b']
        },
        _ => true,
    }
}

/// A line that reads back as itself: raw text is not a property line, an
/// unchanged entry is what its text says, and a rewritten entry's text
/// reads back as its property.
pub open spec fn line_rereads(l: LineView) -> bool {
    match l {
        LineView::Raw(r) => parse_line_spec(r) is None,
        LineView::Entry(e) => if e.dirty {
            entry_text_rereads(e)
        } else {
            parse_line_spec(e.raw) == Some(e)
        },
    }
}

/// The line read back from a line's text is the same property, or again
/// not a property.
proof fn lemma_line_reread(l: LineView)
    requires
        line_rereads(l),
    ensures
        match (l, line_of(render_line(l))) {
            (LineView::Raw(_), LineView::Raw(_)) => true,
            (LineView::Entry(e), LineView::Entry(f)) => normalize_key(f.key) == normalize_key(e.key)
                && f.value == e.value,
            _ => false,
        },
{
    match l {
        LineView::Raw(r) => {},
        LineView::Entry(e) => {
            if e.dirty {
                let v = e.value;
                let kind = value_kind(v);
                let text = value_text(v);
                let line = e.key + seq![':'] + kind + seq![':'] + text;
                assert(render_line(l) == line);
                let i1 = e.key.len() as int;
                lemma_find_char_range(e.key, ':');
                assert forall|j: int| 0 <= j < i1 implies #[trigger] line[j] != ':' by {
                    assert(line[j] == e.key[j]);
                }
                lemma_find_char_at(line, ':', i1);
                assert(line.take(i1) =~= e.key);
                let rest = line.skip(i1 + 1);
                assert(rest =~= kind + seq![':'] + text);
                let i2 = kind.len() as int;
                match v {
                    RdpValueView::Unknown { kind: k, .. } => {
                        lemma_find_char_range(k, ':');
                    },
                    _ => {},
                }
                assert forall|j: int| 0 <= j < i2 implies #[trigger] rest[j] != ':' by {
                    assert(rest[j] == kind[j]);
                }
                lemma_find_char_at(rest, ':', i2);
                assert(rest.take(i2) =~= kind);
                assert(rest.skip(i2 + 1) =~= text);
                lemma_trim_trim(e.key);
                match v {
                    RdpValueView::Integer(n) => {
                        assert(trim(seq!['i']) =~= seq!['i']) by {
                            assert(lead_ws(seq!['i']) == 0);
                            assert(trail_ws(seq!['i']) == 0);
                        }
                        assert(lower(seq!['i']) =~= seq!['i']);
                        lemma_decimal_int_parses(n as int);
                        lemma_decimal_trimmed(n as int);
                    },
                    RdpValueView::String(_) => {
                        assert(trim(seq!['s']) =~= seq!['s']) by {
                            assert(lead_ws(seq!['s']) == 0);
                            assert(trail_ws(seq!['s']) == 0);
                        }
                        assert(lower(seq!['s']) =~= seq!['s']);
                        assert(seq!['s'] != seq!['i']) by {
                            assert(seq!['s'][0] != seq!['i'][0]);
                        }
                    },
                    RdpValueView::Binary(_) => {
                        assert(trim(seq!['b']) =~= seq!['b']) by {
                            assert(lead_ws(seq!['b']) == 0);
                            assert(trail_ws(seq!['b']) == 0);
                        }
                        assert(lower(seq!['b']) =~= seq!['b']);
                        assert(seq!['b'] != seq!['i'] && seq!['b'] != seq!['s']) by {
                            assert(seq!['b'][0] != seq!['i'][0]);
                            assert(seq!['b'][0] != seq!['s'][0]);
                        }
                    },
                    RdpValueView::Unknown { .. } => {},
                }
            }
        },
    }
}

/// The decimal text of a number has no blanks to trim.
proof fn lemma_decimal_trimmed(v: int)
    ensures
        trim(decimal_int(v)) == decimal_int(v),
{
    let d = decimal_int(v);
    if v < 0 {
        lemma_decimal_digits((-v) as nat);
        assert(d.last() == decimal((-v) as nat).last());
    } else {
        lemma_decimal_digits(v as nat);
    }
    assert(d.len() > 0);
    assert(!is_ws(d[0]));
    assert(!is_ws(d.last())) by {
        if v < 0 {
            assert(is_digit(decimal((-v) as nat)[decimal((-v) as nat).len() - 1]));
        } else {
            assert(is_digit(d[d.len() - 1]));
        }
    }
    assert(lead_ws(d) == 0);
    assert(trim_start(d) =~= d);
    assert(trail_ws(d) == 0);
    assert(trim_end(d) =~= d);
}

/// Lines that hold the same properties in the same places give every name
/// the same value.
proof fn lemma_lookup_same_properties(a: Seq<LineView>, b: Seq<LineView>, nk: Seq<char>)
    requires
        a.len() == b.len(),
        forall|i: int| 0 <= i < a.len() ==> line_matches(#[trigger] a[i], nk) == line_matches(
            b[i],
            nk,
        ),
        forall|i: int|
            0 <= i < a.len() && line_matches(#[trigger] a[i], nk) ==> (a[i] matches LineView::Entry(
                x,
            ) && b[i] matches LineView::Entry(y) && x.value == y.value),
    ensures
        lookup(a, nk) == lookup(b, nk),
    decreases a.len(),
{
    if a.len() > 0 {
        let a2 = a.drop_last();
        let b2 = b.drop_last();
        assert(line_matches(a.last(), nk) == line_matches(b.last(), nk));
        if !line_matches(a.last(), nk) {
            assert forall|i: int| 0 <= i < a2.len() implies line_matches(
                #[trigger] a2[i],
                nk,
            ) == line_matches(b2[i], nk) by {
                assert(a2[i] == a[i] && b2[i] == b[i]);
            }
            assert forall|i: int| 0 <= i < a2.len() && line_matches(#[trigger] a2[i], nk)
                implies (a2[i] matches LineView::Entry(x) && b2[i] matches LineView::Entry(y)
                && x.value == y.value) by {
                assert(a2[i] == a[i] && b2[i] == b[i]);
            }
            lemma_lookup_same_properties(a2, b2, nk);
        } else {
            assert(a.last() == a[a.len() - 1]);
        }
    }
}

/// Writing a document out and reading the text back keeps every property:
/// each name has the value it had, when no line holds a line break and
/// every line reads back as itself.
pub proof fn lemma_write_read_back(d: DocView, encoding: RdpEncoding, nk: Seq<char>)
    requires
        is_line_break(d.newline),
        forall|i: int|
            0 <= i < d.lines.len() ==> line_rereads(#[trigger] d.lines[i]) && no_breaks(
                render_line(d.lines[i]),
            ),
    ensures
        lookup(parse_doc(render_doc(d), encoding).lines, nk) == lookup(d.lines, nk),
{
    let nl = d.newline;
    let ps = rendered_lines(d.lines);
    let text = join(ps, nl);
    let s = render_doc(d);
    let back = parse_doc(s, encoding).lines;
    if ps.len() == 0 {
        assert(d.lines.len() == 0);
        assert(s =~= Seq::<char>::empty());
        lemma_find_break_at(s, 0);
        assert(lines_of(s) =~= seq![s]);
        assert(back =~= seq![line_of(s)]);
        assert(lookup(back.drop_last(), nk) is None);
    } else {
        assert forall|k: int| 0 <= k < ps.len() implies no_breaks(#[trigger] ps[k]) by {}
        let kept = kept_lines(s);
        if d.trailing_newline {
            let more = ps.push(Seq::<char>::empty());
            assert(more.drop_last() =~= ps);
            assert(join(more, nl) == text + nl + Seq::<char>::empty());
            assert(text + nl + Seq::<char>::empty() =~= s);
            assert forall|k: int| 0 <= k < more.len() implies no_breaks(#[trigger] more[k]) by {
                if k < ps.len() {
                    assert(more[k] == ps[k]);
                }
            }
            lemma_lines_of_join(more, nl);
            assert(is_break(s.last()));
            assert(kept =~= ps);
        } else {
            lemma_lines_of_join(ps, nl);
            assert(s == text);
        }
        // Every kept piece is the text of the line at its place.
        let lines = d.lines;
        if kept.len() == ps.len() {
            assert(kept =~= ps);
            assert forall|i: int| 0 <= i < lines.len() implies line_matches(
                #[trigger] back[i],
                nk,
            ) == line_matches(lines[i], nk) && (line_matches(back[i], nk) ==> (
            back[i] matches LineView::Entry(x) && lines[i] matches LineView::Entry(y) && x.value
                == y.value)) by {
                lemma_line_reread(lines[i]);
                assert(back[i] == line_of(render_line(lines[i])));
            }
            lemma_lookup_same_properties(back, lines, nk);
        } else {
            // A final empty line was dropped; it was raw text.
            assert(kept =~= ps.drop_last());
            let last = lines.last();
            assert(render_line(last) == ps.last());
            assert(ps.last().len() == 0);
            lemma_line_reread(last);
            assert(last is Raw) by {
                match last {
                    LineView::Entry(e) => {
                        if !e.dirty {
                            assert(parse_line_spec(e.raw) is Some);
                            lemma_find_char_range(e.raw, ':');
                        }
                    },
                    LineView::Raw(_) => {},
                }
            }
            let lines2 = lines.drop_last();
            assert(lookup(lines, nk) == lookup(lines2, nk));
            assert forall|i: int| 0 <= i < lines2.len() implies line_matches(
                #[trigger] back[i],
                nk,
            ) == line_matches(lines2[i], nk) && (line_matches(back[i], nk) ==> (
            back[i] matches LineView::Entry(x) && lines2[i] matches LineView::Entry(y) && x.value
                == y.value)) by {
                assert(lines2[i] == lines[i]);
                lemma_line_reread(lines[i]);
                assert(back[i] == line_of(render_line(lines[i])));
            }
            lemma_lookup_same_properties(back, lines2, nk);
        }
    }
}

/// The lines of a text hold no line breaks.
proof fn lemma_lines_of_no_breaks(s: Seq<char>)
    ensures
        forall|k: int| 0 <= k < lines_of(s).len() ==> no_breaks(#[trigger] lines_of(s)[k]),
    decreases s.len(),
{
    lemma_find_break_range(s);
    match find_break(s) {
        Some(i) => if 0 <= i < s.len() {
            let rest = s.skip(i + break_width(s, i));
            lemma_lines_of_no_breaks(rest);
            let parts = lines_of(s);
            assert(parts == seq![s.take(i)] + lines_of(rest));
            assert forall|k: int| 0 <= k < parts.len() implies no_breaks(#[trigger] parts[k]) by {
                if k == 0 {
                    assert(parts[0] == s.take(i));
                    assert forall|j: int| 0 <= j < i implies !is_break(#[trigger] s.take(i)[j]) by {
                        assert(s.take(i)[j] == s[j]);
                    }
                } else {
                    assert(parts[k] == lines_of(rest)[k - 1]);
                }
            }
        },
        None => {},
    }
}

/// A document read from text: its line break is one of the three, and
/// every line reads back as itself without line breaks.
pub proof fn lemma_parsed_lines_reread(s: Seq<char>, encoding: RdpEncoding)
    ensures
        is_line_break(parse_doc(s, encoding).newline),
        forall|i: int|
            0 <= i < parse_doc(s, encoding).lines.len() ==> line_rereads(
                #[trigger] parse_doc(s, encoding).lines[i],
            ) && no_breaks(render_line(parse_doc(s, encoding).lines[i])),
{
    let kept = kept_lines(s);
    lemma_lines_of_no_breaks(s);
    assert forall|k: int| 0 <= k < kept.len() implies no_breaks(#[trigger] kept[k]) by {
        assert(kept[k] == lines_of(s)[k]);
    }
    let lines = parse_doc(s, encoding).lines;
    assert forall|i: int| 0 <= i < lines.len() implies line_rereads(#[trigger] lines[i])
        && no_breaks(render_line(lines[i])) by {
        assert(lines[i] == line_of(kept[i]));
        lemma_render_line_of(kept[i]);
    }
}

/// The trimmed text is a piece of the text.
proof fn lemma_trim_within(x: Seq<char>)
    ensures
        lead_ws(x) + trim(x).len() <= x.len(),
        forall|j: int| 0 <= j < trim(x).len() ==> #[trigger] trim(x)[j] == x[j + lead_ws(x)],
{
    lemma_lead_ws_bound(x);
    lemma_trail_ws_bound(trim_start(x));
}

/// The name of an entry that reads back has no colon, is not blank and
/// holds no line break.
proof fn lemma_entry_key(e: EntryView)
    requires
        line_rereads(LineView::Entry(e)),
        no_breaks(render_entry(e)),
    ensures
        find_char(e.key, ':') is None,
        trim(e.key).len() > 0,
        no_breaks(e.key),
{
    if e.dirty {
        let line = render_entry(e);
        assert forall|j: int| 0 <= j < e.key.len() implies !is_break(#[trigger] e.key[j]) by {
            assert(line[j] == e.key[j]);
        }
    } else {
        let raw = e.raw;
        lemma_find_char_range(raw, ':');
        let i1 = find_char(raw, ':')->0;
        assert(0 <= i1 < raw.len());
        let x = raw.take(i1);
        lemma_trim_within(x);
        lemma_lead_ws_bound(x);
        assert(e.key == trim(x));
        assert forall|j: int| 0 <= j < e.key.len() implies #[trigger] e.key[j] != ':' && !is_break(
            e.key[j],
        ) by {
            assert(e.key[j] == x[j + lead_ws(x)]);
            assert(x[j + lead_ws(x)] == raw[j + lead_ws(x)]);
        }
        lemma_find_char_at(e.key, ':', e.key.len() as int);
        lemma_trim_trim(x);
    }
}

/// A name that a rewritten entry can be written with.
pub open spec fn key_rereads(key: Seq<char>) -> bool {
    find_char(key, ':') is None && trim(key).len() > 0 && no_breaks(key)
}

/// A value that a rewritten entry can be written with: no line breaks, and
/// an unknown type tag that reads back as the same tag.
pub open spec fn value_rereads(value: RdpValueView) -> bool {
    &&& no_breaks(value_kind(value))
    &&& no_breaks(value_text(value))
    &&& match value {
        RdpValueView::Unknown { kind, .. } => {
            &&& find_char(kind, ':') is None
            &&& kind.len() > 0
            &&& trim(kind) == kind
            &&& lower(kind) != seq!['i']
            &&& lower(kind) != seq!['s']
            &&& lower(kind) != seq!['b']
        },
        _ => true,
    }
}

/// The text of a rewritten entry holds no line break.
proof fn lemma_rewritten_no_breaks(e: EntryView)
    requires
        e.dirty,
        no_breaks(e.key),
        value_rereads(e.value),
    ensures
        no_breaks(render_entry(e)),
{
    let k = e.key;
    let kind = value_kind(e.value);
    let text = value_text(e.value);
    let line = k + seq![':'] + kind + seq![':'] + text;
    assert forall|j: int| 0 <= j < line.len() implies !is_break(#[trigger] line[j]) by {
        if j < k.len() {
            assert(line[j] == k[j]);
        } else if j == k.len() {
        } else if j < k.len() + 1 + kind.len() {
            assert(line[j] == kind[j - k.len() - 1]);
        } else if j == k.len() + 1 + kind.len() {
        } else {
            assert(line[j] == text[j - k.len() - 2 - kind.len()]);
        }
    }
}

/// Setting a property with a name and value that can be written keeps every
/// line reading back as itself without line breaks.
pub proof fn lemma_set_keeps_rereading(lines: Seq<LineView>, key: Seq<char>, value: RdpValueView)
    requires
        key_rereads(key),
        value_rereads(value),
        forall|i: int|
            0 <= i < lines.len() ==> line_rereads(#[trigger] lines[i]) && no_breaks(
                render_line(lines[i]),
            ),
    ensures
        forall|i: int|
            0 <= i < set_lines(lines, key, value).len() ==> line_rereads(
                #[trigger] set_lines(lines, key, value)[i],
            ) && no_breaks(render_line(set_lines(lines, key, value)[i])),
{
    let after = set_lines(lines, key, value);
    lemma_last_match(lines, normalize_key(key));
    match last_match(lines, normalize_key(key)) {
        Some(j) => {
            match lines[j] {
                LineView::Entry(e) => {
                    lemma_entry_key(e);
                    let f = EntryView { key: e.key, value: value, raw: e.raw, dirty: true };
                    lemma_rewritten_no_breaks(f);
                    assert(after[j] == LineView::Entry(f));
                    assert forall|i: int| 0 <= i < after.len() implies line_rereads(
                        #[trigger] after[i],
                    ) && no_breaks(render_line(after[i])) by {
                        if i != j {
                            assert(after[i] == lines[i]);
                        }
                    }
                },
                LineView::Raw(_) => {},
            }
        },
        None => {
            let f = EntryView { key: key, value: value, raw: seq![], dirty: true };
            lemma_rewritten_no_breaks(f);
            assert forall|i: int| 0 <= i < after.len() implies line_rereads(#[trigger] after[i])
                && no_breaks(render_line(after[i])) by {
                if i < lines.len() {
                    assert(after[i] == lines[i]);
                } else {
                    assert(after[i] == LineView::Entry(f));
                }
            }
        },
    }
}

/// What a read gives back of a write, through the file: in a document read
/// from text, a property set with a name and value that can be written
/// reads back with that value after writing the document out and reading
/// it again.
pub proof fn lemma_set_survives_write_read(
    s: Seq<char>,
    encoding: RdpEncoding,
    key: Seq<char>,
    value: RdpValueView,
)
    requires
        key_rereads(key),
        value_rereads(value),
    ensures
        ({
            let d = parse_doc(s, encoding);
            let written = DocView { lines: set_lines(d.lines, key, value), ..d };
            lookup(parse_doc(render_doc(written), encoding).lines, normalize_key(key)) == Some(
                value,
            )
        }),
{
    let d = parse_doc(s, encoding);
    let written = DocView { lines: set_lines(d.lines, key, value), ..d };
    lemma_parsed_lines_reread(s, encoding);
    lemma_set_keeps_rereading(d.lines, key, value);
    lemma_write_read_back(written, encoding, normalize_key(key));
    lemma_get_after_set(d.lines, key, value);
}

/// Saving a document to bytes and loading them again keeps every property
/// and the encoding, when no line holds a line break, every line reads back
/// as itself, and UTF-8 text without a byte-order mark reads back as UTF-8.
pub proof fn lemma_save_load(d: DocView, nk: Seq<char>)
    requires
        is_line_break(d.newline),
        forall|i: int|
            0 <= i < d.lines.len() ==> line_rereads(#[trigger] d.lines[i]) && no_breaks(
                render_line(d.lines[i]),
            ),
        d.encoding == RdpEncoding::Utf8 ==> plain_utf8_text(render_doc(d)),
    ensures
        decode_text(encode_text(render_doc(d), d.encoding)) matches Some((text, encoding)) && encoding
            == d.encoding && lookup(parse_doc(text, encoding).lines, nk) == lookup(d.lines, nk),
{
    lemma_encode_decode_text(render_doc(d), d.encoding);
    lemma_write_read_back(d, d.encoding, nk);
}

} // verus!
