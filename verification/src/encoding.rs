//! Byte encodings of `.rdp` text: UTF-8 with or without a byte-order mark,
//! and UTF-16 in either byte order, with detection of BOM-less UTF-16.
use vstd::prelude::*;
use vstd::utf8::*;

use crate::rdp::RdpEncoding;
use crate::text::chars_of;

verus! {

broadcast use {vstd::utf8::encode_utf8_valid_utf8, vstd::utf8::encode_utf8_decode_utf8};

// ---------------------------------------------------------------------------
// UTF-16 code units
// ---------------------------------------------------------------------------

pub open spec fn is_surrogate(u: u16) -> bool {
    0xD800 <= u && u <= 0xDFFF
}

pub open spec fn is_high_surrogate(u: u16) -> bool {
    0xD800 <= u && u <= 0xDBFF
}

pub open spec fn is_low_surrogate(u: u16) -> bool {
    0xDC00 <= u && u <= 0xDFFF
}

/// The scalar value a surrogate pair stands for.
pub open spec fn pair_value(high: u16, low: u16) -> u32 {
    (0x10000 + (high - 0xD800) * 0x400 + (low - 0xDC00)) as u32
}

/// The UTF-16 code units of one character.
pub open spec fn utf16_units(c: char) -> Seq<u16> {
    let v = c as u32;
    if v < 0x10000 {
        seq![v as u16]
    } else {
        seq![(0xD800 + (v - 0x10000) / 0x400) as u16, (0xDC00 + (v - 0x10000) % 0x400) as u16]
    }
}

/// `str::encode_utf16`.
pub open spec fn encode_utf16(s: Seq<char>) -> Seq<u16>
    decreases s.len(),
{
    if s.len() == 0 {
        seq![]
    } else {
        utf16_units(s[0]) + encode_utf16(s.drop_first())
    }
}

/// `char::decode_utf16` collected into a string: `None` on an unpaired
/// surrogate.
pub open spec fn decode_utf16(u: Seq<u16>) -> Option<Seq<char>>
    decreases u.len(),
{
    if u.len() == 0 {
        Some(seq![])
    } else if !is_surrogate(u[0]) {
        match decode_utf16(u.drop_first()) {
            Some(r) => Some(seq![(u[0] as u32) as char] + r),
            None => None,
        }
    } else if is_high_surrogate(u[0]) && u.len() >= 2 && is_low_surrogate(u[1]) {
        match decode_utf16(u.skip(2)) {
            Some(r) => Some(seq![pair_value(u[0], u[1]) as char] + r),
            None => None,
        }
    } else {
        None
    }
}

/// The code unit stored at position `i` of a byte sequence.
pub open spec fn unit_at(b: Seq<u8>, i: int, little_endian: bool) -> u16 {
    if little_endian {
        (b[2 * i] as int + 256 * (b[2 * i + 1] as int)) as u16
    } else {
        (256 * (b[2 * i] as int) + b[2 * i + 1] as int) as u16
    }
}

pub open spec fn bytes_to_units(b: Seq<u8>, little_endian: bool) -> Seq<u16> {
    Seq::new(b.len() / 2, |i: int| unit_at(b, i, little_endian))
}

/// Byte `k` (0 or 1) of the serialised code unit `u`.
pub open spec fn unit_byte(u: u16, k: int, little_endian: bool) -> u8 {
    if (k == 0) == little_endian {
        (u % 256) as u8
    } else {
        (u / 256) as u8
    }
}

pub open spec fn units_to_bytes(u: Seq<u16>, little_endian: bool) -> Seq<u8> {
    Seq::new(2 * u.len(), |j: int| unit_byte(u[j / 2], j % 2, little_endian))
}

/// The characters stored in UTF-16 bytes.
pub open spec fn utf16_text(b: Seq<u8>, little_endian: bool) -> Option<Seq<char>> {
    if b.len() % 2 != 0 {
        None
    } else {
        decode_utf16(bytes_to_units(b, little_endian))
    }
}

pub proof fn lemma_encode_utf16_concat(a: Seq<char>, b: Seq<char>)
    ensures
        encode_utf16(a + b) == encode_utf16(a) + encode_utf16(b),
    decreases a.len(),
{
    if a.len() == 0 {
        assert(a + b =~= b);
    } else {
        assert((a + b).drop_first() =~= a.drop_first() + b);
        lemma_encode_utf16_concat(a.drop_first(), b);
        assert(encode_utf16(a + b) =~= encode_utf16(a) + encode_utf16(b));
    }
}

proof fn lemma_pair_arith(v: u32)
    requires
        0x10000 <= v <= 0x10FFFF,
    ensures
        0xD800 <= 0xD800 + (v - 0x10000) / 0x400 <= 0xDBFF,
        0xDC00 <= 0xDC00 + (v - 0x10000) % 0x400 <= 0xDFFF,
        0x10000 + ((v - 0x10000) / 0x400) * 0x400 + (v - 0x10000) % 0x400 == v,
{
    let w = v - 0x10000;
    assert(0 <= w / 0x400 <= 0x3FF && 0 <= w % 0x400 < 0x400 && (w / 0x400) * 0x400 + w % 0x400
        == w) by (nonlinear_arith)
        requires
            0 <= w < 0x100000,
    ;
}

proof fn lemma_pair_split(h: int, l: int)
    requires
        0xD800 <= h <= 0xDBFF,
        0xDC00 <= l <= 0xDFFF,
    ensures
        ({
            let w = (h - 0xD800) * 0x400 + (l - 0xDC00);
            &&& 0 <= w < 0x100000
            &&& w / 0x400 == h - 0xD800
            &&& w % 0x400 == l - 0xDC00
        }),
{
    let a = h - 0xD800;
    let b = l - 0xDC00;
    assert(0 <= a * 0x400 + b < 0x100000 && (a * 0x400 + b) / 0x400 == a && (a * 0x400 + b)
        % 0x400 == b) by (nonlinear_arith)
        requires
            0 <= a < 0x400,
            0 <= b < 0x400,
    ;
}

/// Decoding the UTF-16 encoding of a text gives the text back.
pub proof fn lemma_utf16_decode_encode(s: Seq<char>)
    ensures
        decode_utf16(encode_utf16(s)) == Some(s),
    decreases s.len(),
{
    if s.len() > 0 {
        let c = s[0];
        let v = c as u32;
        let rest = s.drop_first();
        lemma_utf16_decode_encode(rest);
        char_is_scalar(c);
        let u = encode_utf16(s);
        if v < 0x10000 {
            assert(u.drop_first() =~= encode_utf16(rest));
            assert((v as u16) as u32 == v);
            char_u32_cast(c, v);
            assert(((v as u16) as u32) as char == c);
            assert(seq![c] + rest =~= s);
        } else {
            lemma_pair_arith(v);
            assert(u.skip(2) =~= encode_utf16(rest));
            assert(pair_value(u[0], u[1]) == v);
            char_u32_cast(c, v);
            assert(seq![c] + rest =~= s);
        }
    }
}

/// Encoding what a UTF-16 sequence decodes to gives the sequence back.
pub proof fn lemma_utf16_encode_decode(u: Seq<u16>)
    requires
        decode_utf16(u) is Some,
    ensures
        encode_utf16(decode_utf16(u).unwrap()) == u,
    decreases u.len(),
{
    if u.len() > 0 {
        let s = decode_utf16(u).unwrap();
        if !is_surrogate(u[0]) {
            let rest = u.drop_first();
            lemma_utf16_encode_decode(rest);
            let c = (u[0] as u32) as char;
            assert(s.drop_first() =~= decode_utf16(rest).unwrap());
            assert(c as u32 == u[0] as u32);
            assert(utf16_units(c) =~= seq![u[0]]);
            assert(encode_utf16(s) =~= u);
        } else {
            let rest = u.skip(2);
            lemma_utf16_encode_decode(rest);
            lemma_pair_split(u[0] as int, u[1] as int);
            let v = pair_value(u[0], u[1]);
            let c = v as char;
            assert(c as u32 == v);
            assert(s.drop_first() =~= decode_utf16(rest).unwrap());
            assert(utf16_units(c) =~= seq![u[0], u[1]]);
            assert(encode_utf16(s) =~= u);
        }
    }
}

pub proof fn lemma_units_bytes_roundtrip(u: Seq<u16>, little_endian: bool)
    ensures
        bytes_to_units(units_to_bytes(u, little_endian), little_endian) == u,
{
    let b = units_to_bytes(u, little_endian);
    assert forall|i: int| 0 <= i < u.len() implies unit_at(b, i, little_endian) == u[i] by {
        assert((2 * i) / 2 == i && (2 * i) % 2 == 0 && (2 * i + 1) / 2 == i && (2 * i + 1) % 2
            == 1) by (nonlinear_arith);
        let x = u[i] as int;
        assert(x % 256 + 256 * (x / 256) == x && 0 <= x % 256 < 256 && 0 <= x / 256 < 256)
            by (nonlinear_arith)
            requires
                0 <= x < 0x10000,
        ;
    }
    assert(bytes_to_units(b, little_endian) =~= u);
}

pub proof fn lemma_bytes_units_roundtrip(b: Seq<u8>, little_endian: bool)
    requires
        b.len() % 2 == 0,
    ensures
        units_to_bytes(bytes_to_units(b, little_endian), little_endian) == b,
{
    let u = bytes_to_units(b, little_endian);
    assert forall|j: int| 0 <= j < b.len() implies unit_byte(u[j / 2], j % 2, little_endian)
        == b[j] by {
        let i = j / 2;
        assert(0 <= i < b.len() / 2 && (j % 2 == 0 ==> j == 2 * i) && (j % 2 == 1 ==> j == 2 * i
            + 1)) by (nonlinear_arith)
            requires
                0 <= j < b.len(),
                b.len() % 2 == 0,
                i == j / 2,
        ;
        let lo = b[2 * i] as int;
        let hi = b[2 * i + 1] as int;
        assert((lo + 256 * hi) % 256 == lo && (lo + 256 * hi) / 256 == hi && (256 * lo + hi) % 256
            == hi && (256 * lo + hi) / 256 == lo) by (nonlinear_arith)
            requires
                0 <= lo < 256,
                0 <= hi < 256,
        ;
    }
    assert(units_to_bytes(u, little_endian) =~= b);
}

/// `char::from_u32`: `Some` exactly for Unicode scalar values.
#[verifier::external_body]
fn char_from_u32(v: u32) -> (r: Option<char>)
    ensures
        r is Some <==> (v < 0xD800 || (0xE000 <= v && v <= 0x10FFFF)),
        r matches Some(c) ==> c as u32 == v,
{
    char::from_u32(v)
}

/// Decodes UTF-16 bytes; `None` for an odd length or an unpaired surrogate.
pub fn decode_utf16_bytes(bytes: &[u8], little_endian: bool) -> (r: Option<Vec<char>>)
    ensures
        r matches Some(v) ==> utf16_text(bytes@, little_endian) == Some(v@),
        r is None ==> utf16_text(bytes@, little_endian) is None,
{
    if bytes.len() % 2 != 0 {
        return None;
    }
    let ghost units = bytes_to_units(bytes@, little_endian);
    let n = bytes.len() / 2;
    assert(2 * n == bytes@.len());
    let mut us: Vec<u16> = Vec::new();
    for i in 0..n
        invariant
            n == bytes@.len() / 2,
            2 * n == bytes@.len(),
            units == bytes_to_units(bytes@, little_endian),
            us@ == units.take(i as int),
    {
        assert(2 * i + 1 < bytes.len());
        let a = bytes[2 * i] as u16;
        let b = bytes[2 * i + 1] as u16;
        let unit: u16 = if little_endian {
            a + 256 * b
        } else {
            256 * a + b
        };
        assert(unit == units[i as int]);
        us.push(unit);
        assert(units.take(i as int).push(units[i as int]) =~= units.take(i + 1));
    }
    assert(units.take(n as int) =~= units);
    let mut out: Vec<char> = Vec::new();
    let mut i: usize = 0;
    assert(us@.skip(0) =~= us@);
    assert(out@ + seq![] =~= out@);
    while i < n
        invariant
            i <= n == us@.len(),
            us@ == units,
            units == bytes_to_units(bytes@, little_endian),
            bytes@.len() % 2 == 0,
            match decode_utf16(units.skip(i as int)) {
                Some(r) => decode_utf16(units) == Some(out@ + r),
                None => decode_utf16(units) is None,
            },
        decreases n - i,
    {
        let u = us[i];
        let ghost t = units.skip(i as int);
        if u < 0xD800 || u > 0xDFFF {
            let c = match char_from_u32(u as u32) {
                Some(c) => c,
                None => {
                    return None;
                },
            };
            proof {
                assert(t.drop_first() =~= units.skip(i + 1));
                char_u32_cast(c, u as u32);
                assert(c == (u as u32) as char);
                match decode_utf16(units.skip(i + 1)) {
                    Some(r) => {
                        assert(out@.push(c) + r =~= out@ + (seq![c] + r));
                    },
                    None => {},
                }
            }
            out.push(c);
            i = i + 1;
        } else if u <= 0xDBFF && i + 1 < n && 0xDC00 <= us[i + 1] && us[i + 1] <= 0xDFFF {
            let low = us[i + 1];
            let v: u32 = 0x10000 + ((u - 0xD800) as u32) * 0x400 + ((low - 0xDC00) as u32);
            proof {
                lemma_pair_split(u as int, low as int);
            }
            let c = match char_from_u32(v) {
                Some(c) => c,
                None => {
                    return None;
                },
            };
            proof {
                assert(t.skip(2) =~= units.skip(i + 2));
                assert(v == pair_value(t[0], t[1]));
                char_u32_cast(c, v);
                assert(c == v as char);
                match decode_utf16(units.skip(i + 2)) {
                    Some(r) => {
                        assert(out@.push(c) + r =~= out@ + (seq![c] + r));
                    },
                    None => {},
                }
            }
            out.push(c);
            i = i + 2;
        } else {
            proof {
                assert(t[0] == u);
                assert(t.len() == n - i);
                assert(i + 1 < n ==> t[1] == us@[i + 1]);
                assert(decode_utf16(t) is None);
            }
            return None;
        }
    }
    proof {
        assert(units.skip(n as int) =~= Seq::<u16>::empty());
        assert(out@ + seq![] =~= out@);
    }
    Some(out)
}

/// The UTF-16 code units of a text (`str::encode_utf16`).
pub fn encode_utf16_chars(s: &[char]) -> (r: Vec<u16>)
    ensures
        r@ == encode_utf16(s@),
{
    let mut out: Vec<u16> = Vec::new();
    let n = s.len();
    for i in 0..n
        invariant
            n == s@.len(),
            out@ == encode_utf16(s@.take(i as int)),
    {
        let c = s[i];
        let v = c as u32;
        proof {
            assert(s@.take(i + 1) =~= s@.take(i as int) + seq![c]);
            lemma_encode_utf16_concat(s@.take(i as int), seq![c]);
            assert(seq![c].drop_first() =~= Seq::<char>::empty());
            assert(encode_utf16(Seq::<char>::empty()) =~= Seq::<u16>::empty());
            assert(encode_utf16(seq![c]) =~= utf16_units(c));
            char_is_scalar(c);
        }
        if v < 0x10000 {
            out.push(v as u16);
            assert(out@ =~= encode_utf16(s@.take(i as int)) + utf16_units(c));
        } else {
            proof {
                lemma_pair_arith(v);
            }
            let w = v - 0x10000;
            out.push((0xD800 + w / 0x400) as u16);
            out.push((0xDC00 + w % 0x400) as u16);
            assert(out@ =~= encode_utf16(s@.take(i as int)) + utf16_units(c));
        }
    }
    assert(s@.take(n as int) =~= s@);
    out
}

/// Serialises code units as bytes in the given order.
pub fn units_to_byte_vec(units: &[u16], little_endian: bool, out: &mut Vec<u8>)
    ensures
        final(out)@ == old(out)@ + units_to_bytes(units@, little_endian),
{
    let ghost start = out@;
    let n = units.len();
    for i in 0..n
        invariant
            n == units@.len(),
            out@ == start + units_to_bytes(units@.take(i as int), little_endian),
    {
        let u = units[i];
        let lo = (u % 256) as u8;
        let hi = (u / 256) as u8;
        if little_endian {
            out.push(lo);
            out.push(hi);
        } else {
            out.push(hi);
            out.push(lo);
        }
        proof {
            let a = units@.take(i as int);
            let b = units@.take(i + 1);
            assert forall|j: int| 0 <= j < 2 * b.len() implies #[trigger] units_to_bytes(
                b,
                little_endian,
            )[j] == (units_to_bytes(a, little_endian) + seq![
                unit_byte(u, 0, little_endian),
                unit_byte(u, 1, little_endian),
            ])[j] by {
                if j < 2 * i {
                    assert(j / 2 < i) by (nonlinear_arith)
                        requires
                            0 <= j < 2 * i,
                    ;
                } else {
                    assert(j / 2 == i && j % 2 == j - 2 * i) by (nonlinear_arith)
                        requires
                            2 * i <= j < 2 * i + 2,
                    ;
                }
            }
            assert(units_to_bytes(b, little_endian) =~= units_to_bytes(a, little_endian) + seq![
                unit_byte(u, 0, little_endian),
                unit_byte(u, 1, little_endian),
            ]);
        }
    }
    assert(units@.take(n as int) =~= units@);
}

// ---------------------------------------------------------------------------
// UTF-8
// ---------------------------------------------------------------------------

/// `String::from_utf8`: a string exactly when the bytes are well-formed
/// UTF-8, holding the characters they encode.
#[verifier::external_body]
fn string_from_utf8(bytes: Vec<u8>) -> (r: Option<String>)
    ensures
        r is Some <==> valid_utf8(bytes@),
        r matches Some(s) ==> s@ == decode_utf8(bytes@),
{
    String::from_utf8(bytes).ok()
}

fn utf8_chars(bytes: &[u8]) -> (r: Option<Vec<char>>)
    ensures
        r is Some <==> valid_utf8(bytes@),
        r matches Some(v) ==> v@ == decode_utf8(bytes@),
{
    let owned = vstd::slice::slice_to_vec(bytes);
    match string_from_utf8(owned) {
        Some(s) => Some(chars_of(s.as_str())),
        None => None,
    }
}

// ---------------------------------------------------------------------------
// Whole documents
// ---------------------------------------------------------------------------

pub open spec fn bom_utf8() -> Seq<u8> {
    seq![0xefu8, 0xbbu8, 0xbfu8]
}

pub open spec fn bom_utf16_le() -> Seq<u8> {
    seq![0xffu8, 0xfeu8]
}

pub open spec fn bom_utf16_be() -> Seq<u8> {
    seq![0xfeu8, 0xffu8]
}

pub open spec fn has_prefix(b: Seq<u8>, p: Seq<u8>) -> bool {
    p.len() <= b.len() && b.take(p.len() as int) == p
}

pub open spec fn has_bom(b: Seq<u8>) -> bool {
    has_prefix(b, bom_utf8()) || has_prefix(b, bom_utf16_le()) || has_prefix(b, bom_utf16_be())
}

/// Number of NUL bytes at even (`parity == 0`) or odd (`parity == 1`)
/// positions.
pub open spec fn nul_count(b: Seq<u8>, parity: int) -> nat
    decreases b.len(),
{
    if b.len() == 0 {
        0
    } else {
        nul_count(b.drop_last(), parity) + if (b.len() - 1) % 2 == parity && b.last() == 0 {
            1nat
        } else {
            0nat
        }
    }
}

/// Whether NUL bytes at odd (`parity == 1`, little-endian) or even
/// (`parity == 0`, big-endian) positions make up more than an eighth of an
/// even-length text of at least 4 bytes: the mark of UTF-16 written without
/// a byte-order mark, since ordinary property names are ASCII.
pub open spec fn nul_heavy(b: Seq<u8>, parity: int) -> bool {
    b.len() >= 4 && b.len() % 2 == 0 && nul_count(b, parity) > b.len() / 8
}

/// Text and encoding of an `.rdp` file's bytes: a byte-order mark decides
/// the encoding; without one, UTF-16 is recognised by its NUL bytes (NULs
/// at odd positions mean little-endian, else NULs at even positions mean
/// big-endian) when the bytes decode as such, and UTF-8 is the fallback.
pub open spec fn decode_text(b: Seq<u8>) -> Option<(Seq<char>, RdpEncoding)> {
    if has_prefix(b, bom_utf8()) {
        let rest = b.skip(3);
        if valid_utf8(rest) {
            Some((decode_utf8(rest), RdpEncoding::Utf8Bom))
        } else {
            None
        }
    } else if has_prefix(b, bom_utf16_le()) {
        match utf16_text(b.skip(2), true) {
            Some(t) => Some((t, RdpEncoding::Utf16Le)),
            None => None,
        }
    } else if has_prefix(b, bom_utf16_be()) {
        match utf16_text(b.skip(2), false) {
            Some(t) => Some((t, RdpEncoding::Utf16Be)),
            None => None,
        }
    } else if nul_heavy(b, 1) && utf16_text(b, true) is Some {
        Some((utf16_text(b, true)->0, RdpEncoding::Utf16Le))
    } else if !nul_heavy(b, 1) && nul_heavy(b, 0) && utf16_text(b, false) is Some {
        Some((utf16_text(b, false)->0, RdpEncoding::Utf16Be))
    } else if valid_utf8(b) {
        Some((decode_utf8(b), RdpEncoding::Utf8))
    } else {
        None
    }
}

/// The bytes of a text in the given encoding, with its byte-order mark.
pub open spec fn encode_text(t: Seq<char>, encoding: RdpEncoding) -> Seq<u8> {
    match encoding {
        RdpEncoding::Utf8 => encode_utf8(t),
        RdpEncoding::Utf8Bom => bom_utf8() + encode_utf8(t),
        RdpEncoding::Utf16Le => bom_utf16_le() + units_to_bytes(encode_utf16(t), true),
        RdpEncoding::Utf16Be => bom_utf16_be() + units_to_bytes(encode_utf16(t), false),
    }
}

/// Encoding the decoded text gives the original bytes back, when they began
/// with a byte-order mark or were read as UTF-8.
pub proof fn lemma_decode_encode_text(b: Seq<u8>)
    requires
        decode_text(b) is Some,
        has_bom(b) || decode_text(b).unwrap().1 == RdpEncoding::Utf8,
    ensures
        encode_text(decode_text(b).unwrap().0, decode_text(b).unwrap().1) == b,
{
    let (t, e) = decode_text(b).unwrap();
    if has_prefix(b, bom_utf8()) {
        let rest = b.skip(3);
        decode_utf8_encode_utf8(rest);
        assert(bom_utf8() + rest =~= b);
    } else if has_prefix(b, bom_utf16_le()) || has_prefix(b, bom_utf16_be()) {
        let le = has_prefix(b, bom_utf16_le());
        let rest = b.skip(2);
        let u = bytes_to_units(rest, le);
        lemma_utf16_encode_decode(u);
        lemma_bytes_units_roundtrip(rest, le);
        if le {
            assert(bom_utf16_le() + rest =~= b);
        } else {
            assert(bom_utf16_be() + rest =~= b);
        }
    } else {
        decode_utf8_encode_utf8(b);
    }
}

fn starts_with_bytes(b: &[u8], p0: u8, p1: u8, p2: Option<u8>) -> (r: bool)
    ensures
        r == match p2 {
            Some(x) => has_prefix(b@, seq![p0, p1, x]),
            None => has_prefix(b@, seq![p0, p1]),
        },
{
    match p2 {
        Some(x) => {
            let r = b.len() >= 3 && b[0] == p0 && b[1] == p1 && b[2] == x;
            if b.len() >= 3 {
                assert(r == (b@.take(3) =~= seq![p0, p1, x]));
            }
            r
        },
        None => {
            let r = b.len() >= 2 && b[0] == p0 && b[1] == p1;
            if b.len() >= 2 {
                assert(r == (b@.take(2) =~= seq![p0, p1]));
            }
            r
        },
    }
}

fn count_nuls(b: &[u8], parity: usize) -> (r: usize)
    requires
        parity < 2,
    ensures
        r == nul_count(b@, parity as int),
{
    let mut count: usize = 0;
    let n = b.len();
    for i in 0..n
        invariant
            n == b@.len(),
            parity < 2,
            count == nul_count(b@.take(i as int), parity as int),
            count <= i,
    {
        assert(b@.take(i + 1).drop_last() =~= b@.take(i as int));
        if i % 2 == parity && b[i] == 0 {
            count = count + 1;
        }
    }
    assert(b@.take(n as int) =~= b@);
    count
}

/// Detects the encoding of `.rdp` bytes and decodes them.
pub fn decode(bytes: &[u8]) -> (r: Option<(Vec<char>, RdpEncoding)>)
    ensures
        r matches Some((t, e)) ==> decode_text(bytes@) == Some((t@, e)),
        r is None ==> decode_text(bytes@) is None,
{
    let n = bytes.len();
    if starts_with_bytes(bytes, 0xef, 0xbb, Some(0xbf)) {
        let rest = vstd::slice::slice_subrange(bytes, 3, n);
        assert(rest@ =~= bytes@.skip(3));
        return match utf8_chars(rest) {
            Some(t) => Some((t, RdpEncoding::Utf8Bom)),
            None => None,
        };
    }
    if starts_with_bytes(bytes, 0xff, 0xfe, None) {
        let rest = vstd::slice::slice_subrange(bytes, 2, n);
        assert(rest@ =~= bytes@.skip(2));
        return match decode_utf16_bytes(rest, true) {
            Some(t) => Some((t, RdpEncoding::Utf16Le)),
            None => None,
        };
    }
    if starts_with_bytes(bytes, 0xfe, 0xff, None) {
        let rest = vstd::slice::slice_subrange(bytes, 2, n);
        assert(rest@ =~= bytes@.skip(2));
        return match decode_utf16_bytes(rest, false) {
            Some(t) => Some((t, RdpEncoding::Utf16Be)),
            None => None,
        };
    }
    if n >= 4 && n % 2 == 0 {
        let odd_nuls = count_nuls(bytes, 1);
        if odd_nuls > n / 8 {
            if let Some(t) = decode_utf16_bytes(bytes, true) {
                return Some((t, RdpEncoding::Utf16Le));
            }
        }
        let even_nuls = count_nuls(bytes, 0);
        if odd_nuls <= n / 8 && even_nuls > n / 8 {
            if let Some(t) = decode_utf16_bytes(bytes, false) {
                return Some((t, RdpEncoding::Utf16Be));
            }
        }
    }
    match utf8_chars(bytes) {
        Some(t) => Some((t, RdpEncoding::Utf8)),
        None => None,
    }
}

/// The bytes of a text in the given encoding.
pub fn encode(text: &str, encoding: RdpEncoding) -> (r: Vec<u8>)
    ensures
        r@ == encode_text(text@, encoding),
{
    match encoding {
        RdpEncoding::Utf8 => vstd::slice::slice_to_vec(text.as_bytes()),
        RdpEncoding::Utf8Bom => {
            let mut out: Vec<u8> = Vec::new();
            out.push(0xef);
            out.push(0xbb);
            out.push(0xbf);
            let body = vstd::slice::slice_to_vec(text.as_bytes());
            let mut body = body;
            out.append(&mut body);
            assert(out@ =~= bom_utf8() + encode_utf8(text@));
            out
        },
        RdpEncoding::Utf16Le | RdpEncoding::Utf16Be => {
            let le = match encoding {
                RdpEncoding::Utf16Le => true,
                _ => false,
            };
            let chars = chars_of(text);
            let units = encode_utf16_chars(chars.as_slice());
            let mut out: Vec<u8> = Vec::new();
            if le {
                out.push(0xff);
                out.push(0xfe);
            } else {
                out.push(0xfe);
                out.push(0xff);
            }
            units_to_byte_vec(units.as_slice(), le, &mut out);
            if le {
                assert(out@ =~= bom_utf16_le() + units_to_bytes(encode_utf16(text@), true));
            } else {
                assert(out@ =~= bom_utf16_be() + units_to_bytes(encode_utf16(text@), false));
            }
            out
        },
    }
}

/// UTF-8 text whose bytes, written without a byte-order mark, read back as
/// UTF-8: it does not begin with U+FEFF and its NUL bytes do not look like
/// UTF-16.
pub open spec fn plain_utf8_text(t: Seq<char>) -> bool {
    &&& !(t.len() > 0 && t[0] == '\u{feff}')
    &&& !nul_heavy(encode_utf8(t), 0)
    &&& !nul_heavy(encode_utf8(t), 1)
}

/// The bytes `EF BB BF` encode U+FEFF.
proof fn lemma_bom_codepoint()
    ensures
        codepoint_width_3(0xefu8, 0xbbu8, 0xbfu8) == 0xfeffu32,
{
    assert(((0xefu8 & 0x0f) as u32) << 12 | (((0xbbu8 & 0x3f) as u32) << 6) | ((0xbfu8 & 0x3f) as u32)
        == 0xfeffu32) by (bit_vector);
}

/// Bytes written in an encoding read back as the same text in the same
/// encoding, except UTF-8 text (without a byte-order mark) that looks like
/// something else: one that begins with U+FEFF, whose bytes look like a
/// byte-order mark, or one so full of NUL characters that it looks like
/// UTF-16.
pub proof fn lemma_encode_decode_text(t: Seq<char>, encoding: RdpEncoding)
    requires
        encoding == RdpEncoding::Utf8 ==> plain_utf8_text(t),
    ensures
        decode_text(encode_text(t, encoding)) == Some((t, encoding)),
{
    let b = encode_text(t, encoding);
    match encoding {
        RdpEncoding::Utf8 => {
            if t.len() > 0 {
                encode_utf8_first_scalar(t);
                assert(valid_first_scalar(b));
                assert(b[0] <= 0xf7);
                if has_prefix(b, bom_utf8()) {
                    assert(b[0] == 0xef && b[1] == 0xbb && b[2] == 0xbf) by {
                        assert(b.take(3)[0] == b[0] && b.take(3)[1] == b[1] && b.take(3)[2] == b[2]);
                    }
                    lemma_bom_codepoint();
                    assert(decode_first_scalar(b) == 0xfeffu32);
                    assert(t[0] as u32 == 0xfeffu32);
                    vstd::utf8::char_u32_cast(t[0], 0xfeffu32);
                    assert(false);
                }
                if has_prefix(b, bom_utf16_le()) {
                    assert(b.take(2)[0] == b[0]);
                }
                if has_prefix(b, bom_utf16_be()) {
                    assert(b.take(2)[0] == b[0]);
                }
            } else {
                assert(b.len() == 0);
            }
        },
        RdpEncoding::Utf8Bom => {
            assert(b.take(3) =~= bom_utf8());
            assert(b.skip(3) =~= encode_utf8(t));
        },
        RdpEncoding::Utf16Le => {
            let u = encode_utf16(t);
            assert(b.take(2) =~= bom_utf16_le());
            assert(b.skip(2) =~= units_to_bytes(u, true));
            assert(!has_prefix(b, bom_utf8())) by {
                if has_prefix(b, bom_utf8()) {
                    assert(b.take(3)[0] == b[0]);
                }
            }
            lemma_units_bytes_roundtrip(u, true);
            lemma_utf16_decode_encode(t);
        },
        RdpEncoding::Utf16Be => {
            let u = encode_utf16(t);
            assert(b.take(2) =~= bom_utf16_be());
            assert(b.skip(2) =~= units_to_bytes(u, false));
            assert(!has_prefix(b, bom_utf8())) by {
                if has_prefix(b, bom_utf8()) {
                    assert(b.take(3)[0] == b[0]);
                }
            }
            assert(!has_prefix(b, bom_utf16_le())) by {
                if has_prefix(b, bom_utf16_le()) {
                    assert(b.take(2)[0] == b[0]);
                }
            }
            lemma_units_bytes_roundtrip(u, false);
            lemma_utf16_decode_encode(t);
        },
    }
}

} // verus!
