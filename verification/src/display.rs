//! The display settings sent to a running session when its window changes
//! size or DPI.
use vstd::prelude::*;

use crate::config::int_property;
use crate::rdp::{LineView, RdpDocument};

verus! {

pub open spec fn clamp(v: int, lo: int, hi: int) -> int {
    if v < lo {
        lo
    } else if v > hi {
        hi
    } else {
        v
    }
}

/// Millimetres covered by `pixels` at `dpi` (1 inch = 25.4 mm, rounded to
/// nearest), kept within 10..=10000 as the display-control channel expects.
pub open spec fn millimeters(pixels: u32, dpi: u32) -> int {
    clamp((((pixels * 254 + dpi * 5) / (dpi * 10)) as u32) as int, 10, 10000)
}

pub fn pixels_to_millimeters(pixels: u32, dpi: u32) -> (r: u32)
    requires
        dpi > 0,
    ensures
        r == millimeters(pixels, dpi),
        10 <= r <= 10000,
{
    let p = pixels as u64;
    let d = dpi as u64;
    assert(p * 254 + d * 5 <= 0xffff_ffff * 259) by (nonlinear_arith)
        requires
            p <= 0xffff_ffff,
            d <= 0xffff_ffff,
    ;
    assert(d * 10 > 0) by (nonlinear_arith)
        requires
            d > 0,
    ;
    let q = ((p * 254 + d * 5) / (d * 10)) as u32;
    if q < 10 {
        10
    } else if q > 10_000 {
        10_000
    } else {
        q
    }
}

/// The scale factor of the remote desktop: the document's when it lies in
/// 100..=500, else the window's DPI as a percentage of 96 (rounded), kept in
/// 100..=500.
pub open spec fn desktop_scale(dpi: u32, configured: Option<i32>) -> int {
    match configured {
        Some(v) if 100 <= v <= 500 => v as int,
        _ => clamp((dpi * 100 + 48) / 96, 100, 500),
    }
}

/// The device scale factor: the document's when it is 100, 140 or 180,
/// else 100.
pub open spec fn device_scale(configured: Option<i32>) -> int {
    match configured {
        Some(v) if v == 100 || v == 140 || v == 180 => v as int,
        _ => 100,
    }
}

/// The settings for a window of `width` x `height` pixels at `dpi`: sizes
/// kept in 200..=8192, DPI taken as at least 96.
pub open spec fn window_settings(width: u32, height: u32, dpi: u32, lines: Seq<LineView>) -> SessionDisplaySettings {
    let w = clamp(width as int, 200, 8192) as u32;
    let h = clamp(height as int, 200, 8192) as u32;
    let d: u32 = if dpi < 96 {
        96
    } else {
        dpi
    };
    SessionDisplaySettings {
        width: w,
        height: h,
        physical_width: millimeters(w, d) as u32,
        physical_height: millimeters(h, d) as u32,
        desktop_scale_factor: desktop_scale(d, int_property(lines, "desktopscalefactor"@)) as u32,
        device_scale_factor: device_scale(int_property(lines, "devicescalefactor"@)) as u32,
    }
}

/// The DPI percentage fits 32 bits whenever the document does not give the
/// scale factor itself.
pub open spec fn scale_computable(dpi: u32, lines: Seq<LineView>) -> bool {
    (int_property(lines, "desktopscalefactor"@) matches Some(v) && 100 <= v <= 500) || dpi
        <= 42_949_672
}

#[derive(Clone, Copy, Debug, PartialEq, Eq)]
pub struct SessionDisplaySettings {
    pub width: u32,
    pub height: u32,
    pub physical_width: u32,
    pub physical_height: u32,
    pub desktop_scale_factor: u32,
    pub device_scale_factor: u32,
}

impl SessionDisplaySettings {
    pub fn from_window(width: u32, height: u32, dpi: u32, document: &RdpDocument) -> (r: Self)
        requires
            scale_computable(dpi, document@.lines),
        ensures
            r == window_settings(width, height, dpi, document@.lines),
    {
        let width = if width < 200 {
            200
        } else if width > 8192 {
            8192
        } else {
            width
        };
        let height = if height < 200 {
            200
        } else if height > 8192 {
            8192
        } else {
            height
        };
        let dpi = if dpi < 96 {
            96
        } else {
            dpi
        };
        let desktop_scale_factor = match document.get_integer("desktopscalefactor") {
            Some(v) if 100 <= v && v <= 500 => v as u32,
            _ => {
                let scaled = (dpi * 100 + 48) / 96;
                if scaled < 100 {
                    100
                } else if scaled > 500 {
                    500
                } else {
                    scaled
                }
            },
        };
        let device_scale_factor = match document.get_integer("devicescalefactor") {
            Some(v) if v == 100 || v == 140 || v == 180 => v as u32,
            _ => 100,
        };
        SessionDisplaySettings {
            width,
            height,
            physical_width: pixels_to_millimeters(width, dpi),
            physical_height: pixels_to_millimeters(height, dpi),
            desktop_scale_factor,
            device_scale_factor,
        }
    }

    /// The arguments of `UpdateSessionDisplaySettings`: width, height,
    /// physical width and height, orientation (0, landscape), desktop and
    /// device scale factors.
    pub fn arguments(self) -> (r: Vec<u32>)
        ensures
            r@ == seq![
                self.width,
                self.height,
                self.physical_width,
                self.physical_height,
                0u32,
                self.desktop_scale_factor,
                self.device_scale_factor,
            ],
    {
        let mut r = Vec::new();
        r.push(self.width);
        r.push(self.height);
        r.push(self.physical_width);
        r.push(self.physical_height);
        r.push(0);
        r.push(self.desktop_scale_factor);
        r.push(self.device_scale_factor);
        r
    }
}

/// What to send when the window becomes `width` x `height` at `dpi`:
/// nothing for a window with no area.
pub fn display_update(width: u32, height: u32, dpi: u32, document: &RdpDocument) -> (r: Option<
    SessionDisplaySettings,
>)
    requires
        scale_computable(dpi, document@.lines),
    ensures
        (width == 0 || height == 0) <==> r is None,
        r matches Some(s) ==> s == window_settings(width, height, dpi, document@.lines),
{
    if width == 0 || height == 0 {
        None
    } else {
        Some(SessionDisplaySettings::from_window(width, height, dpi, document))
    }
}

/// Every display update stays within what the display-control channel
/// accepts: sizes in 200..=8192 pixels, physical sizes in 10..=10000 mm, a
/// desktop scale of 100..=500 percent and a device scale of 100, 140 or 180.
pub proof fn lemma_display_settings_in_range(width: u32, height: u32, dpi: u32, lines: Seq<LineView>)
    ensures
        ({
            let s = window_settings(width, height, dpi, lines);
            &&& 200 <= s.width <= 8192
            &&& 200 <= s.height <= 8192
            &&& 10 <= s.physical_width <= 10000
            &&& 10 <= s.physical_height <= 10000
            &&& 100 <= s.desktop_scale_factor <= 500
            &&& (s.device_scale_factor == 100 || s.device_scale_factor == 140
                || s.device_scale_factor == 180)
        }),
{
}

/// The device scale factor sent to the session is the document's
/// `devicescalefactor` when that is 100, 140 or 180; any other value, or
/// none, gives 100. It is always one of the three.
pub proof fn lemma_device_scale_factor(width: u32, height: u32, dpi: u32, lines: Seq<LineView>)
    ensures
        ({
            let f = window_settings(width, height, dpi, lines).device_scale_factor;
            let v = int_property(lines, "devicescalefactor"@);
            &&& v == Some(100i32) ==> f == 100
            &&& v == Some(140i32) ==> f == 140
            &&& v == Some(180i32) ==> f == 180
            &&& v != Some(100i32) && v != Some(140i32) && v != Some(180i32) ==> f == 100
            &&& f == 100 || f == 140 || f == 180
        }),
{
}

/// The size sent to the session is the window's, kept in 200..=8192, and
/// the physical size is kept in 10..=10000 millimetres.
pub proof fn lemma_display_size(width: u32, height: u32, dpi: u32, lines: Seq<LineView>)
    ensures
        ({
            let r = window_settings(width, height, dpi, lines);
            &&& 200 <= width <= 8192 ==> r.width == width
            &&& width < 200 ==> r.width == 200
            &&& width > 8192 ==> r.width == 8192
            &&& 200 <= height <= 8192 ==> r.height == height
            &&& height < 200 ==> r.height == 200
            &&& height > 8192 ==> r.height == 8192
            &&& 10 <= r.physical_width <= 10000
            &&& 10 <= r.physical_height <= 10000
        }),
{
}

/// The desktop scale factor is the document's `desktopscalefactor` when
/// that lies in 100..=500; otherwise it follows the window's DPI (100 at 96
/// DPI or less, 150 at 144, 200 at 192), never falling as the DPI rises. It
/// always lies in 100..=500.
pub proof fn lemma_desktop_scale_factor(
    width: u32,
    height: u32,
    dpi: u32,
    dpi2: u32,
    lines: Seq<LineView>,
)
    ensures
        ({
            let f = window_settings(width, height, dpi, lines).desktop_scale_factor;
            let f2 = window_settings(width, height, dpi2, lines).desktop_scale_factor;
            let v = int_property(lines, "desktopscalefactor"@);
            let given = match v {
                Some(x) => 100 <= x <= 500,
                None => false,
            };
            &&& 100 <= f <= 500
            &&& given ==> f == v->0
            &&& !given ==> {
                &&& dpi <= 96 ==> f == 100
                &&& dpi == 144 ==> f == 150
                &&& dpi == 192 ==> f == 200
                &&& dpi <= dpi2 ==> f <= f2
            }
        }),
{
    let d: int = if dpi < 96 { 96 } else { dpi as int };
    let d2: int = if dpi2 < 96 { 96 } else { dpi2 as int };
    if dpi <= dpi2 {
        assert(d * 100 + 48 <= d2 * 100 + 48);
        vstd::arithmetic::div_mod::lemma_div_is_ordered(d * 100 + 48, d2 * 100 + 48, 96);
    }
    assert((96 * 100 + 48) / 96 == 100);
    assert((144 * 100 + 48) / 96 == 150);
    assert((192 * 100 + 48) / 96 == 200);
}

} // verus!
