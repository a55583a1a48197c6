//! What the overlay layers that cover each screen draw and how they are sized.
use vstd::prelude::*;
use crate::compositor_interface::{Point, ScreenInfo, Size};

verus! {

/// The overlay colour in ARGB: a translucent purple (alpha 0x55, red 0x62 and
/// blue 0xff, each premultiplied by the alpha).
pub open spec fn spec_shell_color() -> u32 {
    0x5520_0055
}

/// The overlay colour's bytes, little-endian as the ARGB8888 buffer holds them.
pub open spec fn spec_shell_color_bytes() -> Seq<u8> {
    seq![0x55u8, 0x00u8, 0x20u8, 0x55u8]
}

/// The overlay colour, each channel premultiplied by the alpha.
pub fn shell_color() -> (color: u32)
    ensures
        color == spec_shell_color(),
{
    let a: u32 = 0x55;
    let r: u32 = 0x62 * a / 255;
    let g: u32 = 0x00 * a / 255;
    let b: u32 = 0xFF * a / 255;
    assert(r == 32 && g == 0 && b == 85);
    let a_part = a << 24u32;
    let r_part = r << 16u32;
    let g_part = g << 8u32;
    assert(a_part == 0x5500_0000u32 && r_part == 0x0020_0000u32 && g_part == 0u32) by (bit_vector)
        requires
            a == 0x55u32,
            r == 32u32,
            g == 0u32,
            a_part == a << 24u32,
            r_part == r << 16u32,
            g_part == g << 8u32,
    ;
    let color: u32 = a_part + r_part + g_part + b;
    color
}

/// Fills each whole 4-byte pixel of `canvas` with the overlay colour; bytes
/// after the last whole pixel are left as they were.
pub fn paint_canvas(canvas: &mut [u8])
    ensures
        final(canvas)@.len() == old(canvas)@.len(),
        forall|i: int|
            0 <= i < old(canvas)@.len() ==> #[trigger] final(canvas)@[i] == if i < (old(canvas)@.len()
                / 4) * 4 {
                spec_shell_color_bytes()[i % 4]
            } else {
                old(canvas)@[i]
            },
{
    let color = shell_color();
    let b0: u8 = (color & 0xff) as u8;
    let b1: u8 = ((color >> 8u32) & 0xff) as u8;
    let b2: u8 = ((color >> 16u32) & 0xff) as u8;
    let b3: u8 = ((color >> 24u32) & 0xff) as u8;
    assert(b0 == 0x55 && b1 == 0x00 && b2 == 0x20 && b3 == 0x55) by (bit_vector)
        requires
            color == 0x5520_0055u32,
            b0 == (color & 0xff) as u8,
            b1 == ((color >> 8u32) & 0xff) as u8,
            b2 == ((color >> 16u32) & 0xff) as u8,
            b3 == ((color >> 24u32) & 0xff) as u8,
    ;
    let len = canvas.len();
    let pixels = len / 4;
    let mut p: usize = 0;
    while p < pixels
        invariant
            len == old(canvas)@.len(),
            pixels == len / 4,
            p <= pixels,
            canvas@.len() == old(canvas)@.len(),
            b0 == 0x55 && b1 == 0x00 && b2 == 0x20 && b3 == 0x55,
            forall|i: int|
                0 <= i < old(canvas)@.len() ==> #[trigger] canvas@[i] == if i < p * 4 {
                    spec_shell_color_bytes()[i % 4]
                } else {
                    old(canvas)@[i]
                },
        decreases pixels - p,
    {
        assert(p * 4 + 4 <= len) by (nonlinear_arith)
            requires
                p < pixels,
                pixels == len / 4,
        ;
        let base = p * 4;
        canvas[base] = b0;
        canvas[base + 1] = b1;
        canvas[base + 2] = b2;
        canvas[base + 3] = b3;
        proof {
            assert forall|i: int| 0 <= i < old(canvas)@.len() implies #[trigger] canvas@[i] == if i < (p
                + 1) * 4 {
                spec_shell_color_bytes()[i % 4]
            } else {
                old(canvas)@[i]
            } by {
                if base <= i < base + 4 {
                    assert(i % 4 == i - base) by (nonlinear_arith)
                        requires
                            base == p * 4,
                            base <= i < base + 4,
                    ;
                }
            }
        }
        p += 1;
    }
}

/// The screen that an output at logical position `location` with logical size
/// `logical_size` covers (the size taken as unsigned, as `as u32` does).
pub fn screen_info_from_output(location: (i32, i32), logical_size: (i32, i32)) -> (info: ScreenInfo)
    ensures
        info == (ScreenInfo {
            size: Size { width: logical_size.0 as u32, height: logical_size.1 as u32 },
            origin: Point { x: location.0, y: location.1 },
        }),
{
    ScreenInfo {
        size: Size { width: logical_size.0 as u32, height: logical_size.1 as u32 },
        origin: Point { x: location.0, y: location.1 },
    }
}

/// Width, height and stride (in bytes, 4 per pixel) of the overlay buffer of a screen.
pub fn buffer_geometry(size: Size) -> (g: (i32, i32, i32))
    requires
        (size.width as i32) * 4 <= i32::MAX,
        (size.width as i32) * 4 >= i32::MIN,
    ensures
        g == (size.width as i32, size.height as i32, ((size.width as i32) * 4) as i32),
{
    let width = size.width as i32;
    let height = size.height as i32;
    (width, height, width * 4)
}

} // verus!
