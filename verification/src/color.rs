//! The colour gradient over iteration counts, and the packed pixel format.

use vstd::prelude::*;

verus! {

/// The brightest value of one colour channel.
pub const CHANNEL_MAX: u8 = 255;

/// The colour of a bounded point: one whose count reached the cap.
pub open spec fn black() -> (u8, u8, u8) {
    (0u8, 0u8, 0u8)
}

/// The red channel of an escaped point: `255 * iter / max_iters`, cut off
/// towards zero.
pub open spec fn red_level(iter: u32, max_iters: u32) -> int
    recommends
        iter < max_iters,
{
    (255 * iter) / (max_iters as int)
}

/// The green channel of an escaped point: `255 * (1 - iter / max_iters)`, cut
/// off towards zero.
pub open spec fn green_level(iter: u32, max_iters: u32) -> int
    recommends
        iter < max_iters,
{
    (255 * (max_iters - iter)) / (max_iters as int)
}

/// The colour that stands for an iteration count under a given cap.
///
/// A count equal to the cap marks a bounded point and is black. A smaller
/// count is placed on a linear gradient by the exact ratio `iter / max_iters`,
/// each channel cut off towards zero. A count above the cap is outside the
/// gradient: red saturates and the other channels are zero.
pub open spec fn color_of(iter: u32, max_iters: u32) -> (u8, u8, u8) {
    if iter == max_iters {
        black()
    } else if iter > max_iters {
        (255u8, 0u8, 0u8)
    } else {
        (
            red_level(iter, max_iters) as u8,
            green_level(iter, max_iters) as u8,
            (255 - red_level(iter, max_iters)) as u8,
        )
    }
}

/// The packed form of a colour: red in bits 16 to 23, green in bits 8 to 15,
/// blue in bits 0 to 7, nothing above.
pub open spec fn packed(rgb: (u8, u8, u8)) -> u32 {
    (rgb.0 as u32 * 65536 + rgb.1 as u32 * 256 + rgb.2 as u32) as u32
}

/// The pixel value of an iteration count under a given cap.
pub open spec fn pixel_of(iter: u32, max_iters: u32) -> u32 {
    packed(color_of(iter, max_iters))
}

/// Both gradient levels of an escaped point fit a channel, and together they
/// miss full brightness by at most one.
pub proof fn lemma_levels_in_range(iter: u32, max_iters: u32)
    requires
        iter < max_iters,
    ensures
        0 <= red_level(iter, max_iters) < 255,
        0 <= green_level(iter, max_iters) <= 255,
        254 <= red_level(iter, max_iters) + green_level(iter, max_iters) <= 255,
{
    let i = iter as int;
    let m = max_iters as int;
    let r = (255 * i) / m;
    let g = (255 * (m - i)) / m;
    assert(0 <= r < 255 && m * r <= 255 * i < m * r + m) by (nonlinear_arith)
        requires
            0 <= i < m,
            r == (255 * i) / m,
    ;
    assert(0 <= g <= 255 && m * g <= 255 * (m - i) < m * g + m) by (nonlinear_arith)
        requires
            0 <= i < m,
            g == (255 * (m - i)) / m,
    ;
    assert(254 <= r + g <= 255) by (nonlinear_arith)
        requires
            0 < m,
            m * r <= 255 * i < m * r + m,
            m * g <= 255 * (m - i) < m * g + m,
    ;
}

/// Along the gradient a later escape is never less red, never more green and
/// never more blue than an earlier one.
pub proof fn lemma_gradient_monotone(earlier: u32, later: u32, max_iters: u32)
    requires
        earlier <= later < max_iters,
    ensures
        color_of(earlier, max_iters).0 <= color_of(later, max_iters).0,
        color_of(earlier, max_iters).1 >= color_of(later, max_iters).1,
        color_of(earlier, max_iters).2 >= color_of(later, max_iters).2,
{
    lemma_levels_in_range(earlier, max_iters);
    lemma_levels_in_range(later, max_iters);
    let a = earlier as int;
    let b = later as int;
    let m = max_iters as int;
    assert((255 * a) / m <= (255 * b) / m) by (nonlinear_arith)
        requires
            0 <= a <= b,
            0 < m,
    ;
    assert((255 * (m - b)) / m <= (255 * (m - a)) / m) by (nonlinear_arith)
        requires
            0 <= a <= b < m,
    ;
}

/// Maps an iteration count to its colour under the cap that produced it.
pub fn map_to_color(iter: u32, max_iters: u32) -> (rgb: (u8, u8, u8))
    ensures
        rgb == color_of(iter, max_iters),
        iter == max_iters ==> rgb == (0u8, 0u8, 0u8),
        iter < max_iters ==> rgb.0 as int + rgb.2 as int == 255,
{
    if iter == max_iters {
        return (0, 0, 0);
    }
    if iter > max_iters {
        return (CHANNEL_MAX, 0, 0);
    }
    proof {
        lemma_levels_in_range(iter, max_iters);
    }
    let cap: u64 = max_iters as u64;
    let red: u64 = 255 * (iter as u64) / cap;
    let green: u64 = 255 * (cap - iter as u64) / cap;
    let r: u8 = red as u8;
    let g: u8 = green as u8;
    (r, g, CHANNEL_MAX - r)
}

/// Packs a colour into one pixel value, `0xRRGGBB`.
pub fn pack_rgb(rgb: (u8, u8, u8)) -> (pixel: u32)
    ensures
        pixel == packed(rgb),
        pixel >> 16 == rgb.0,
        (pixel >> 8) & 0xff == rgb.1,
        pixel & 0xff == rgb.2,
{
    let r: u32 = rgb.0 as u32;
    let g: u32 = rgb.1 as u32;
    let b: u32 = rgb.2 as u32;
    let pixel: u32 = r << 16 | g << 8 | b;
    assert(pixel == r * 65536 + g * 256 + b && pixel >> 16 == r && (pixel >> 8) & 0xff == g
        && pixel & 0xff == b) by (bit_vector)
        requires
            r < 256,
            g < 256,
            b < 256,
            pixel == r << 16 | g << 8 | b,
    ;
    pixel
}

/// Splits a pixel value into its channels; bits above the red channel are
/// dropped.
pub fn unpack_rgb(pixel: u32) -> (rgb: (u8, u8, u8))
    ensures
        rgb.0 == (pixel >> 16) & 0xff,
        rgb.1 == (pixel >> 8) & 0xff,
        rgb.2 == pixel & 0xff,
        pixel < 0x100_0000 ==> packed(rgb) == pixel,
{
    let r: u32 = (pixel >> 16) & 0xff;
    let g: u32 = (pixel >> 8) & 0xff;
    let b: u32 = pixel & 0xff;
    assert(r < 256 && g < 256 && b < 256 && (pixel < 0x100_0000 ==> r * 65536 + g * 256 + b
        == pixel)) by (bit_vector)
        requires
            r == (pixel >> 16) & 0xff,
            g == (pixel >> 8) & 0xff,
            b == pixel & 0xff,
    ;
    (r as u8, g as u8, b as u8)
}

/// Packing keeps every channel: a packed colour splits into itself.
pub proof fn lemma_pack_round_trip(rgb: (u8, u8, u8))
    ensures
        packed(rgb) < 0x100_0000,
        (packed(rgb) >> 16) & 0xff == rgb.0,
        (packed(rgb) >> 8) & 0xff == rgb.1,
        packed(rgb) & 0xff == rgb.2,
{
    let r: u32 = rgb.0 as u32;
    let g: u32 = rgb.1 as u32;
    let b: u32 = rgb.2 as u32;
    let p: u32 = (r * 65536 + g * 256 + b) as u32;
    assert(p < 0x100_0000 && (p >> 16) & 0xff == r && (p >> 8) & 0xff == g && p & 0xff == b)
        by (bit_vector)
        requires
            r < 256,
            g < 256,
            b < 256,
            p == (r * 65536 + g * 256 + b) as u32,
    ;
}

/// Colours and packs an iteration count in one step.
pub fn shade(iter: u32, max_iters: u32) -> (pixel: u32)
    ensures
        pixel == pixel_of(iter, max_iters),
        iter == max_iters ==> pixel == 0,
{
    pack_rgb(map_to_color(iter, max_iters))
}

} // verus!
