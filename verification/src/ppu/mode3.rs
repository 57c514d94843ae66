//! Background mode 3: one 240x160 bitmap of direct RGB555 colours.
use vstd::prelude::*;

use crate::io::{IoRegs, IoView};

use super::compose::{bg_order, clear_layer, LayerPixel};
use super::obj::le16_or_zero;
use super::{byte_at, with_line, FRAME_PIXELS, SCREEN_HEIGHT, SCREEN_WIDTH};

verus! {

/// The bitmap colour of pixel (`x`, `y`).
pub open spec fn mode3_color(vram: Seq<u8>, x: int, y: int) -> u16 {
    le16_or_zero(vram, (y * SCREEN_WIDTH + x) * 2)
}

/// Background 2's pixel at (`x`, `y`): the bitmap colour while BG2 is
/// enabled, else transparent.
pub open spec fn mode3_pixel(io: IoView, vram: Seq<u8>, x: int, y: int) -> LayerPixel {
    let priority = (io.bg_control[2] & 3) as u8;
    if io.dispcnt & 0x0400 != 0 {
        LayerPixel { color: mode3_color(vram, x, y), priority, order: 0x82, transparent: false }
    } else {
        LayerPixel { color: 0, priority, order: 0x82, transparent: true }
    }
}

/// Draw background 2 of scanline `y` from the bitmap.
pub fn render_layer(layer: &mut [LayerPixel; SCREEN_WIDTH], io: &IoRegs, vram: &[u8], y: usize)
    requires
        y < SCREEN_HEIGHT,
    ensures
        forall|x: int| 0 <= x < SCREEN_WIDTH ==> final(layer)@[x] == mode3_pixel(io@, vram@, x, y as int),
{
    proof {
        io.lemma_valid();
    }
    let priority = io.bg_priority(2);
    let order = bg_order(2);
    clear_layer(layer, priority, order);
    if !io.bg2_enabled() {
        return;
    }
    let line_start = y * SCREEN_WIDTH;
    let mut x: usize = 0;
    while x < SCREEN_WIDTH
        invariant
            x <= SCREEN_WIDTH,
            y < SCREEN_HEIGHT,
            line_start == y * SCREEN_WIDTH,
            io@.dispcnt & 0x0400 != 0,
            priority == (io@.bg_control[2] & 3) as u8,
            order == 0x82,
            forall|i: int|
                0 <= i < SCREEN_WIDTH ==> layer@[i] == (if i < x {
                    mode3_pixel(io@, vram@, i, y as int)
                } else {
                    LayerPixel { color: 0, priority, order, transparent: true }
                }),
        decreases SCREEN_WIDTH - x,
    {
        let offset = (line_start + x) * 2;
        let lo = byte_at(vram, offset) as u16;
        let hi = byte_at(vram, offset + 1) as u16;
        layer[x] = LayerPixel::opaque(lo | (hi << 8u16), priority, order);
        x = x + 1;
    }
}

/// Draw scanline `y` straight from the mode 3 bitmap.
pub fn render_scanline(framebuffer: &mut [u16; FRAME_PIXELS], vram: &[u8], y: usize)
    requires
        y < SCREEN_HEIGHT,
    ensures
        final(framebuffer)@ == with_line(
            old(framebuffer)@,
            y as int,
            |x: int| mode3_color(vram@, x, y as int),
        ),
{
    let line_start = y * SCREEN_WIDTH;
    let mut x: usize = 0;
    while x < SCREEN_WIDTH
        invariant
            x <= SCREEN_WIDTH,
            y < SCREEN_HEIGHT,
            line_start == y * SCREEN_WIDTH,
            framebuffer@.len() == FRAME_PIXELS,
            forall|i: int|
                0 <= i < FRAME_PIXELS ==> framebuffer@[i] == (if line_start <= i < line_start + x {
                    mode3_color(vram@, i - line_start, y as int)
                } else {
                    old(framebuffer)@[i]
                }),
        decreases SCREEN_WIDTH - x,
    {
        let offset = (line_start + x) * 2;
        let lo = byte_at(vram, offset) as u16;
        let hi = byte_at(vram, offset + 1) as u16;
        framebuffer[line_start + x] = lo | (hi << 8u16);
        x = x + 1;
    }
    assert(framebuffer@ =~= with_line(
        old(framebuffer)@,
        y as int,
        |x: int| mode3_color(vram@, x, y as int),
    ));
}

} // verus!
