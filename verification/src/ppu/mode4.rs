//! Background mode 4: two 240x160 bitmaps of palette indices, one shown.
use vstd::prelude::*;

use crate::io::{IoRegs, IoView};

use super::compose::{bg_order, clear_layer, LayerPixel};
use super::{
    byte_at, byte_or_zero, palette_color, read_palette_color, with_line, FRAME_PIXELS,
    SCREEN_HEIGHT, SCREEN_WIDTH,
};

verus! {

/// The distance between the two frames in VRAM.
pub const FRAME_STRIDE: usize = 0x0a000;

/// The colour of pixel (`x`, `y`) of the selected frame.
pub open spec fn mode4_color(vram: Seq<u8>, palette: Seq<u8>, x: int, y: int, frame_select: bool) -> u16 {
    let base = if frame_select {
        FRAME_STRIDE as int
    } else {
        0
    };
    palette_color(palette, byte_or_zero(vram, base + y * SCREEN_WIDTH + x) as int)
}

/// Background 2's pixel at (`x`, `y`): the bitmap colour while BG2 is
/// enabled, else transparent.
pub open spec fn mode4_pixel(
    io: IoView,
    vram: Seq<u8>,
    palette: Seq<u8>,
    x: int,
    y: int,
    frame_select: bool,
) -> LayerPixel {
    let priority = (io.bg_control[2] & 3) as u8;
    if io.dispcnt & 0x0400 != 0 {
        LayerPixel {
            color: mode4_color(vram, palette, x, y, frame_select),
            priority,
            order: 0x82,
            transparent: false,
        }
    } else {
        LayerPixel { color: 0, priority, order: 0x82, transparent: true }
    }
}

/// Draw background 2 of scanline `y` from the selected frame.
pub fn render_layer(
    layer: &mut [LayerPixel; SCREEN_WIDTH],
    io: &IoRegs,
    vram: &[u8],
    palette: &[u8],
    y: usize,
    frame_select: bool,
)
    requires
        y < SCREEN_HEIGHT,
    ensures
        forall|x: int|
            0 <= x < SCREEN_WIDTH ==> final(layer)@[x] == mode4_pixel(
                io@,
                vram@,
                palette@,
                x,
                y as int,
                frame_select,
            ),
{
    proof {
        io.lemma_valid();
    }
    let priority = io.bg_priority(2);
    let order = bg_order(2);
    clear_layer(layer, priority, order);
    if !io.bg2_enabled() {
        return;
    }
    let frame_base = if frame_select {
        FRAME_STRIDE
    } else {
        0
    };
    let vram_start = frame_base + y * SCREEN_WIDTH;
    let mut x: usize = 0;
    while x < SCREEN_WIDTH
        invariant
            x <= SCREEN_WIDTH,
            y < SCREEN_HEIGHT,
            vram_start == (if frame_select {
                FRAME_STRIDE as int
            } else {
                0
            }) + y * SCREEN_WIDTH,
            io@.dispcnt & 0x0400 != 0,
            priority == (io@.bg_control[2] & 3) as u8,
            order == 0x82,
            forall|i: int|
                0 <= i < SCREEN_WIDTH ==> layer@[i] == (if i < x {
                    mode4_pixel(io@, vram@, palette@, i, y as int, frame_select)
                } else {
                    LayerPixel { color: 0, priority, order, transparent: true }
                }),
        decreases SCREEN_WIDTH - x,
    {
        let index = byte_at(vram, vram_start + x) as usize;
        layer[x] = LayerPixel::opaque(read_palette_color(palette, index), priority, order);
        x = x + 1;
    }
}

/// Draw scanline `y` straight from the selected mode 4 frame.
pub fn render_scanline(
    framebuffer: &mut [u16; FRAME_PIXELS],
    vram: &[u8],
    palette: &[u8],
    y: usize,
    frame_select: bool,
)
    requires
        y < SCREEN_HEIGHT,
    ensures
        final(framebuffer)@ == with_line(
            old(framebuffer)@,
            y as int,
            |x: int| mode4_color(vram@, palette@, x, y as int, frame_select),
        ),
{
    let frame_base = if frame_select {
        FRAME_STRIDE
    } else {
        0
    };
    let line_start = y * SCREEN_WIDTH;
    let mut x: usize = 0;
    while x < SCREEN_WIDTH
        invariant
            x <= SCREEN_WIDTH,
            y < SCREEN_HEIGHT,
            line_start == y * SCREEN_WIDTH,
            framebuffer@.len() == FRAME_PIXELS,
            frame_base == (if frame_select {
                FRAME_STRIDE as int
            } else {
                0
            }),
            forall|i: int|
                0 <= i < FRAME_PIXELS ==> framebuffer@[i] == (if line_start <= i < line_start + x {
                    mode4_color(vram@, palette@, i - line_start, y as int, frame_select)
                } else {
                    old(framebuffer)@[i]
                }),
        decreases SCREEN_WIDTH - x,
    {
        let index = byte_at(vram, frame_base + line_start + x) as usize;
        framebuffer[line_start + x] = read_palette_color(palette, index);
        x = x + 1;
    }
    assert(framebuffer@ =~= with_line(
        old(framebuffer)@,
        y as int,
        |x: int| mode4_color(vram@, palette@, x, y as int, frame_select),
    ));
}

} // verus!
