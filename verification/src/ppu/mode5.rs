//! Background mode 5: two 160x128 bitmaps of direct RGB555 colours, one
//! shown in the top-left of the screen.
use vstd::prelude::*;

use crate::io::{IoRegs, IoView};

use super::compose::{bg_order, clear_layer, LayerPixel};
use super::mode4::FRAME_STRIDE;
use super::obj::le16_or_zero;
use super::{byte_at, with_line, FRAME_PIXELS, SCREEN_HEIGHT, SCREEN_WIDTH};

verus! {

pub const MODE5_WIDTH: usize = 160;

pub const MODE5_HEIGHT: usize = 128;

/// The colour of bitmap pixel (`x`, `y`) of the selected frame.
pub open spec fn mode5_color(vram: Seq<u8>, x: int, y: int, frame_select: bool) -> u16 {
    let base = if frame_select {
        FRAME_STRIDE as int
    } else {
        0
    };
    le16_or_zero(vram, base + (y * MODE5_WIDTH + x) * 2)
}

/// Background 2's pixel at (`x`, `y`): inside the 160x128 bitmap and with
/// BG2 enabled the bitmap colour, elsewhere transparent.
pub open spec fn mode5_pixel(io: IoView, vram: Seq<u8>, x: int, y: int, frame_select: bool) -> LayerPixel {
    let priority = (io.bg_control[2] & 3) as u8;
    if io.dispcnt & 0x0400 != 0 && y < MODE5_HEIGHT && x < MODE5_WIDTH {
        LayerPixel {
            color: mode5_color(vram, x, y, frame_select),
            priority,
            order: 0x82,
            transparent: false,
        }
    } else {
        LayerPixel { color: 0, priority, order: 0x82, transparent: true }
    }
}

/// Draw background 2 of scanline `y` from the selected frame.
pub fn render_layer(
    layer: &mut [LayerPixel; SCREEN_WIDTH],
    io: &IoRegs,
    vram: &[u8],
    y: usize,
    frame_select: bool,
)
    requires
        y < SCREEN_HEIGHT,
    ensures
        forall|x: int|
            0 <= x < SCREEN_WIDTH ==> final(layer)@[x] == mode5_pixel(
                io@,
                vram@,
                x,
                y as int,
                frame_select,
            ),
{
    proof {
        io.lemma_valid();
    }
    let priority = io.bg_priority(2);
    let order = bg_order(2);
    clear_layer(layer, priority, order);
    if !io.bg2_enabled() || y >= MODE5_HEIGHT {
        return;
    }
    let frame_base = if frame_select {
        FRAME_STRIDE
    } else {
        0
    };
    let line_start = frame_base + y * MODE5_WIDTH * 2;
    let mut x: usize = 0;
    while x < MODE5_WIDTH
        invariant
            x <= MODE5_WIDTH,
            y < MODE5_HEIGHT,
            line_start == (if frame_select {
                FRAME_STRIDE as int
            } else {
                0
            }) + y * MODE5_WIDTH * 2,
            io@.dispcnt & 0x0400 != 0,
            priority == (io@.bg_control[2] & 3) as u8,
            order == 0x82,
            forall|i: int|
                0 <= i < SCREEN_WIDTH ==> layer@[i] == (if i < x {
                    mode5_pixel(io@, vram@, i, y as int, frame_select)
                } else {
                    LayerPixel { color: 0, priority, order, transparent: true }
                }),
        decreases MODE5_WIDTH - x,
    {
        let offset = line_start + x * 2;
        let lo = byte_at(vram, offset) as u16;
        let hi = byte_at(vram, offset + 1) as u16;
        layer[x] = LayerPixel::opaque(lo | (hi << 8u16), priority, order);
        x = x + 1;
    }
}

/// Draw scanline `y` in mode 5: the backdrop, with the bitmap over it.
pub fn render_scanline(
    framebuffer: &mut [u16; FRAME_PIXELS],
    io: &IoRegs,
    vram: &[u8],
    y: usize,
    frame_select: bool,
    backdrop: u16,
)
    requires
        y < SCREEN_HEIGHT,
    ensures
        final(framebuffer)@ == with_line(
            old(framebuffer)@,
            y as int,
            |x: int|
                {
                    let p = mode5_pixel(io@, vram@, x, y as int, frame_select);
                    if p.transparent {
                        backdrop
                    } else {
                        p.color
                    }
                },
        ),
{
    let mut layer = [LayerPixel::transparent(4, 0xff); SCREEN_WIDTH];
    render_layer(&mut layer, io, vram, y, frame_select);
    let line_start = y * SCREEN_WIDTH;
    let mut x: usize = 0;
    while x < SCREEN_WIDTH
        invariant
            x <= SCREEN_WIDTH,
            y < SCREEN_HEIGHT,
            line_start == y * SCREEN_WIDTH,
            framebuffer@.len() == FRAME_PIXELS,
            forall|i: int|
                0 <= i < SCREEN_WIDTH ==> layer@[i] == mode5_pixel(io@, vram@, i, y as int, frame_select),
            forall|i: int|
                0 <= i < FRAME_PIXELS ==> framebuffer@[i] == (if line_start <= i < line_start + x {
                    if layer@[i - line_start].transparent {
                        backdrop
                    } else {
                        layer@[i - line_start].color
                    }
                } else {
                    old(framebuffer)@[i]
                }),
        decreases SCREEN_WIDTH - x,
    {
        let pixel = layer[x];
        framebuffer[line_start + x] = if pixel.transparent {
            backdrop
        } else {
            pixel.color
        };
        x = x + 1;
    }
    assert(framebuffer@ =~= with_line(
        old(framebuffer)@,
        y as int,
        |x: int|
            {
                let p = mode5_pixel(io@, vram@, x, y as int, frame_select);
                if p.transparent {
                    backdrop
                } else {
                    p.color
                }
            },
    ));
}

} // verus!
