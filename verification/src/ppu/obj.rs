//! Sprites (OBJs): the 128 OAM entries drawn into the sprite layer, and
//! the sprite window built from sprites in window mode.
use vstd::prelude::*;

use crate::io::{IoRegs, IoView};

use super::compose::{clear_layer, LayerPixel};
use super::{byte_at, byte_or_zero, palette_color, read_palette_color, SCREEN_HEIGHT, SCREEN_WIDTH};

verus! {

pub const OBJ_COUNT: usize = 128;

pub const OAM_ENTRY_SIZE: usize = 8;

/// Where sprite tiles start in VRAM.
pub const OBJ_TILE_BASE: usize = 0x1_0000;

/// Where sprite colours start in the palette (in colours).
pub const OBJ_PALETTE_BASE: usize = 256;

/// The little-endian halfword at `offset`, bytes past the end reading 0.
pub open spec fn le16_or_zero(s: Seq<u8>, offset: int) -> u16 {
    (byte_or_zero(s, offset) as u16) | ((byte_or_zero(s, offset + 1) as u16) << 8u16)
}

/// The three attribute halfwords of OAM entry `k`.
pub open spec fn oam_attrs(oam: Seq<u8>, k: int) -> (u16, u16, u16) {
    (le16_or_zero(oam, k * 8), le16_or_zero(oam, k * 8 + 2), le16_or_zero(oam, k * 8 + 4))
}

/// A sprite drawn in the sprite layer: neither a window sprite (attr0 bit
/// 11) nor affine or disabled (bits 8-9).
pub open spec fn regular_visible(attr0: u16) -> bool {
    attr0 & 0x0800 == 0 && attr0 & 0x0300 == 0
}

/// A sprite that forms the sprite window: mode 2 (attr0 bits 10-11 = 10),
/// neither affine nor disabled.
pub open spec fn window_sprite(attr0: u16) -> bool {
    attr0 & 0x0c00 == 0x0800 && attr0 & 0x0300 == 0
}

/// The width and height of a sprite, from its shape (attr0 bits 14-15) and
/// size (attr1 bits 14-15); `None` for the unused shape 3.
pub open spec fn obj_dims(attr0: u16, attr1: u16) -> Option<(int, int)> {
    let shape = attr0 / 0x4000;
    let size = attr1 / 0x4000;
    if shape == 0 {
        if size == 0 {
            Some((8, 8))
        } else if size == 1 {
            Some((16, 16))
        } else if size == 2 {
            Some((32, 32))
        } else {
            Some((64, 64))
        }
    } else if shape == 1 {
        if size == 0 {
            Some((16, 8))
        } else if size == 1 {
            Some((32, 8))
        } else if size == 2 {
            Some((32, 16))
        } else {
            Some((64, 32))
        }
    } else if shape == 2 {
        if size == 0 {
            Some((8, 16))
        } else if size == 1 {
            Some((8, 32))
        } else if size == 2 {
            Some((16, 32))
        } else {
            Some((32, 64))
        }
    } else {
        None
    }
}

/// The sprite's left edge: attr1 bits 0-8, values from 240 up wrapping to
/// the left of the screen.
pub open spec fn obj_x(attr1: u16) -> int {
    let raw = attr1 as int % 512;
    if raw >= SCREEN_WIDTH {
        raw - 512
    } else {
        raw
    }
}

/// The sprite's top edge: attr0 bits 0-7, values from 160 up wrapping above
/// the screen.
pub open spec fn obj_y(attr0: u16) -> int {
    let raw = attr0 as int % 256;
    if raw >= SCREEN_HEIGHT {
        raw - 256
    } else {
        raw
    }
}

/// The palette index (0 transparent) of pixel (`x`, `y`) of a sprite
/// `width` pixels wide whose first tile is `tile_id`: 8x8 tiles of four or
/// eight bits per pixel, laid out one after another (1D mapping) or in rows
/// of 32 tiles (2D mapping).
pub open spec fn obj_texel(
    vram: Seq<u8>,
    tile_id: int,
    x: int,
    y: int,
    width: int,
    bpp8: bool,
    mapping_1d: bool,
) -> u8 {
    let step = if bpp8 {
        2int
    } else {
        1int
    };
    let row_stride = if mapping_1d {
        (width / 8) * step
    } else {
        32
    };
    let base = if bpp8 {
        tile_id - tile_id % 2
    } else {
        tile_id
    };
    let slot = base + (y / 8) * row_stride + (x / 8) * step;
    let offset = OBJ_TILE_BASE + slot * 32;
    if bpp8 {
        byte_or_zero(vram, offset + (y % 8) * 8 + x % 8)
    } else {
        let packed = byte_or_zero(vram, offset + (y % 8) * 4 + (x % 8) / 2);
        if (x % 8) % 2 == 0 {
            packed % 16
        } else {
            packed / 16
        }
    }
}

/// The palette index of sprite `k` at screen pixel (`x`, `y`): 0 where the
/// sprite does not cover the pixel or is transparent there. Flips mirror
/// the sampled column (attr1 bit 12) and row (attr1 bit 13).
pub open spec fn obj_index_at(
    oam: Seq<u8>,
    vram: Seq<u8>,
    mapping_1d: bool,
    k: int,
    x: int,
    y: int,
) -> u8 {
    let (a0, a1, a2) = oam_attrs(oam, k);
    match obj_dims(a0, a1) {
        None => 0,
        Some((w, h)) => {
            let ox = obj_x(a1);
            let oy = obj_y(a0);
            if y < oy || y >= oy + h || x < ox || x >= ox + w {
                0
            } else {
                let col = x - ox;
                let row = y - oy;
                let sx = if a1 & 0x1000 != 0 {
                    w - 1 - col
                } else {
                    col
                };
                let sy = if a1 & 0x2000 != 0 {
                    h - 1 - row
                } else {
                    row
                };
                obj_texel(vram, (a2 % 1024) as int, sx, sy, w, a0 & 0x2000 != 0, mapping_1d)
            }
        },
    }
}

/// A horizontally flipped sprite is the mirror image of the same sprite
/// unflipped: where two OAM tables give sprite `k` the same attributes but
/// for the flip bit of attr1 (bit 12), set in the second, the palette index
/// at column `c` of the unflipped sprite is the one at column `w - 1 - c`
/// of the flipped one, on every row (`w` by `h` being the sprite's size).
#[verifier::spinoff_prover]
#[verifier::rlimit(40)]
pub proof fn lemma_obj_hflip_mirrors(
    oam1: Seq<u8>,
    oam2: Seq<u8>,
    vram: Seq<u8>,
    mapping_1d: bool,
    k: int,
    w: int,
    h: int,
    x1: int,
    x2: int,
    y: int,
)
    requires
        oam_attrs(oam1, k).1 & 0x1000 == 0,
        oam_attrs(oam2, k) == (oam_attrs(oam1, k).0, oam_attrs(oam1, k).1 | 0x1000, oam_attrs(oam1, k).2),
        obj_dims(oam_attrs(oam1, k).0, oam_attrs(oam1, k).1) == Some((w, h)),
        obj_x(oam_attrs(oam1, k).1) <= x1 < obj_x(oam_attrs(oam1, k).1) + w,
        x1 + x2 == 2 * obj_x(oam_attrs(oam1, k).1) + w - 1,
    ensures
        obj_index_at(oam2, vram, mapping_1d, k, x2, y) == obj_index_at(oam1, vram, mapping_1d, k, x1, y),
{
    crate::io::lemma_halfword_bits(oam_attrs(oam1, k).1);
}

/// A vertically flipped sprite is the upside-down image of the same sprite
/// unflipped: where two OAM tables give sprite `k` the same attributes but
/// for the vertical flip bit of attr1 (bit 13), set in the second, the
/// palette index at row `r` of the unflipped sprite is the one at row
/// `h - 1 - r` of the flipped one, in every column (`w` by `h` being the
/// sprite's size).
#[verifier::spinoff_prover]
#[verifier::rlimit(40)]
pub proof fn lemma_obj_vflip_mirrors(
    oam1: Seq<u8>,
    oam2: Seq<u8>,
    vram: Seq<u8>,
    mapping_1d: bool,
    k: int,
    w: int,
    h: int,
    x: int,
    y1: int,
    y2: int,
)
    requires
        oam_attrs(oam1, k).1 & 0x2000 == 0,
        oam_attrs(oam2, k) == (oam_attrs(oam1, k).0, oam_attrs(oam1, k).1 | 0x2000, oam_attrs(oam1, k).2),
        obj_dims(oam_attrs(oam1, k).0, oam_attrs(oam1, k).1) == Some((w, h)),
        obj_y(oam_attrs(oam1, k).0) <= y1 < obj_y(oam_attrs(oam1, k).0) + h,
        y1 + y2 == 2 * obj_y(oam_attrs(oam1, k).0) + h - 1,
    ensures
        obj_index_at(oam2, vram, mapping_1d, k, x, y2) == obj_index_at(oam1, vram, mapping_1d, k, x, y1),
{
    crate::io::lemma_halfword_bits(oam_attrs(oam1, k).1);
}

/// The colour of palette index `index` of sprite attribute `attr2` (its
/// 16-colour bank in bits 12-15 when four bits per pixel).
pub open spec fn obj_color(palette: Seq<u8>, attr0: u16, attr2: u16, index: u8) -> u16 {
    if attr0 & 0x2000 != 0 {
        palette_color(palette, OBJ_PALETTE_BASE + index)
    } else {
        palette_color(palette, OBJ_PALETTE_BASE + (attr2 / 4096) * 16 + index)
    }
}

/// What sprite `k` draws at (`x`, `y`), if anything: an opaque pixel with
/// the sprite's priority (attr2 bits 10-11) and its OAM index as order.
pub open spec fn obj_candidate(
    io: IoView,
    vram: Seq<u8>,
    palette: Seq<u8>,
    oam: Seq<u8>,
    k: int,
    x: int,
    y: int,
) -> Option<LayerPixel> {
    let (a0, a1, a2) = oam_attrs(oam, k);
    let index = obj_index_at(oam, vram, io.dispcnt & 0x0040 != 0, k, x, y);
    if !regular_visible(a0) || index == 0 {
        None
    } else {
        Some(
            LayerPixel {
                color: obj_color(palette, a0, a2, index),
                priority: ((a2 / 1024) % 4) as u8,
                order: k as u8,
                transparent: false,
            },
        )
    }
}

/// The sprite-layer pixel `p` after sprite candidate `c`: `c` replaces a
/// transparent pixel or one it is in front of.
pub open spec fn obj_step(p: LayerPixel, c: Option<LayerPixel>) -> LayerPixel {
    match c {
        Some(c) => if p.transparent || c.priority < p.priority || (c.priority == p.priority
            && c.order < p.order) {
            c
        } else {
            p
        },
        None => p,
    }
}

/// The sprite-layer pixel at (`x`, `y`) after the first `n` sprites.
pub open spec fn obj_pixel_upto(
    io: IoView,
    vram: Seq<u8>,
    palette: Seq<u8>,
    oam: Seq<u8>,
    x: int,
    y: int,
    n: int,
) -> LayerPixel
    decreases n,
{
    if n <= 0 {
        LayerPixel { color: 0, priority: 4, order: 0xff, transparent: true }
    } else {
        obj_step(
            obj_pixel_upto(io, vram, palette, oam, x, y, n - 1),
            obj_candidate(io, vram, palette, oam, n - 1, x, y),
        )
    }
}

/// The sprite-layer pixel at (`x`, `y`): transparent while sprites are off
/// (DISPCNT bit 12), else the result of all 128 sprites.
pub open spec fn obj_pixel(
    io: IoView,
    vram: Seq<u8>,
    palette: Seq<u8>,
    oam: Seq<u8>,
    x: int,
    y: int,
) -> LayerPixel {
    if io.dispcnt & 0x1000 == 0 {
        LayerPixel { color: 0, priority: 4, order: 0xff, transparent: true }
    } else {
        obj_pixel_upto(io, vram, palette, oam, x, y, OBJ_COUNT as int)
    }
}

/// Whether sprite `k` has a valid shape and its rows (from its Y
/// coordinate, `height` of them) include scanline `y`.
pub open spec fn obj_spans_line(oam: Seq<u8>, k: int, y: int) -> bool {
    let (a0, a1, _a2) = oam_attrs(oam, k);
    match obj_dims(a0, a1) {
        Some((_w, h)) => obj_y(a0) <= y < obj_y(a0) + h,
        None => false,
    }
}

/// Whether one of the first `n` window sprites is opaque at (`x`, `y`).
pub open spec fn obj_window_upto(io: IoView, vram: Seq<u8>, oam: Seq<u8>, x: int, y: int, n: int) -> bool
    decreases n,
{
    if n <= 0 {
        false
    } else {
        obj_window_upto(io, vram, oam, x, y, n - 1) || (window_sprite(oam_attrs(oam, n - 1).0)
            && obj_index_at(oam, vram, io.dispcnt & 0x0040 != 0, n - 1, x, y) != 0)
    }
}

/// The sprite window of scanline `y`: the pixels where a window sprite is
/// opaque, while sprites are on.
pub open spec fn obj_window_mask_spec(io: IoView, vram: Seq<u8>, oam: Seq<u8>, y: int) -> Seq<bool> {
    Seq::new(
        SCREEN_WIDTH as nat,
        |x: int| io.dispcnt & 0x1000 != 0 && obj_window_upto(io, vram, oam, x, y, OBJ_COUNT as int),
    )
}

fn read_u16(slice: &[u8], offset: usize) -> (r: u16)
    requires
        offset < usize::MAX,
    ensures
        r == le16_or_zero(slice@, offset as int),
{
    let lo = byte_at(slice, offset) as u16;
    let hi = byte_at(slice, offset + 1) as u16;
    lo | (hi << 8u16)
}

fn regular_obj_visible(attr0: u16) -> (r: bool)
    ensures
        r == regular_visible(attr0),
{
    (attr0 & 0x0800) == 0 && (attr0 & 0x0300) == 0
}

fn window_obj_visible(attr0: u16) -> (r: bool)
    ensures
        r == window_sprite(attr0),
{
    (attr0 & 0x0c00) == 0x0800 && (attr0 & 0x0300) == 0
}

fn obj_dimensions(attr0: u16, attr1: u16) -> (r: Option<(usize, usize)>)
    ensures
        match obj_dims(attr0, attr1) {
            Some((w, h)) => r == Some((w as usize, h as usize)),
            None => r is None,
        },
{
    let shape = attr0 / 0x4000;
    let size = attr1 / 0x4000;
    if shape == 0 {
        if size == 0 {
            Some((8, 8))
        } else if size == 1 {
            Some((16, 16))
        } else if size == 2 {
            Some((32, 32))
        } else {
            Some((64, 64))
        }
    } else if shape == 1 {
        if size == 0 {
            Some((16, 8))
        } else if size == 1 {
            Some((32, 8))
        } else if size == 2 {
            Some((32, 16))
        } else {
            Some((64, 32))
        }
    } else if shape == 2 {
        if size == 0 {
            Some((8, 16))
        } else if size == 1 {
            Some((8, 32))
        } else if size == 2 {
            Some((16, 32))
        } else {
            Some((32, 64))
        }
    } else {
        None
    }
}

fn obj_screen_x(attr1: u16) -> (r: i32)
    ensures
        r == obj_x(attr1),
{
    let raw = (attr1 % 512) as i32;
    if raw >= 240 {
        raw - 512
    } else {
        raw
    }
}

fn obj_screen_y(attr0: u16) -> (r: i32)
    ensures
        r == obj_y(attr0),
{
    let raw = (attr0 % 256) as i32;
    if raw >= 160 {
        raw - 256
    } else {
        raw
    }
}

/// The palette index of sprite pixel (`x`, `y`); see `obj_texel`.
fn obj_palette_index(
    vram: &[u8],
    tile_id: usize,
    x: usize,
    y: usize,
    obj_width: usize,
    bpp8: bool,
    mapping_1d: bool,
) -> (r: u8)
    requires
        tile_id < 1024,
        x < 64,
        y < 64,
        obj_width <= 64,
    ensures
        r == obj_texel(vram@, tile_id as int, x as int, y as int, obj_width as int, bpp8, mapping_1d),
{
    let tile_x = x / 8;
    let tile_y = y / 8;
    let pixel_x = x % 8;
    let pixel_y = y % 8;
    let tile_width = obj_width / 8;
    let slot_step: usize = if bpp8 {
        2
    } else {
        1
    };
    let row_stride = if mapping_1d {
        tile_width * slot_step
    } else {
        32
    };
    let base_tile = if bpp8 {
        tile_id - tile_id % 2
    } else {
        tile_id
    };
    assert(tile_y * row_stride <= 8 * 32 && tile_x * slot_step <= 16) by (nonlinear_arith)
        requires
            tile_y < 8,
            row_stride <= 32,
            tile_x < 8,
            slot_step <= 2,
    ;
    let slot = base_tile + tile_y * row_stride + tile_x * slot_step;
    let tile_offset = OBJ_TILE_BASE + slot * 32;
    if bpp8 {
        byte_at(vram, tile_offset + pixel_y * 8 + pixel_x)
    } else {
        let packed = byte_at(vram, tile_offset + pixel_y * 4 + pixel_x / 2);
        if pixel_x % 2 == 0 {
            packed % 16
        } else {
            packed / 16
        }
    }
}

/// The colour of sprite pixel (`x`, `y`), `None` where it is transparent
/// (palette index 0). Eight-bit sprites index the sprite palette directly;
/// four-bit ones index 16-colour bank `palette_bank` of it.
fn fetch_obj_pixel(
    vram: &[u8],
    palette: &[u8],
    tile_id: usize,
    x: usize,
    y: usize,
    obj_width: usize,
    bpp8: bool,
    mapping_1d: bool,
    palette_bank: usize,
) -> (r: Option<u16>)
    requires
        tile_id < 1024,
        x < 64,
        y < 64,
        obj_width <= 64,
        palette_bank < 16,
    ensures
        ({
            let index = obj_texel(vram@, tile_id as int, x as int, y as int, obj_width as int, bpp8, mapping_1d);
            &&& index == 0 ==> r is None
            &&& index != 0 && bpp8 ==> r == Some(palette_color(palette@, OBJ_PALETTE_BASE + index))
            &&& index != 0 && !bpp8 ==> r == Some(
                palette_color(palette@, OBJ_PALETTE_BASE + palette_bank * 16 + index),
            )
        }),
{
    let index = obj_palette_index(vram, tile_id, x, y, obj_width, bpp8, mapping_1d);
    if index == 0 {
        None
    } else if bpp8 {
        Some(read_palette_color(palette, OBJ_PALETTE_BASE + index as usize))
    } else {
        Some(read_palette_color(palette, OBJ_PALETTE_BASE + palette_bank * 16 + index as usize))
    }
}

/// Where sprite `obj_index` samples itself for column `screen_x` of
/// scanline `y`: the sprite column and row after flipping, and the
/// sprite's width; `None` where the sprite does not cover that pixel.
fn sprite_sample(oam: &[u8], obj_index: usize, screen_x: i32, y: usize) -> (r: Option<(usize, usize, usize)>)
    requires
        obj_index < OBJ_COUNT,
        y < SCREEN_HEIGHT,
        0 <= screen_x < SCREEN_WIDTH,
    ensures
        ({
            let (a0, a1, a2) = oam_attrs(oam@, obj_index as int);
            match r {
                None => forall|v: Seq<u8>, m: bool|
                    #[trigger] obj_index_at(oam@, v, m, obj_index as int, screen_x as int, y as int) == 0,
                Some((sx, sy, w)) => sx < 64 && sy < 64 && w <= 64 && forall|v: Seq<u8>, m: bool|
                    #[trigger] obj_index_at(oam@, v, m, obj_index as int, screen_x as int, y as int)
                        == obj_texel(v, (a2 % 1024) as int, sx as int, sy as int, w as int, a0 & 0x2000 != 0, m),
            }
        }),
{
    let offset = obj_index * OAM_ENTRY_SIZE;
    let attr0 = read_u16(oam, offset);
    let attr1 = read_u16(oam, offset + 2);
    let (width, height) = match obj_dimensions(attr0, attr1) {
        Some(d) => d,
        None => {
            return None;
        },
    };
    let ox = obj_screen_x(attr1);
    let oy = obj_screen_y(attr0);
    let yy = y as i32;
    if yy < oy || yy >= oy + height as i32 || screen_x < ox || screen_x >= ox + width as i32 {
        return None;
    }
    let col = (screen_x - ox) as usize;
    let row = (yy - oy) as usize;
    let sx = if (attr1 & 0x1000) != 0 {
        width - 1 - col
    } else {
        col
    };
    let sy = if (attr1 & 0x2000) != 0 {
        height - 1 - row
    } else {
        row
    };
    Some((sx, sy, width))
}

/// Whether sprite `obj_index` (of a known shape) spans scanline `y`; a
/// sprite that does not shows nothing on it.
fn obj_on_line(oam: &[u8], obj_index: usize, y: usize) -> (r: bool)
    requires
        obj_index < OBJ_COUNT,
        y < SCREEN_HEIGHT,
    ensures
        r == obj_spans_line(oam@, obj_index as int, y as int),
        !r ==> forall|v: Seq<u8>, m: bool, x: int|
            #[trigger] obj_index_at(oam@, v, m, obj_index as int, x, y as int) == 0,
{
    let offset = obj_index * OAM_ENTRY_SIZE;
    let attr0 = read_u16(oam, offset);
    let attr1 = read_u16(oam, offset + 2);
    match obj_dimensions(attr0, attr1) {
        Some((_width, height)) => {
            let oy = obj_screen_y(attr0);
            let yy = y as i32;
            yy >= oy && yy < oy + height as i32
        },
        None => false,
    }
}

/// The palette index sprite `obj_index` shows at column `screen_x` of
/// scanline `y`, 0 where it shows nothing; see `obj_index_at`.
fn sprite_index_at(
    oam: &[u8],
    vram: &[u8],
    mapping_1d: bool,
    obj_index: usize,
    screen_x: i32,
    y: usize,
) -> (r: u8)
    requires
        obj_index < OBJ_COUNT,
        y < SCREEN_HEIGHT,
        0 <= screen_x < SCREEN_WIDTH,
    ensures
        r == obj_index_at(oam@, vram@, mapping_1d, obj_index as int, screen_x as int, y as int),
{
    match sprite_sample(oam, obj_index, screen_x, y) {
        None => 0,
        Some((sx, sy, width)) => {
            let offset = obj_index * OAM_ENTRY_SIZE;
            let attr0 = read_u16(oam, offset);
            let attr2 = read_u16(oam, offset + 4);
            obj_palette_index(vram, (attr2 % 1024) as usize, sx, sy, width, (attr0 & 0x2000) != 0, mapping_1d)
        },
    }
}

/// Draw the sprites of scanline `y` into the sprite layer; see `obj_pixel`.
pub fn render_obj_layer(
    layer: &mut [LayerPixel; SCREEN_WIDTH],
    io: &IoRegs,
    vram: &[u8],
    palette: &[u8],
    oam: &[u8],
    y: usize,
)
    requires
        y < SCREEN_HEIGHT,
    ensures
        forall|x: int|
            0 <= x < SCREEN_WIDTH ==> final(layer)@[x] == obj_pixel(
                io@,
                vram@,
                palette@,
                oam@,
                x,
                y as int,
            ),
{
    clear_layer(layer, 4, 0xff);
    if !io.obj_enabled() {
        return;
    }
    let mapping_1d = io.obj_mapping_1d();
    let mut obj_index: usize = 0;
    while obj_index < OBJ_COUNT
        invariant
            obj_index <= OBJ_COUNT,
            y < SCREEN_HEIGHT,
            mapping_1d == (io@.dispcnt & 0x0040 != 0),
            forall|x: int|
                0 <= x < SCREEN_WIDTH ==> layer@[x] == obj_pixel_upto(
                    io@,
                    vram@,
                    palette@,
                    oam@,
                    x,
                    y as int,
                    obj_index as int,
                ),
        decreases OBJ_COUNT - obj_index,
    {
        let offset = obj_index * OAM_ENTRY_SIZE;
        let attr0 = read_u16(oam, offset);
        let attr2 = read_u16(oam, offset + 4);
        if regular_obj_visible(attr0) && obj_on_line(oam, obj_index, y) {
            let priority = ((attr2 / 1024) % 4) as u8;
            let bank = (attr2 / 4096) as usize;
            let mut x: usize = 0;
            while x < SCREEN_WIDTH
                invariant
                    x <= SCREEN_WIDTH,
                    obj_index < OBJ_COUNT,
                    y < SCREEN_HEIGHT,
                    mapping_1d == (io@.dispcnt & 0x0040 != 0),
                    oam_attrs(oam@, obj_index as int).0 == attr0,
                    oam_attrs(oam@, obj_index as int).2 == attr2,
                    regular_visible(attr0),
                    priority == ((attr2 / 1024) % 4) as u8,
                    bank == attr2 / 4096,
                    forall|i: int|
                        0 <= i < SCREEN_WIDTH ==> layer@[i] == (if i < x {
                            obj_pixel_upto(io@, vram@, palette@, oam@, i, y as int, obj_index + 1)
                        } else {
                            obj_pixel_upto(io@, vram@, palette@, oam@, i, y as int, obj_index as int)
                        }),
                decreases SCREEN_WIDTH - x,
            {
                let color = match sprite_sample(oam, obj_index, x as i32, y) {
                    None => None,
                    Some((sx, sy, width)) => fetch_obj_pixel(
                        vram,
                        palette,
                        (attr2 % 1024) as usize,
                        sx,
                        sy,
                        width,
                        (attr0 & 0x2000) != 0,
                        mapping_1d,
                        bank,
                    ),
                };
                if let Some(color) = color {
                    let pixel = layer[x];
                    let order = obj_index as u8;
                    if pixel.transparent || priority < pixel.priority || (priority == pixel.priority
                        && order < pixel.order) {
                        layer[x] = LayerPixel::opaque(color, priority, order);
                    }
                }
                x = x + 1;
            }
        } else {
            assert forall|x: int| 0 <= x < SCREEN_WIDTH implies layer@[x] == obj_pixel_upto(
                io@,
                vram@,
                palette@,
                oam@,
                x,
                y as int,
                obj_index + 1,
            ) by {
                assert(obj_index_at(oam@, vram@, mapping_1d, obj_index as int, x, y as int) == 0 || !regular_visible(attr0));
            }
        }
        obj_index = obj_index + 1;
    }
}

/// The sprite window of scanline `y`; see `obj_window_mask_spec`.
pub fn render_obj_window_mask(io: &IoRegs, vram: &[u8], oam: &[u8], y: usize) -> (r: [bool;
    SCREEN_WIDTH])
    requires
        y < SCREEN_HEIGHT,
    ensures
        r@ == obj_window_mask_spec(io@, vram@, oam@, y as int),
{
    let mut mask = [false; SCREEN_WIDTH];
    if !io.obj_enabled() {
        assert(mask@ =~= obj_window_mask_spec(io@, vram@, oam@, y as int));
        return mask;
    }
    let mapping_1d = io.obj_mapping_1d();
    let mut obj_index: usize = 0;
    while obj_index < OBJ_COUNT
        invariant
            obj_index <= OBJ_COUNT,
            y < SCREEN_HEIGHT,
            io@.dispcnt & 0x1000 != 0,
            mapping_1d == (io@.dispcnt & 0x0040 != 0),
            forall|x: int|
                0 <= x < SCREEN_WIDTH ==> mask@[x] == obj_window_upto(
                    io@,
                    vram@,
                    oam@,
                    x,
                    y as int,
                    obj_index as int,
                ),
        decreases OBJ_COUNT - obj_index,
    {
        let attr0 = read_u16(oam, obj_index * OAM_ENTRY_SIZE);
        if window_obj_visible(attr0) && obj_on_line(oam, obj_index, y) {
            let mut x: usize = 0;
            while x < SCREEN_WIDTH
                invariant
                    x <= SCREEN_WIDTH,
                    obj_index < OBJ_COUNT,
                    y < SCREEN_HEIGHT,
                    mapping_1d == (io@.dispcnt & 0x0040 != 0),
                    oam_attrs(oam@, obj_index as int).0 == attr0,
                    window_sprite(attr0),
                    forall|i: int|
                        0 <= i < SCREEN_WIDTH ==> mask@[i] == (if i < x {
                            obj_window_upto(io@, vram@, oam@, i, y as int, obj_index + 1)
                        } else {
                            obj_window_upto(io@, vram@, oam@, i, y as int, obj_index as int)
                        }),
                decreases SCREEN_WIDTH - x,
            {
                if sprite_index_at(oam, vram, mapping_1d, obj_index, x as i32, y) != 0 {
                    mask[x] = true;
                }
                x = x + 1;
            }
        } else {
            assert forall|x: int| 0 <= x < SCREEN_WIDTH implies mask@[x] == obj_window_upto(
                io@,
                vram@,
                oam@,
                x,
                y as int,
                obj_index + 1,
            ) by {
                assert(obj_index_at(oam@, vram@, mapping_1d, obj_index as int, x, y as int) == 0 || !window_sprite(attr0));
            }
        }
        obj_index = obj_index + 1;
    }
    assert(mask@ =~= obj_window_mask_spec(io@, vram@, oam@, y as int));
    mask
}

} // verus!
