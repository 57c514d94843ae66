//! Tiled backgrounds: scrolling text backgrounds of 4- or 8-bit tiles
//! (modes 0 and 1), and rotated/scaled affine backgrounds (modes 1 and 2).
use vstd::prelude::*;

use crate::io::{lemma_control_fields, sign_extend28, IoRegs, IoView};

use super::compose::{
    bg_order, bg_pixel, clear_layer, compose_bg_layers_scanline, frontmost, lemma_frontmost_ext,
    LayerPixel, BG_LAYER_COUNT,
};
use super::obj::le16_or_zero;
use super::{
    backdrop_color, byte_at, byte_or_zero, palette_color, read_palette_color, with_line,
    FRAME_PIXELS, SCREEN_HEIGHT, SCREEN_WIDTH,
};

verus! {

/// The size of one screen-map block in VRAM.
pub const SCREEN_BLOCK_SIZE: usize = 0x0800;

/// The size of one tile-data block in VRAM.
pub const CHAR_BLOCK_SIZE: usize = 0x4000;

/// The width and height in pixels of a text background of size `size`.
pub open spec fn text_dims(size: u8) -> (int, int) {
    let s = size % 4;
    if s == 0 {
        (256, 256)
    } else if s == 1 {
        (512, 256)
    } else if s == 2 {
        (256, 512)
    } else {
        (512, 512)
    }
}

/// The side in pixels of an affine background of size `size`.
pub open spec fn affine_dim(size: u8) -> int {
    let s = size % 4;
    if s == 0 {
        128
    } else if s == 1 {
        256
    } else if s == 2 {
        512
    } else {
        1024
    }
}

/// The screen-map entry of text-background pixel (`x`, `y`): maps are
/// 32x32-tile blocks, laid side by side for the wide sizes and one under
/// the other for the tall sizes.
pub open spec fn screen_entry(vram: Seq<u8>, screen_base: int, size: u8, x: int, y: int) -> u16 {
    let tile_x = x / 8;
    let tile_y = y / 8;
    let s = size % 4;
    let blocks_wide = if s == 1 || s == 3 {
        2int
    } else {
        1int
    };
    let block_x = if s == 1 || s == 3 {
        tile_x / 32
    } else {
        0
    };
    let block_y = if s == 2 || s == 3 {
        tile_y / 32
    } else {
        0
    };
    let block = block_y * blocks_wide + block_x;
    le16_or_zero(
        vram,
        screen_base + block * SCREEN_BLOCK_SIZE + ((tile_y % 32) * 32 + tile_x % 32) * 2,
    )
}

/// The colour of pixel (`tile_x`, `tile_y`) of a 4-bit tile, `None` for
/// palette index 0.
pub open spec fn tile4_color(
    vram: Seq<u8>,
    palette: Seq<u8>,
    char_base: int,
    tile_index: int,
    tile_x: int,
    tile_y: int,
    bank: int,
) -> Option<u16> {
    let packed = byte_or_zero(vram, char_base + tile_index * 32 + tile_y * 4 + tile_x / 2);
    let index = if tile_x % 2 == 0 {
        packed % 16
    } else {
        packed / 16
    };
    if index == 0 {
        None
    } else {
        Some(palette_color(palette, bank * 16 + index))
    }
}

/// The colour of pixel (`tile_x`, `tile_y`) of an 8-bit tile, `None` for
/// palette index 0.
pub open spec fn tile8_color(
    vram: Seq<u8>,
    palette: Seq<u8>,
    char_base: int,
    tile_index: int,
    tile_x: int,
    tile_y: int,
) -> Option<u16> {
    let index = byte_or_zero(vram, char_base + tile_index * 64 + tile_y * 8 + tile_x);
    if index == 0 {
        None
    } else {
        Some(palette_color(palette, index as int))
    }
}

/// How tiles lie in character memory: a 4-bit tile takes 32 bytes, four
/// per row, each byte holding two pixels, the left one of the pair (even
/// column) in its low nibble and the right one in its high nibble; an
/// 8-bit tile takes 64 bytes, eight per row, one per pixel. So the next
/// tile, or the next row, of a tile is the same pixel of the tile that
/// starts that many bytes later.
pub proof fn lemma_tile_layout(
    vram: Seq<u8>,
    palette: Seq<u8>,
    char_base: int,
    tile: int,
    x: int,
    y: int,
    bank: int,
)
    requires
        0 <= x,
        x % 2 == 0,
    ensures
        tile4_color(vram, palette, char_base, tile + 1, x, y, bank) == tile4_color(vram, palette, char_base + 32, tile, x, y, bank),
        tile4_color(vram, palette, char_base, tile, x, y + 1, bank) == tile4_color(vram, palette, char_base + 4, tile, x, y, bank),
        tile8_color(vram, palette, char_base, tile + 1, x, y) == tile8_color(vram, palette, char_base + 64, tile, x, y),
        tile8_color(vram, palette, char_base, tile, x, y + 1) == tile8_color(vram, palette, char_base + 8, tile, x, y),
        ({
            let packed = byte_or_zero(vram, char_base + tile * 32 + y * 4 + x / 2);
            &&& tile4_color(vram, palette, char_base, tile, x, y, bank) == (if packed % 16 == 0 { None } else {
                Some(palette_color(palette, bank * 16 + packed % 16))
            })
            &&& tile4_color(vram, palette, char_base, tile, x + 1, y, bank) == (if packed / 16 == 0 { None } else {
                Some(palette_color(palette, bank * 16 + packed / 16))
            })
        }),
{
    assert((tile + 1) * 32 == tile * 32 + 32) by (nonlinear_arith);
    assert((tile + 1) * 64 == tile * 64 + 64) by (nonlinear_arith);
    assert((y + 1) * 4 == y * 4 + 4) by (nonlinear_arith);
    assert((y + 1) * 8 == y * 8 + 8) by (nonlinear_arith);
    assert((x + 1) / 2 == x / 2);
    assert((x + 1) % 2 == 1);
}

/// The priority of background `bg`.
pub open spec fn bg_priority_spec(io: IoView, bg: int) -> u8 {
    (io.bg_control[bg] & 3) as u8
}

/// Background `bg` cleared: transparent, with its priority and order.
pub open spec fn blank_pixel(io: IoView, bg: int) -> LayerPixel {
    LayerPixel {
        color: 0,
        priority: bg_priority_spec(io, bg),
        order: (0x80 + bg) as u8,
        transparent: true,
    }
}

/// Whether DISPCNT enables background `bg`.
pub open spec fn bg_on(io: IoView, bg: int) -> bool {
    (io.dispcnt >> (8 + bg) as u16) & 1 != 0
}

/// The colour of text background `bg` at screen pixel (`x`, `y`): the
/// scrolled position wrapped to the background's size, its map entry
/// selecting the tile, flips (entry bits 10-11) and, for 4-bit tiles, the
/// palette bank (bits 12-15).
pub open spec fn text_color(
    io: IoView,
    vram: Seq<u8>,
    palette: Seq<u8>,
    bg: int,
    x: int,
    y: int,
) -> Option<u16> {
    let cnt = io.bg_control[bg];
    let size = ((cnt >> 14u16) & 3) as u8;
    let (w, h) = text_dims(size);
    let wy = (y + io.bg_vofs[bg]) % h;
    let wx = (x + io.bg_hofs[bg]) % w;
    let char_base = ((cnt >> 2u16) & 3) * CHAR_BLOCK_SIZE;
    let screen_base = ((cnt >> 8u16) & 0x1f) * SCREEN_BLOCK_SIZE;
    let entry = screen_entry(vram, screen_base, size, wx, wy);
    let tile_x = if entry & 0x0400 != 0 {
        7 - wx % 8
    } else {
        wx % 8
    };
    let tile_y = if entry & 0x0800 != 0 {
        7 - wy % 8
    } else {
        wy % 8
    };
    if cnt & 0x0080 != 0 {
        tile8_color(vram, palette, char_base, (entry % 1024) as int, tile_x, tile_y)
    } else {
        tile4_color(
            vram,
            palette,
            char_base,
            (entry % 1024) as int,
            tile_x,
            tile_y,
            (entry / 4096) as int,
        )
    }
}

/// Where screen column `x` falls in the map of text background `bg`: the
/// column scrolled by the background's horizontal offset and wrapped to its
/// width.
pub open spec fn text_map_x(io: IoView, bg: int, x: int) -> int {
    let (w, _h) = text_dims(((io.bg_control[bg] >> 14u16) & 3) as u8);
    (x + io.bg_hofs[bg]) % w
}

/// The map entry text background `bg` uses at screen pixel (`x`, `y`).
pub open spec fn text_entry_at(io: IoView, vram: Seq<u8>, bg: int, x: int, y: int) -> u16 {
    let cnt = io.bg_control[bg];
    let size = ((cnt >> 14u16) & 3) as u8;
    let (_w, h) = text_dims(size);
    let screen_base = ((cnt >> 8u16) & 0x1f) * SCREEN_BLOCK_SIZE;
    screen_entry(vram, screen_base, size, text_map_x(io, bg, x), (y + io.bg_vofs[bg]) % h)
}

/// A horizontally flipped tile shows the mirror image of the same tile
/// unflipped: where two map entries of one text-background row differ only
/// in the flip bit (bit 10), set in the second, the pixel at tile column `c`
/// of the first shows what the pixel at column `7 - c` of the second shows.
pub proof fn lemma_text_hflip_mirrors(
    io: IoView,
    vram: Seq<u8>,
    palette: Seq<u8>,
    bg: int,
    x1: int,
    x2: int,
    y: int,
)
    requires
        text_map_x(io, bg, x1) % 8 + text_map_x(io, bg, x2) % 8 == 7,
        text_entry_at(io, vram, bg, x1, y) & 0x0400 == 0,
        text_entry_at(io, vram, bg, x2, y) == text_entry_at(io, vram, bg, x1, y) | 0x0400,
    ensures
        text_color(io, vram, palette, bg, x2, y) == text_color(io, vram, palette, bg, x1, y),
{
    crate::io::lemma_halfword_bits(text_entry_at(io, vram, bg, x1, y));
}

/// Scrolling a text background: raising its horizontal offset by one shows
/// at each column what the column to its right showed, and raising its
/// vertical offset by one shows at each row what the row below showed.
pub proof fn lemma_text_scroll(io: IoView, vram: Seq<u8>, palette: Seq<u8>, bg: int, x: int, y: int)
    requires
        0 <= bg < 4,
        io.bg_hofs.len() == 4,
        io.bg_vofs.len() == 4,
        io.bg_hofs[bg] < 0xffff,
        io.bg_vofs[bg] < 0xffff,
    ensures
        text_color(IoView { bg_hofs: io.bg_hofs.update(bg, (io.bg_hofs[bg] + 1) as u16), ..io }, vram, palette, bg, x, y)
            == text_color(io, vram, palette, bg, x + 1, y),
        text_color(IoView { bg_vofs: io.bg_vofs.update(bg, (io.bg_vofs[bg] + 1) as u16), ..io }, vram, palette, bg, x, y)
            == text_color(io, vram, palette, bg, x, y + 1),
{
    let io_h = IoView { bg_hofs: io.bg_hofs.update(bg, (io.bg_hofs[bg] + 1) as u16), ..io };
    let io_v = IoView { bg_vofs: io.bg_vofs.update(bg, (io.bg_vofs[bg] + 1) as u16), ..io };
    assert(x + io_h.bg_hofs[bg] == x + 1 + io.bg_hofs[bg]);
    assert(y + io_v.bg_vofs[bg] == y + 1 + io.bg_vofs[bg]);
}

/// A text background's map wraps around: 256 pixels wide for screen sizes
/// 0 and 2 and 512 for 1 and 3, 256 high for sizes 0 and 1 and 512 for 2
/// and 3 (the size in control bits 14-15); a column one width further, or a
/// row one height further, shows the same pixel.
pub proof fn lemma_text_wraps(io: IoView, vram: Seq<u8>, palette: Seq<u8>, bg: int, x: int, y: int)
    ensures
        ({
            let size = ((io.bg_control[bg] >> 14u16) & 3) as u8;
            let w: int = if size == 0 || size == 2 { 256 } else { 512 };
            let h: int = if size == 0 || size == 1 { 256 } else { 512 };
            &&& text_color(io, vram, palette, bg, x + w, y) == text_color(io, vram, palette, bg, x, y)
            &&& text_color(io, vram, palette, bg, x, y + h) == text_color(io, vram, palette, bg, x, y)
        }),
{
    let size = ((io.bg_control[bg] >> 14u16) & 3) as u8;
    crate::io::lemma_control_fields(io.bg_control[bg]);
    let (w, h) = text_dims(size);
    vstd::arithmetic::div_mod::lemma_mod_add_multiples_vanish(x + io.bg_hofs[bg], w);
    vstd::arithmetic::div_mod::lemma_mod_add_multiples_vanish(y + io.bg_vofs[bg], h);
    assert(x + w + io.bg_hofs[bg] == (x + io.bg_hofs[bg]) + w);
    assert(y + h + io.bg_vofs[bg] == (y + io.bg_vofs[bg]) + h);
}

/// Where screen row `y` falls in the map of text background `bg`: the row
/// scrolled by the background's vertical offset and wrapped to its height.
pub open spec fn text_map_y(io: IoView, bg: int, y: int) -> int {
    let (_w, h) = text_dims(((io.bg_control[bg] >> 14u16) & 3) as u8);
    (y + io.bg_vofs[bg]) % h
}

/// A vertically flipped tile shows the upside-down image of the same tile
/// unflipped: where two map entries of one text-background column differ
/// only in the vertical flip bit (bit 11), set in the second, the pixel at
/// tile row `r` of the first shows what the pixel at row `7 - r` of the
/// second shows.
pub proof fn lemma_text_vflip_mirrors(
    io: IoView,
    vram: Seq<u8>,
    palette: Seq<u8>,
    bg: int,
    x: int,
    y1: int,
    y2: int,
)
    requires
        text_map_y(io, bg, y1) % 8 + text_map_y(io, bg, y2) % 8 == 7,
        text_entry_at(io, vram, bg, x, y1) & 0x0800 == 0,
        text_entry_at(io, vram, bg, x, y2) == text_entry_at(io, vram, bg, x, y1) | 0x0800,
    ensures
        text_color(io, vram, palette, bg, x, y2) == text_color(io, vram, palette, bg, x, y1),
{
    crate::io::lemma_halfword_bits(text_entry_at(io, vram, bg, x, y1));
}

/// Text background `bg`'s pixel at (`x`, `y`).
pub open spec fn text_pixel(
    io: IoView,
    vram: Seq<u8>,
    palette: Seq<u8>,
    bg: int,
    x: int,
    y: int,
) -> LayerPixel {
    if !bg_on(io, bg) {
        blank_pixel(io, bg)
    } else {
        match text_color(io, vram, palette, bg, x, y) {
            Some(c) => LayerPixel { color: c, transparent: false, ..blank_pixel(io, bg) },
            None => blank_pixel(io, bg),
        }
    }
}

/// A texture coordinate (in whole pixels) inside an affine background of
/// side `dim`: wrapped when `wrap`, else `None` outside it.
pub open spec fn affine_coord(v: int, dim: int, wrap: bool) -> Option<int> {
    if wrap {
        Some(v % dim)
    } else if 0 <= v < dim {
        Some(v)
    } else {
        None
    }
}

/// The colour of affine background `bg` (2 or 3) at screen pixel (`x`,
/// `y`): the texture position is the reference point plus the matrix
/// applied to (`x`, `y`), in 8-bit fixed point; the map holds one byte per
/// tile and tiles are 8-bit.
pub open spec fn affine_color(
    io: IoView,
    vram: Seq<u8>,
    palette: Seq<u8>,
    bg: int,
    x: int,
    y: int,
) -> Option<u16> {
    let k = bg - 2;
    let cnt = io.bg_control[bg];
    let dim = affine_dim(((cnt >> 14u16) & 3) as u8);
    let wrap = cnt & 0x2000 != 0;
    let tex_x = (sign_extend28(io.bg_x[k]) + (io.bg_pa[k] as i16) * x + (io.bg_pb[k] as i16) * y)
        / 256;
    let tex_y = (sign_extend28(io.bg_y[k]) + (io.bg_pc[k] as i16) * x + (io.bg_pd[k] as i16) * y)
        / 256;
    match (affine_coord(tex_x, dim, wrap), affine_coord(tex_y, dim, wrap)) {
        (Some(tx), Some(ty)) => {
            let char_base = ((cnt >> 2u16) & 3) * CHAR_BLOCK_SIZE;
            let screen_base = ((cnt >> 8u16) & 0x1f) * SCREEN_BLOCK_SIZE;
            let tile = byte_or_zero(vram, screen_base + (ty / 8) * (dim / 8) + tx / 8);
            tile8_color(vram, palette, char_base, tile as int, tx % 8, ty % 8)
        },
        _ => None,
    }
}

/// Affine background `bg`'s pixel at (`x`, `y`).
pub open spec fn affine_pixel(
    io: IoView,
    vram: Seq<u8>,
    palette: Seq<u8>,
    bg: int,
    x: int,
    y: int,
) -> LayerPixel {
    if !bg_on(io, bg) {
        blank_pixel(io, bg)
    } else {
        match affine_color(io, vram, palette, bg, x, y) {
            Some(c) => LayerPixel { color: c, transparent: false, ..blank_pixel(io, bg) },
            None => blank_pixel(io, bg),
        }
    }
}

fn text_bg_dimensions(size: u8) -> (r: (usize, usize))
    ensures
        r.0 == text_dims(size).0,
        r.1 == text_dims(size).1,
{
    let s = size % 4;
    if s == 0 {
        (256, 256)
    } else if s == 1 {
        (512, 256)
    } else if s == 2 {
        (256, 512)
    } else {
        (512, 512)
    }
}

fn affine_bg_dimension(size: u8) -> (r: usize)
    ensures
        r == affine_dim(size),
{
    let s = size % 4;
    if s == 0 {
        128
    } else if s == 1 {
        256
    } else if s == 2 {
        512
    } else {
        1024
    }
}

fn read_u16(slice: &[u8], offset: usize) -> (r: u16)
    requires
        offset < usize::MAX,
    ensures
        r == le16_or_zero(slice@, offset as int),
{
    let lo = byte_at(slice, offset) as u16;
    let hi = byte_at(slice, offset + 1) as u16;
    lo | (hi << 8u16)
}

fn read_screen_entry(vram: &[u8], screen_base: usize, size: u8, x: usize, y: usize) -> (r: u16)
    requires
        screen_base <= 0x10000,
        x < 512,
        y < 512,
    ensures
        r == screen_entry(vram@, screen_base as int, size, x as int, y as int),
{
    let tile_x = x / 8;
    let tile_y = y / 8;
    let s = size % 4;
    let blocks_wide: usize = if s == 1 || s == 3 {
        2
    } else {
        1
    };
    let block_x: usize = if s == 1 || s == 3 {
        tile_x / 32
    } else {
        0
    };
    let block_y: usize = if s == 2 || s == 3 {
        tile_y / 32
    } else {
        0
    };
    let block = block_y * blocks_wide + block_x;
    read_u16(vram, screen_base + block * SCREEN_BLOCK_SIZE + ((tile_y % 32) * 32 + tile_x % 32) * 2)
}

fn fetch_4bpp_tile_color(
    vram: &[u8],
    palette: &[u8],
    char_base: usize,
    tile_index: usize,
    tile_x: usize,
    tile_y: usize,
    palette_bank: usize,
) -> (r: Option<u16>)
    requires
        char_base <= 0xc000,
        tile_index < 1024,
        tile_x < 8,
        tile_y < 8,
        palette_bank < 16,
    ensures
        r == tile4_color(
            vram@,
            palette@,
            char_base as int,
            tile_index as int,
            tile_x as int,
            tile_y as int,
            palette_bank as int,
        ),
{
    let packed = byte_at(vram, char_base + tile_index * 32 + tile_y * 4 + tile_x / 2);
    let index = if tile_x % 2 == 0 {
        packed % 16
    } else {
        packed / 16
    };
    if index == 0 {
        None
    } else {
        Some(read_palette_color(palette, palette_bank * 16 + index as usize))
    }
}

fn fetch_8bpp_tile_color(
    vram: &[u8],
    palette: &[u8],
    char_base: usize,
    tile_index: usize,
    tile_x: usize,
    tile_y: usize,
) -> (r: Option<u16>)
    requires
        char_base <= 0xc000,
        tile_index < 1024,
        tile_x < 8,
        tile_y < 8,
    ensures
        r == tile8_color(
            vram@,
            palette@,
            char_base as int,
            tile_index as int,
            tile_x as int,
            tile_y as int,
        ),
{
    let index = byte_at(vram, char_base + tile_index * 64 + tile_y * 8 + tile_x);
    if index == 0 {
        None
    } else {
        Some(read_palette_color(palette, index as usize))
    }
}

/// `v / 256` rounded down (an arithmetic shift right by eight).
fn floor_div_256(v: i64) -> (r: i64)
    requires
        -0x1_0000_0000 < v < 0x1_0000_0000,
    ensures
        r == v / 256,
        -0x100_0000 <= r < 0x100_0000,
{
    let shifted = (v + 0x100_0000_0000) as u64;
    (shifted / 256) as i64 - 0x1_0000_0000
}

/// A texture coordinate placed in an affine background; see
/// `affine_coord`.
fn normalize_affine_coord(v: i64, dimension: usize, wrap: bool) -> (r: Option<usize>)
    requires
        dimension == 128 || dimension == 256 || dimension == 512 || dimension == 1024,
        -0x1_0000_0000 < v < 0x1_0000_0000,
    ensures
        match affine_coord(v as int, dimension as int, wrap) {
            Some(c) => r == Some(c as usize),
            None => r is None,
        },
        r matches Some(c) ==> c < dimension,
{
    if wrap {
        let shifted = (v + 0x100_0000_0000) as u64;
        let rem = shifted % (dimension as u64);
        assert(rem as int == (v as int) % (dimension as int)) by {
            let d = dimension as int;
            let k = 0x100_0000_0000int / d;
            assert(0x100_0000_0000int == d * k);
            vstd::arithmetic::div_mod::lemma_mod_multiples_vanish(k, v as int, d);
        }
        Some(rem as usize)
    } else if 0 <= v && v < dimension as i64 {
        Some(v as usize)
    } else {
        None
    }
}

/// Both texture coordinates placed in an affine background, `None` if
/// either falls outside it; see `affine_coord`.
fn normalize_affine_coords(x: i64, y: i64, dimension: usize, wrap: bool) -> (r: Option<(usize, usize)>)
    requires
        dimension == 128 || dimension == 256 || dimension == 512 || dimension == 1024,
        -0x1_0000_0000 < x < 0x1_0000_0000,
        -0x1_0000_0000 < y < 0x1_0000_0000,
    ensures
        match (affine_coord(x as int, dimension as int, wrap), affine_coord(y as int, dimension as int, wrap)) {
            (Some(cx), Some(cy)) => r == Some((cx as usize, cy as usize)),
            _ => r is None,
        },
        r matches Some((cx, cy)) ==> cx < dimension && cy < dimension,
{
    match (normalize_affine_coord(x, dimension, wrap), normalize_affine_coord(y, dimension, wrap)) {
        (Some(cx), Some(cy)) => Some((cx, cy)),
        _ => None,
    }
}

/// The tile number at texture pixel (`x`, `y`) of an affine map at
/// `screen_base`: one byte per tile, `dimension / 8` tiles a row.
fn read_affine_screen_entry(vram: &[u8], screen_base: usize, dimension: usize, x: usize, y: usize) -> (r: usize)
    requires
        dimension <= 1024,
        x < dimension,
        y < dimension,
        screen_base <= 31 * 0x800,
    ensures
        r == byte_or_zero(vram@, screen_base + (y / 8) * (dimension / 8) + x / 8),
{
    assert((y / 8) * (dimension / 8) <= 128 * 128) by (nonlinear_arith)
        requires
            y < dimension,
            dimension <= 1024,
    ;
    byte_at(vram, screen_base + (y / 8) * (dimension / 8) + x / 8) as usize
}

/// Draw text background `bg_index` of scanline `y` into `layer`; see
/// `text_pixel`.
fn render_text_bg_layer(
    layer: &mut [LayerPixel; SCREEN_WIDTH],
    io: &IoRegs,
    vram: &[u8],
    palette: &[u8],
    bg_index: usize,
    y: usize,
)
    requires
        bg_index < 4,
        y < SCREEN_HEIGHT,
    ensures
        forall|x: int|
            0 <= x < SCREEN_WIDTH ==> final(layer)@[x] == text_pixel(
                io@,
                vram@,
                palette@,
                bg_index as int,
                x,
                y as int,
            ),
{
    proof {
        io.lemma_valid();
    }
    let priority = io.bg_priority(bg_index);
    let order = bg_order(bg_index);
    clear_layer(layer, priority, order);
    if !io.bg_enabled(bg_index) {
        return;
    }
    proof {
        lemma_control_fields(io@.bg_control[bg_index as int]);
    }
    let hofs = io.bg_hofs(bg_index) as usize;
    let vofs = io.bg_vofs(bg_index) as usize;
    let size = io.bg_size(bg_index);
    let (bg_width, bg_height) = text_bg_dimensions(size);
    let wrapped_y = (y + vofs) % bg_height;
    let palette_256 = io.bg_palette_256(bg_index);
    let char_base = io.bg_char_base_block(bg_index) * CHAR_BLOCK_SIZE;
    let screen_base = io.bg_screen_base_block(bg_index) * SCREEN_BLOCK_SIZE;
    let mut x: usize = 0;
    while x < SCREEN_WIDTH
        invariant
            x <= SCREEN_WIDTH,
            bg_index < 4,
            y < SCREEN_HEIGHT,
            io@.valid(),
            bg_on(io@, bg_index as int),
            priority == bg_priority_spec(io@, bg_index as int),
            order == 0x80 + bg_index,
            hofs == io@.bg_hofs[bg_index as int],
            vofs == io@.bg_vofs[bg_index as int],
            size == ((io@.bg_control[bg_index as int] >> 14u16) & 3) as u8,
            bg_width == text_dims(size).0,
            bg_height == text_dims(size).1,
            wrapped_y == (y + vofs) as int % (bg_height as int),
            palette_256 == (io@.bg_control[bg_index as int] & 0x0080 != 0),
            char_base == ((io@.bg_control[bg_index as int] >> 2u16) & 3) * CHAR_BLOCK_SIZE,
            screen_base == ((io@.bg_control[bg_index as int] >> 8u16) & 0x1f) * SCREEN_BLOCK_SIZE,
            char_base <= 0xc000,
            screen_base <= 31 * 0x800,
            forall|i: int|
                0 <= i < SCREEN_WIDTH ==> layer@[i] == (if i < x {
                    text_pixel(io@, vram@, palette@, bg_index as int, i, y as int)
                } else {
                    blank_pixel(io@, bg_index as int)
                }),
        decreases SCREEN_WIDTH - x,
    {
        let wrapped_x = (x + hofs) % bg_width;
        let entry = read_screen_entry(vram, screen_base, size, wrapped_x, wrapped_y);
        let tile_index = (entry % 1024) as usize;
        let bank = (entry / 4096) as usize;
        let tile_x = if (entry & 0x0400) != 0 {
            7 - wrapped_x % 8
        } else {
            wrapped_x % 8
        };
        let tile_y = if (entry & 0x0800) != 0 {
            7 - wrapped_y % 8
        } else {
            wrapped_y % 8
        };
        let color = if palette_256 {
            fetch_8bpp_tile_color(vram, palette, char_base, tile_index, tile_x, tile_y)
        } else {
            fetch_4bpp_tile_color(vram, palette, char_base, tile_index, tile_x, tile_y, bank)
        };
        if let Some(c) = color {
            layer[x] = LayerPixel::opaque(c, priority, order);
        }
        x = x + 1;
    }
}

/// Draw affine background `bg_index` of scanline `y` into `layer`; see
/// `affine_pixel`.
fn render_affine_bg_layer(
    layer: &mut [LayerPixel; SCREEN_WIDTH],
    io: &IoRegs,
    vram: &[u8],
    palette: &[u8],
    bg_index: usize,
    y: usize,
)
    requires
        bg_index == 2 || bg_index == 3,
        y < SCREEN_HEIGHT,
    ensures
        forall|x: int|
            0 <= x < SCREEN_WIDTH ==> final(layer)@[x] == affine_pixel(
                io@,
                vram@,
                palette@,
                bg_index as int,
                x,
                y as int,
            ),
{
    proof {
        io.lemma_valid();
    }
    let priority = io.bg_priority(bg_index);
    let order = bg_order(bg_index);
    clear_layer(layer, priority, order);
    if !io.bg_enabled(bg_index) {
        return;
    }
    let (pa, pb, pc, pd) = match io.bg_affine_matrix(bg_index) {
        Some(m) => m,
        None => {
            return;
        },
    };
    let (ref_x, ref_y) = match io.bg_affine_ref_point(bg_index) {
        Some(p) => p,
        None => {
            return;
        },
    };
    proof {
        lemma_control_fields(io@.bg_control[bg_index as int]);
    }
    let dimension = affine_bg_dimension(io.bg_size(bg_index));
    let wrap = io.bg_wrap(bg_index);
    let char_base = io.bg_char_base_block(bg_index) * CHAR_BLOCK_SIZE;
    let screen_base = io.bg_screen_base_block(bg_index) * SCREEN_BLOCK_SIZE;
    let yy = y as i64;
    let mut x: usize = 0;
    while x < SCREEN_WIDTH
        invariant
            x <= SCREEN_WIDTH,
            bg_index == 2 || bg_index == 3,
            y < SCREEN_HEIGHT,
            yy == y,
            io@.valid(),
            bg_on(io@, bg_index as int),
            priority == bg_priority_spec(io@, bg_index as int),
            order == 0x80 + bg_index,
            pa == io@.bg_pa[bg_index - 2] as i16,
            pb == io@.bg_pb[bg_index - 2] as i16,
            pc == io@.bg_pc[bg_index - 2] as i16,
            pd == io@.bg_pd[bg_index - 2] as i16,
            ref_x == sign_extend28(io@.bg_x[bg_index - 2]),
            ref_y == sign_extend28(io@.bg_y[bg_index - 2]),
            dimension == affine_dim(((io@.bg_control[bg_index as int] >> 14u16) & 3) as u8),
            wrap == (io@.bg_control[bg_index as int] & 0x2000 != 0),
            char_base == ((io@.bg_control[bg_index as int] >> 2u16) & 3) * CHAR_BLOCK_SIZE,
            screen_base == ((io@.bg_control[bg_index as int] >> 8u16) & 0x1f) * SCREEN_BLOCK_SIZE,
            char_base <= 0xc000,
            screen_base <= 31 * 0x800,
            forall|i: int|
                0 <= i < SCREEN_WIDTH ==> layer@[i] == (if i < x {
                    affine_pixel(io@, vram@, palette@, bg_index as int, i, y as int)
                } else {
                    blank_pixel(io@, bg_index as int)
                }),
        decreases SCREEN_WIDTH - x,
    {
        let xx = x as i64;
        assert(-0x8000 * 240 <= pa * xx <= 0x8000 * 240 && -0x8000 * 240 <= pc * xx <= 0x8000 * 240)
            by (nonlinear_arith)
            requires
                -0x8000 <= pa < 0x8000,
                -0x8000 <= pc < 0x8000,
                0 <= xx < 240,
        ;
        assert(-0x8000 * 160 <= pb * yy <= 0x8000 * 160 && -0x8000 * 160 <= pd * yy <= 0x8000 * 160)
            by (nonlinear_arith)
            requires
                -0x8000 <= pb < 0x8000,
                -0x8000 <= pd < 0x8000,
                0 <= yy < 160,
        ;
        let tex_x = floor_div_256(ref_x as i64 + pa as i64 * xx + pb as i64 * yy);
        let tex_y = floor_div_256(ref_y as i64 + pc as i64 * xx + pd as i64 * yy);
        if let Some((tx, ty)) = normalize_affine_coords(tex_x, tex_y, dimension, wrap) {
            let tile = read_affine_screen_entry(vram, screen_base, dimension, tx, ty);
            if let Some(c) = fetch_8bpp_tile_color(vram, palette, char_base, tile, tx % 8, ty % 8) {
                layer[x] = LayerPixel::opaque(c, priority, order);
            }
        }
        x = x + 1;
    }
}

/// Four cleared background layers, each with its background's priority and
/// order.
fn blank_layers(io: &IoRegs) -> (r: [[LayerPixel; SCREEN_WIDTH]; BG_LAYER_COUNT])
    ensures
        forall|i: int, x: int|
            0 <= i < BG_LAYER_COUNT && 0 <= x < SCREEN_WIDTH ==> r@[i]@[x] == blank_pixel(io@, i),
{
    let mut layers = [[LayerPixel::transparent(3, 3); SCREEN_WIDTH]; BG_LAYER_COUNT];
    let mut i: usize = 0;
    while i < BG_LAYER_COUNT
        invariant
            i <= BG_LAYER_COUNT,
            forall|j: int, x: int|
                0 <= j < i && 0 <= x < SCREEN_WIDTH ==> layers@[j]@[x] == blank_pixel(io@, j),
        decreases BG_LAYER_COUNT - i,
    {
        proof {
            io.lemma_valid();
        }
        clear_layer(&mut layers[i], io.bg_priority(i), bg_order(i));
        i = i + 1;
    }
    layers
}

/// The four background layers of scanline `y` in mode 0: all text
/// backgrounds.
pub fn render_mode0_layers(io: &IoRegs, vram: &[u8], palette: &[u8], y: usize) -> (r: [[LayerPixel;
    SCREEN_WIDTH]; BG_LAYER_COUNT])
    requires
        y < SCREEN_HEIGHT,
    ensures
        forall|i: int, x: int|
            0 <= i < BG_LAYER_COUNT && 0 <= x < SCREEN_WIDTH ==> r@[i]@[x] == text_pixel(
                io@,
                vram@,
                palette@,
                i,
                x,
                y as int,
            ),
{
    let mut layers = blank_layers(io);
    let mut i: usize = 0;
    while i < BG_LAYER_COUNT
        invariant
            i <= BG_LAYER_COUNT,
            y < SCREEN_HEIGHT,
            forall|j: int, x: int|
                0 <= j < i && 0 <= x < SCREEN_WIDTH ==> layers@[j]@[x] == text_pixel(
                    io@,
                    vram@,
                    palette@,
                    j,
                    x,
                    y as int,
                ),
        decreases BG_LAYER_COUNT - i,
    {
        render_text_bg_layer(&mut layers[i], io, vram, palette, i, y);
        i = i + 1;
    }
    layers
}

/// The four background layers of scanline `y` in mode 1: text backgrounds
/// 0 and 1, affine background 2, background 3 cleared.
pub fn render_mode1_layers(io: &IoRegs, vram: &[u8], palette: &[u8], y: usize) -> (r: [[LayerPixel;
    SCREEN_WIDTH]; BG_LAYER_COUNT])
    requires
        y < SCREEN_HEIGHT,
    ensures
        forall|x: int|
            0 <= x < SCREEN_WIDTH ==> {
                &&& r@[0]@[x] == text_pixel(io@, vram@, palette@, 0, x, y as int)
                &&& r@[1]@[x] == text_pixel(io@, vram@, palette@, 1, x, y as int)
                &&& r@[2]@[x] == affine_pixel(io@, vram@, palette@, 2, x, y as int)
                &&& r@[3]@[x] == blank_pixel(io@, 3)
            },
{
    let mut layers = blank_layers(io);
    render_text_bg_layer(&mut layers[0], io, vram, palette, 0, y);
    render_text_bg_layer(&mut layers[1], io, vram, palette, 1, y);
    render_affine_bg_layer(&mut layers[2], io, vram, palette, 2, y);
    layers
}

/// The four background layers of scanline `y` in mode 2: affine
/// backgrounds 2 and 3, backgrounds 0 and 1 cleared.
pub fn render_mode2_layers(io: &IoRegs, vram: &[u8], palette: &[u8], y: usize) -> (r: [[LayerPixel;
    SCREEN_WIDTH]; BG_LAYER_COUNT])
    requires
        y < SCREEN_HEIGHT,
    ensures
        forall|x: int|
            0 <= x < SCREEN_WIDTH ==> {
                &&& r@[0]@[x] == blank_pixel(io@, 0)
                &&& r@[1]@[x] == blank_pixel(io@, 1)
                &&& r@[2]@[x] == affine_pixel(io@, vram@, palette@, 2, x, y as int)
                &&& r@[3]@[x] == affine_pixel(io@, vram@, palette@, 3, x, y as int)
            },
{
    let mut layers = blank_layers(io);
    render_affine_bg_layer(&mut layers[2], io, vram, palette, 2, y);
    render_affine_bg_layer(&mut layers[3], io, vram, palette, 3, y);
    layers
}

/// The background candidates at (`x`, `y`) in mode 0: four text
/// backgrounds.
pub open spec fn mode0_cands(io: IoView, vram: Seq<u8>, palette: Seq<u8>, x: int, y: int) -> spec_fn(
    int,
) -> LayerPixel {
    |i: int| text_pixel(io, vram, palette, i, x, y)
}

/// The background candidates at (`x`, `y`) in mode 1: text backgrounds 0
/// and 1, affine background 2, background 3 cleared.
pub open spec fn mode1_cands(io: IoView, vram: Seq<u8>, palette: Seq<u8>, x: int, y: int) -> spec_fn(
    int,
) -> LayerPixel {
    |i: int|
        if i < 2 {
            text_pixel(io, vram, palette, i, x, y)
        } else if i == 2 {
            affine_pixel(io, vram, palette, 2, x, y)
        } else {
            blank_pixel(io, 3)
        }
}

/// The background candidates at (`x`, `y`) in mode 2: backgrounds 0 and 1
/// cleared, affine backgrounds 2 and 3.
pub open spec fn mode2_cands(io: IoView, vram: Seq<u8>, palette: Seq<u8>, x: int, y: int) -> spec_fn(
    int,
) -> LayerPixel {
    |i: int|
        if i < 2 {
            blank_pixel(io, i)
        } else {
            affine_pixel(io, vram, palette, i, x, y)
        }
}

/// The colour shown at `x` when only backgrounds `cands` are drawn over the
/// backdrop (palette colour 0).
pub open spec fn bg_only_color(cands: spec_fn(int) -> LayerPixel, palette: Seq<u8>) -> u16 {
    frontmost(
        cands,
        BG_LAYER_COUNT as int,
        LayerPixel { color: palette_color(palette, 0), priority: 4, order: 4, transparent: false },
    ).color
}

/// Draw scanline `y` in mode 0 from the backgrounds alone.
pub fn render_mode0_scanline(
    framebuffer: &mut [u16; FRAME_PIXELS],
    io: &IoRegs,
    vram: &[u8],
    palette: &[u8],
    y: usize,
)
    requires
        y < SCREEN_HEIGHT,
    ensures
        final(framebuffer)@ == with_line(
            old(framebuffer)@,
            y as int,
            |x: int| bg_only_color(mode0_cands(io@, vram@, palette@, x, y as int), palette@),
        ),
{
    let layers = render_mode0_layers(io, vram, palette, y);
    compose_bg_layers_scanline(framebuffer, y, backdrop_color(palette), &layers);
    proof {
        let back = LayerPixel {
            color: palette_color(palette@, 0),
            priority: 4,
            order: 4,
            transparent: false,
        };
        assert forall|x: int| 0 <= x < SCREEN_WIDTH implies bg_pixel(layers, x, palette_color(palette@, 0)).color
            == bg_only_color(mode0_cands(io@, vram@, palette@, x, y as int), palette@) by {
            lemma_frontmost_ext(
                |i: int| layers@[i]@[x],
                mode0_cands(io@, vram@, palette@, x, y as int),
                BG_LAYER_COUNT as int,
                back,
            );
        }
    }
    assert(framebuffer@ =~= with_line(
        old(framebuffer)@,
        y as int,
        |x: int| bg_only_color(mode0_cands(io@, vram@, palette@, x, y as int), palette@),
    ));
}

/// Draw scanline `y` in mode 1 from the backgrounds alone.
pub fn render_mode1_scanline(
    framebuffer: &mut [u16; FRAME_PIXELS],
    io: &IoRegs,
    vram: &[u8],
    palette: &[u8],
    y: usize,
)
    requires
        y < SCREEN_HEIGHT,
    ensures
        final(framebuffer)@ == with_line(
            old(framebuffer)@,
            y as int,
            |x: int| bg_only_color(mode1_cands(io@, vram@, palette@, x, y as int), palette@),
        ),
{
    let layers = render_mode1_layers(io, vram, palette, y);
    compose_bg_layers_scanline(framebuffer, y, backdrop_color(palette), &layers);
    proof {
        let back = LayerPixel {
            color: palette_color(palette@, 0),
            priority: 4,
            order: 4,
            transparent: false,
        };
        assert forall|x: int| 0 <= x < SCREEN_WIDTH implies bg_pixel(layers, x, palette_color(palette@, 0)).color
            == bg_only_color(mode1_cands(io@, vram@, palette@, x, y as int), palette@) by {
            lemma_frontmost_ext(
                |i: int| layers@[i]@[x],
                mode1_cands(io@, vram@, palette@, x, y as int),
                BG_LAYER_COUNT as int,
                back,
            );
        }
    }
    assert(framebuffer@ =~= with_line(
        old(framebuffer)@,
        y as int,
        |x: int| bg_only_color(mode1_cands(io@, vram@, palette@, x, y as int), palette@),
    ));
}

/// Draw scanline `y` in mode 2 from the backgrounds alone.
pub fn render_mode2_scanline(
    framebuffer: &mut [u16; FRAME_PIXELS],
    io: &IoRegs,
    vram: &[u8],
    palette: &[u8],
    y: usize,
)
    requires
        y < SCREEN_HEIGHT,
    ensures
        final(framebuffer)@ == with_line(
            old(framebuffer)@,
            y as int,
            |x: int| bg_only_color(mode2_cands(io@, vram@, palette@, x, y as int), palette@),
        ),
{
    let layers = render_mode2_layers(io, vram, palette, y);
    compose_bg_layers_scanline(framebuffer, y, backdrop_color(palette), &layers);
    proof {
        let back = LayerPixel {
            color: palette_color(palette@, 0),
            priority: 4,
            order: 4,
            transparent: false,
        };
        assert forall|x: int| 0 <= x < SCREEN_WIDTH implies bg_pixel(layers, x, palette_color(palette@, 0)).color
            == bg_only_color(mode2_cands(io@, vram@, palette@, x, y as int), palette@) by {
            lemma_frontmost_ext(
                |i: int| layers@[i]@[x],
                mode2_cands(io@, vram@, palette@, x, y as int),
                BG_LAYER_COUNT as int,
                back,
            );
        }
    }
    assert(framebuffer@ =~= with_line(
        old(framebuffer)@,
        y as int,
        |x: int| bg_only_color(mode2_cands(io@, vram@, palette@, x, y as int), palette@),
    ));
}

} // verus!
