//! Pictures for the desktop front end's demo modes: a colour gradient and
//! the keypad dashboard (ten button blocks, lit while pressed), each given
//! pixel by pixel in RGB555.
use vstd::prelude::*;

use crate::ppu::{SCREEN_HEIGHT, SCREEN_WIDTH};

verus! {

/// Dashboard background.
pub const BG_COLOR: u16 = 0x1084;

/// Fill of a released button.
pub const DARK_COLOR: u16 = 0x294a;

/// Border of a released button.
pub const DARK_BORDER: u16 = 0x3def;

/// Border of a pressed button.
pub const LIT_BORDER: u16 = 0x7fff;

/// Width of a button block.
pub const BLOCK_W: usize = 40;

/// Height of a button block.
pub const BLOCK_H: usize = 50;

/// Width of a block's border.
pub const BORDER: usize = 2;

/// The fill of block `i` while its button is pressed: A, B, Select, Start,
/// Right, Left, Up, Down, R, L.
pub open spec fn lit_color(i: int) -> u16 {
    if i == 0 {
        0x001f
    } else if i == 1 {
        0x03e0
    } else if i == 2 {
        0x7c00
    } else if i == 3 {
        0x7fff
    } else if i == 4 {
        0x03ff
    } else if i == 5 {
        0x7c1f
    } else if i == 6 {
        0x7fe0
    } else if i == 7 {
        0x2deb
    } else if i == 8 {
        0x56b5
    } else {
        0x4e73
    }
}

/// The KEYINPUT bit of block `i`'s button (blocks in KEYINPUT bit order).
pub open spec fn block_mask(i: int) -> u16 {
    if i == 0 {
        0x0001
    } else if i == 1 {
        0x0002
    } else if i == 2 {
        0x0004
    } else if i == 3 {
        0x0008
    } else if i == 4 {
        0x0010
    } else if i == 5 {
        0x0020
    } else if i == 6 {
        0x0040
    } else if i == 7 {
        0x0080
    } else if i == 8 {
        0x0100
    } else {
        0x0200
    }
}

/// The left edge of block `i`: five blocks a row, 48 pixels apart, from 8.
pub open spec fn block_x(i: int) -> int {
    8 + (i % 5) * 48
}

/// The top edge of block `i`: two rows, 70 pixels apart, from 20.
pub open spec fn block_y(i: int) -> int {
    20 + (i / 5) * 70
}

/// Block `i`'s colour at (`x`, `y`), if the block covers that pixel: its
/// two-pixel border, lit white when pressed, around its fill.
pub open spec fn block_color(pressed_mask: u16, i: int, x: int, y: int) -> Option<u16> {
    let dx = x - block_x(i);
    let dy = y - block_y(i);
    let pressed = pressed_mask & block_mask(i) != 0;
    if 0 <= dx < BLOCK_W && 0 <= dy < BLOCK_H {
        let border = dx < BORDER || dx >= BLOCK_W - BORDER || dy < BORDER || dy >= BLOCK_H - BORDER;
        Some(
            if border {
                if pressed {
                    LIT_BORDER
                } else {
                    DARK_BORDER
                }
            } else if pressed {
                lit_color(i)
            } else {
                DARK_COLOR
            },
        )
    } else {
        None
    }
}

/// The dashboard at (`x`, `y`) after blocks `0..n` are drawn over the
/// background, each later block over the earlier ones.
pub open spec fn dashboard_upto(pressed_mask: u16, x: int, y: int, n: int) -> u16
    decreases n,
{
    if n <= 0 {
        BG_COLOR
    } else {
        match block_color(pressed_mask, n - 1, x, y) {
            Some(c) => c,
            None => dashboard_upto(pressed_mask, x, y, n - 1),
        }
    }
}

/// The dashboard pixel at (`x`, `y`) for the buttons set in `pressed_mask`.
pub open spec fn dashboard_color(pressed_mask: u16, x: int, y: int) -> u16 {
    dashboard_upto(pressed_mask, x, y, 10)
}

fn lit_color_at(i: usize) -> (r: u16)
    ensures
        r == lit_color(i as int),
{
    if i == 0 {
        0x001f
    } else if i == 1 {
        0x03e0
    } else if i == 2 {
        0x7c00
    } else if i == 3 {
        0x7fff
    } else if i == 4 {
        0x03ff
    } else if i == 5 {
        0x7c1f
    } else if i == 6 {
        0x7fe0
    } else if i == 7 {
        0x2deb
    } else if i == 8 {
        0x56b5
    } else {
        0x4e73
    }
}

fn block_mask_at(i: usize) -> (r: u16)
    ensures
        r == block_mask(i as int),
{
    if i == 0 {
        0x0001
    } else if i == 1 {
        0x0002
    } else if i == 2 {
        0x0004
    } else if i == 3 {
        0x0008
    } else if i == 4 {
        0x0010
    } else if i == 5 {
        0x0020
    } else if i == 6 {
        0x0040
    } else if i == 7 {
        0x0080
    } else if i == 8 {
        0x0100
    } else {
        0x0200
    }
}

/// The dashboard pixel at (`x`, `y`); see `dashboard_color`.
pub fn dashboard_pixel(pressed_mask: u16, x: usize, y: usize) -> (r: u16)
    requires
        x < SCREEN_WIDTH,
        y < SCREEN_HEIGHT,
    ensures
        r == dashboard_color(pressed_mask, x as int, y as int),
{
    let mut color = BG_COLOR;
    let mut i: usize = 0;
    while i < 10
        invariant
            i <= 10,
            x < SCREEN_WIDTH,
            y < SCREEN_HEIGHT,
            color == dashboard_upto(pressed_mask, x as int, y as int, i as int),
        decreases 10 - i,
    {
        let bx = 8 + (i % 5) * 48;
        let by = 20 + (i / 5) * 70;
        if bx <= x && x < bx + BLOCK_W && by <= y && y < by + BLOCK_H {
            let dx = x - bx;
            let dy = y - by;
            let pressed = (pressed_mask & block_mask_at(i)) != 0;
            let border = dx < BORDER || dx >= BLOCK_W - BORDER || dy < BORDER || dy >= BLOCK_H - BORDER;
            color = if border {
                if pressed {
                    LIT_BORDER
                } else {
                    DARK_BORDER
                }
            } else if pressed {
                lit_color_at(i)
            } else {
                DARK_COLOR
            };
        }
        i = i + 1;
    }
    color
}

/// The gradient demo at (`x`, `y`): red grows left to right, green top to
/// bottom, blue along the diagonal, each scaled to 0-31.
pub open spec fn gradient_color(x: int, y: int) -> u16 {
    let r = (x * 31) / (SCREEN_WIDTH - 1);
    let g = (y * 31) / (SCREEN_HEIGHT - 1);
    let b = ((x + y) * 31) / (SCREEN_WIDTH + SCREEN_HEIGHT - 2);
    (r + g * 32 + b * 1024) as u16
}

/// The gradient pixel at (`x`, `y`); see `gradient_color`.
pub fn gradient_pixel(x: usize, y: usize) -> (r: u16)
    requires
        x < SCREEN_WIDTH,
        y < SCREEN_HEIGHT,
    ensures
        r == gradient_color(x as int, y as int),
{
    let r = (x * 31) / (SCREEN_WIDTH - 1);
    let g = (y * 31) / (SCREEN_HEIGHT - 1);
    let b = ((x + y) * 31) / (SCREEN_WIDTH + SCREEN_HEIGHT - 2);
    assert(r <= 31 && g <= 31 && b <= 31) by (nonlinear_arith)
        requires
            x < 240,
            y < 160,
            r == (x * 31) / 239,
            g == (y * 31) / 159,
            b == ((x + y) * 31) / 398,
    ;
    (r + g * 32 + b * 1024) as u16
}

} // verus!
