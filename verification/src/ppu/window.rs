//! The windows: two rectangles and the sprite window choose, pixel by
//! pixel, which layers are shown and whether colour effects apply.
use vstd::prelude::*;

use crate::io::{IoRegs, IoView};

use super::obj::{obj_window_mask_spec, render_obj_window_mask};
use super::{SCREEN_HEIGHT, SCREEN_WIDTH};

verus! {

/// Which backgrounds, whether sprites, and whether colour effects are
/// enabled at one pixel.
#[derive(Debug, Clone, Copy, PartialEq, Eq)]
pub struct WindowMask {
    pub bg: [bool; 4],
    pub obj: bool,
    pub color_effect: bool,
}

/// Whether a mask shows layer `layer` (a background, the sprites, or, for
/// any other index, the backdrop, which is always shown).
pub open spec fn window_visible(m: WindowMask, layer: int) -> bool {
    if 0 <= layer < 4 {
        m.bg@[layer]
    } else if layer == 4 {
        m.obj
    } else {
        true
    }
}

/// The mask of a WININ/WINOUT byte: bits 0-3 the backgrounds, bit 4 the
/// sprites, bit 5 colour effects.
pub open spec fn mask_from_bits(bits: u8) -> WindowMask {
    WindowMask {
        bg: [bits & 0x01 != 0, bits & 0x02 != 0, bits & 0x04 != 0, bits & 0x08 != 0],
        obj: bits & 0x10 != 0,
        color_effect: bits & 0x20 != 0,
    }
}

/// Everything shown, effects allowed.
pub open spec fn all_visible_spec() -> WindowMask {
    WindowMask { bg: [true, true, true, true], obj: true, color_effect: true }
}

impl WindowMask {
    pub fn all_visible() -> (r: Self)
        ensures
            r == all_visible_spec(),
    {
        WindowMask { bg: [true, true, true, true], obj: true, color_effect: true }
    }

    pub fn from_bits(bits: u8) -> (r: Self)
        ensures
            r == mask_from_bits(bits),
    {
        WindowMask {
            bg: [
                (bits & 0x01) != 0,
                (bits & 0x02) != 0,
                (bits & 0x04) != 0,
                (bits & 0x08) != 0,
            ],
            obj: (bits & 0x10) != 0,
            color_effect: (bits & 0x20) != 0,
        }
    }

    /// Whether layer `layer_index` is shown; see `window_visible`.
    pub fn layer_visible(&self, layer_index: usize) -> (r: bool)
        ensures
            r == window_visible(*self, layer_index as int),
    {
        if layer_index < 4 {
            self.bg[layer_index]
        } else if layer_index == 4 {
            self.obj
        } else {
            true
        }
    }
}

/// Whether `value` lies in the window span from `start` up to `end`
/// (exclusive). An empty span (`start == end`) holds nothing; a span whose
/// end is below its start wraps around, its end clipped to `max`.
pub open spec fn in_span(value: int, start: int, end: int, max: int) -> bool {
    if start == end {
        false
    } else if start < end {
        start <= value < end
    } else {
        value >= start || value < (if end < max {
            end
        } else {
            max
        })
    }
}

/// See `in_span`.
pub fn contains_coordinate(value: usize, start: usize, end: usize, max: usize) -> (r: bool)
    ensures
        r == in_span(value as int, start as int, end as int, max as int),
{
    if start == end {
        return false;
    }
    if start < end {
        start <= value && value < end
    } else {
        value >= start || value < (if end < max {
            end
        } else {
            max
        })
    }
}

/// Whether the rectangle of WINxH `horizontal` and WINxV `vertical` covers
/// pixel (`x`, `y`).
pub open spec fn in_window(horizontal: u16, vertical: u16, x: int, y: int) -> bool {
    in_span(y, (vertical / 256) as int, (vertical % 256) as int, SCREEN_HEIGHT as int) && in_span(
        x,
        (horizontal / 256) as int,
        (horizontal % 256) as int,
        SCREEN_WIDTH as int,
    )
}

/// A window span whose end lies below its start wraps around the screen:
/// on screen it covers exactly the coordinates that the span from its end
/// to its start leaves out.
pub proof fn lemma_wrapped_span(value: int, start: int, end: int, max: int)
    requires
        0 <= value < max,
        0 <= end < start,
    ensures
        in_span(value, start, end, max) == !in_span(value, end, start, max),
{
}

/// A window rectangle is given by its edges: WINxH's high byte is the left
/// edge and its low byte the right edge (exclusive), WINxV's high byte the
/// top edge and its low byte the bottom edge (exclusive); for edges in
/// order and on screen, the window covers exactly the pixels between them.
pub proof fn lemma_window_edges(horizontal: u16, vertical: u16, x: int, y: int)
    requires
        horizontal / 256 < horizontal % 256 <= SCREEN_WIDTH,
        vertical / 256 < vertical % 256 <= SCREEN_HEIGHT,
    ensures
        in_window(horizontal, vertical, x, y) == (horizontal / 256 <= x < horizontal % 256 && vertical / 256
            <= y < vertical % 256),
{
}

/// The mask of each pixel of scanline `y`: everything shown when no window
/// is enabled; otherwise window 0 over window 1 over the sprite window over
/// the outside mask (WINOUT low byte).
pub open spec fn window_mask_at(io: IoView, obj_mask: Seq<bool>, x: int, y: int) -> WindowMask {
    let win0 = io.dispcnt & 0x2000 != 0;
    let win1 = io.dispcnt & 0x4000 != 0;
    let objw = io.dispcnt & 0x8000 != 0;
    if !win0 && !win1 && !objw {
        all_visible_spec()
    } else if win0 && in_window(io.win_h[0], io.win_v[0], x, y) {
        mask_from_bits((io.win_in & 0x00ff) as u8)
    } else if win1 && in_window(io.win_h[1], io.win_v[1], x, y) {
        mask_from_bits((io.win_in >> 8u16) as u8)
    } else if objw && obj_mask[x] {
        mask_from_bits((io.win_out >> 8u16) as u8)
    } else {
        mask_from_bits((io.win_out & 0x00ff) as u8)
    }
}

/// Replace the masks of scanline `y` inside the rectangle.
fn apply_rect_window(
    masks: &mut [WindowMask; SCREEN_WIDTH],
    horizontal: u16,
    vertical: u16,
    y: usize,
    replacement: WindowMask,
)
    ensures
        forall|x: int|
            0 <= x < SCREEN_WIDTH ==> final(masks)@[x] == (if in_window(
                horizontal,
                vertical,
                x,
                y as int,
            ) {
                replacement
            } else {
                old(masks)@[x]
            }),
{
    let left = (horizontal / 256) as usize;
    let right = (horizontal % 256) as usize;
    let top = (vertical / 256) as usize;
    let bottom = (vertical % 256) as usize;
    if !contains_coordinate(y, top, bottom, SCREEN_HEIGHT) {
        return;
    }
    let mut x: usize = 0;
    while x < SCREEN_WIDTH
        invariant
            x <= SCREEN_WIDTH,
            left == horizontal / 256,
            right == horizontal % 256,
            in_span(y as int, top as int, bottom as int, SCREEN_HEIGHT as int),
            top == vertical / 256,
            bottom == vertical % 256,
            forall|i: int|
                0 <= i < SCREEN_WIDTH ==> masks@[i] == (if i < x && in_window(
                    horizontal,
                    vertical,
                    i,
                    y as int,
                ) {
                    replacement
                } else {
                    old(masks)@[i]
                }),
        decreases SCREEN_WIDTH - x,
    {
        if contains_coordinate(x, left, right, SCREEN_WIDTH) {
            masks[x] = replacement;
        }
        x = x + 1;
    }
}

/// The window mask of every pixel of scanline `y`; see `window_mask_at`.
pub fn build_window_scanline(io: &IoRegs, vram: &[u8], oam: &[u8], y: usize) -> (r: [WindowMask;
    SCREEN_WIDTH])
    requires
        y < SCREEN_HEIGHT,
    ensures
        forall|x: int|
            0 <= x < SCREEN_WIDTH ==> r@[x] == window_mask_at(
                io@,
                obj_window_mask_spec(io@, vram@, oam@, y as int),
                x,
                y as int,
            ),
{
    proof {
        io.lemma_valid();
    }
    let all_visible = WindowMask::all_visible();
    if !io.win0_enabled() && !io.win1_enabled() && !io.obj_window_enabled() {
        return [all_visible; SCREEN_WIDTH];
    }
    let outside = WindowMask::from_bits((io.win_out() & 0x00ff) as u8);
    let mut masks = [outside; SCREEN_WIDTH];
    let ghost objm = obj_window_mask_spec(io@, vram@, oam@, y as int);
    if io.obj_window_enabled() {
        let obj_mask = render_obj_window_mask(io, vram, oam, y);
        let obj_window = WindowMask::from_bits((io.win_out() >> 8u16) as u8);
        let mut x: usize = 0;
        while x < SCREEN_WIDTH
            invariant
                x <= SCREEN_WIDTH,
                obj_mask@ == objm,
                forall|i: int|
                    0 <= i < SCREEN_WIDTH ==> masks@[i] == (if i < x && obj_mask@[i] {
                        obj_window
                    } else {
                        outside
                    }),
            decreases SCREEN_WIDTH - x,
        {
            if obj_mask[x] {
                masks[x] = obj_window;
            }
            assert(masks@[x as int] == (if obj_mask@[x as int] { obj_window } else { outside }));
            x = x + 1;
        }
    }
    if io.win1_enabled() {
        apply_rect_window(
            &mut masks,
            io.window_h(1),
            io.window_v(1),
            y,
            WindowMask::from_bits((io.win_in() >> 8u16) as u8),
        );
    }
    if io.win0_enabled() {
        apply_rect_window(
            &mut masks,
            io.window_h(0),
            io.window_v(0),
            y,
            WindowMask::from_bits((io.win_in() & 0x00ff) as u8),
        );
    }
    masks
}

} // verus!
