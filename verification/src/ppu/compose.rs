//! Per-pixel layer composition: the frontmost opaque pixel of the
//! background and sprite layers wins, by priority and then by order; the
//! window and colour-effect registers then decide what is drawn.
use vstd::prelude::*;

use super::effect::{
    alpha_blend, alpha_blend_spec, brighten, brighten_spec, darken, darken_spec, BlendMode,
    EffectConfig,
};
use super::window::{window_visible, WindowMask};
use super::{with_line, FRAME_PIXELS, SCREEN_HEIGHT, SCREEN_WIDTH};

verus! {

pub const BG_LAYER_COUNT: usize = 4;

pub const TOTAL_LAYER_COUNT: usize = 5;

/// The layer index of the sprite layer.
pub const OBJ_LAYER: usize = 4;

/// The layer index standing for the backdrop.
pub const BACKDROP_LAYER: usize = 5;

/// The colour-effect target bit of the backdrop.
pub const TARGET_BACKDROP: u16 = 0x0020;

/// One pixel of one layer: its colour, its priority (0 frontmost), its
/// order among layers of equal priority (lower first), and whether it is
/// transparent.
#[derive(Debug, Clone, Copy, PartialEq, Eq, Structural)]
pub struct LayerPixel {
    pub color: u16,
    pub priority: u8,
    pub order: u8,
    pub transparent: bool,
}

impl LayerPixel {
    pub fn transparent(priority: u8, order: u8) -> (r: Self)
        ensures
            r == (LayerPixel { color: 0, priority, order, transparent: true }),
    {
        LayerPixel { color: 0, priority, order, transparent: true }
    }

    pub fn opaque(color: u16, priority: u8, order: u8) -> (r: Self)
        ensures
            r == (LayerPixel { color, priority, order, transparent: false }),
    {
        LayerPixel { color, priority, order, transparent: false }
    }
}

/// `c` is drawn in front of `best`: it is opaque and has a lower priority
/// number, or the same priority and a lower order.
pub open spec fn wins_over(c: LayerPixel, best: LayerPixel) -> bool {
    !c.transparent && (c.priority < best.priority || (c.priority == best.priority && c.order
        < best.order))
}

/// The frontmost of `init` and the first `n` candidates, earlier candidates
/// keeping ties.
pub open spec fn frontmost(cands: spec_fn(int) -> LayerPixel, n: int, init: LayerPixel) -> LayerPixel
    decreases n,
{
    if n <= 0 {
        init
    } else {
        let best = frontmost(cands, n - 1, init);
        if wins_over(cands(n - 1), best) {
            cands(n - 1)
        } else {
            best
        }
    }
}

/// The frontmost and the second pixel (with their layer indices) among
/// `init` and the first `n` candidates.
pub open spec fn top_two(
    cands: spec_fn(int) -> LayerPixel,
    n: int,
    init: (LayerPixel, int, LayerPixel, int),
) -> (LayerPixel, int, LayerPixel, int)
    decreases n,
{
    if n <= 0 {
        init
    } else {
        let (t, tl, s, sl) = top_two(cands, n - 1, init);
        let c = cands(n - 1);
        if wins_over(c, t) {
            (c, n - 1, t, tl)
        } else if wins_over(c, s) {
            (t, tl, c, n - 1)
        } else {
            (t, tl, s, sl)
        }
    }
}

/// The colour-effect target bit of a layer: bits 0-3 the backgrounds, bit 4
/// the sprites, bit 5 the backdrop.
pub open spec fn target_spec(layer: int) -> u16 {
    if layer == 0 {
        0x01
    } else if layer == 1 {
        0x02
    } else if layer == 2 {
        0x04
    } else if layer == 3 {
        0x08
    } else if layer == 4 {
        0x10
    } else {
        0x20
    }
}

/// The order of background `index` among layers of equal priority: after
/// every sprite, lower backgrounds first.
pub fn bg_order(index: usize) -> (r: u8)
    requires
        index < 4,
    ensures
        r == 0x80 + index,
{
    0x80 + index as u8
}

/// The colour-effect target bit of layer `layer` (a background, the
/// sprites, or the backdrop).
pub fn layer_target(layer: usize) -> (r: u16)
    ensures
        r == target_spec(layer as int),
{
    if layer == 0 {
        0x01
    } else if layer == 1 {
        0x02
    } else if layer == 2 {
        0x04
    } else if layer == 3 {
        0x08
    } else if layer == 4 {
        0x10
    } else {
        0x20
    }
}

/// The colour-effect target bit of background `index`.
pub fn bg_target(index: usize) -> (r: u16)
    requires
        index < 4,
    ensures
        r == target_spec(index as int),
{
    layer_target(index)
}

/// Make every pixel of `layer` transparent with the given priority and
/// order.
pub fn clear_layer(layer: &mut [LayerPixel; SCREEN_WIDTH], priority: u8, order: u8)
    ensures
        forall|x: int|
            0 <= x < SCREEN_WIDTH ==> final(layer)@[x] == (LayerPixel {
                color: 0,
                priority,
                order,
                transparent: true,
            }),
{
    let mut x: usize = 0;
    while x < SCREEN_WIDTH
        invariant
            x <= SCREEN_WIDTH,
            forall|i: int|
                0 <= i < x ==> layer@[i] == (LayerPixel {
                    color: 0,
                    priority,
                    order,
                    transparent: true,
                }),
        decreases SCREEN_WIDTH - x,
    {
        layer[x] = LayerPixel::transparent(priority, order);
        x = x + 1;
    }
}

/// The pixel of the backgrounds shown at `x`, the backdrop behind them all.
pub open spec fn bg_pixel(
    layers: [[LayerPixel; SCREEN_WIDTH]; BG_LAYER_COUNT],
    x: int,
    backdrop: u16,
) -> LayerPixel {
    frontmost(
        |i: int| layers@[i]@[x],
        BG_LAYER_COUNT as int,
        LayerPixel { color: backdrop, priority: 4, order: 4, transparent: false },
    )
}

/// Draw scanline `y` from four background layers: each pixel is the
/// frontmost opaque background pixel, or the backdrop.
pub fn compose_bg_layers_scanline(
    framebuffer: &mut [u16; FRAME_PIXELS],
    y: usize,
    backdrop: u16,
    layers: &[[LayerPixel; SCREEN_WIDTH]; BG_LAYER_COUNT],
)
    requires
        y < SCREEN_HEIGHT,
    ensures
        final(framebuffer)@ == with_line(
            old(framebuffer)@,
            y as int,
            |x: int| bg_pixel(*layers, x, backdrop).color,
        ),
{
    let line_start = y * SCREEN_WIDTH;
    let mut x: usize = 0;
    while x < SCREEN_WIDTH
        invariant
            x <= SCREEN_WIDTH,
            y < SCREEN_HEIGHT,
            line_start == y * SCREEN_WIDTH,
            framebuffer@.len() == FRAME_PIXELS,
            forall|i: int|
                0 <= i < FRAME_PIXELS ==> framebuffer@[i] == (if line_start <= i < line_start + x {
                    bg_pixel(*layers, i - line_start, backdrop).color
                } else {
                    old(framebuffer)@[i]
                }),
        decreases SCREEN_WIDTH - x,
    {
        let ghost cands = |i: int| layers@[i]@[x as int];
        let mut best = LayerPixel::opaque(backdrop, 4, 4);
        let mut i: usize = 0;
        while i < BG_LAYER_COUNT
            invariant
                i <= BG_LAYER_COUNT,
                x < SCREEN_WIDTH,
                cands == (|i: int| layers@[i]@[x as int]),
                best == frontmost(
                    cands,
                    i as int,
                    LayerPixel { color: backdrop, priority: 4, order: 4, transparent: false },
                ),
            decreases BG_LAYER_COUNT - i,
        {
            let candidate = layers[i][x];
            if !candidate.transparent && (candidate.priority < best.priority || (candidate.priority
                == best.priority && candidate.order < best.order)) {
                best = candidate;
            }
            i = i + 1;
        }
        framebuffer[line_start + x] = best.color;
        x = x + 1;
    }
    assert(framebuffer@ =~= with_line(
        old(framebuffer)@,
        y as int,
        |x: int| bg_pixel(*layers, x, backdrop).color,
    ));
}

/// Layer pixel `p` as seen through a window that shows the layer only if
/// `visible`.
pub open spec fn masked(p: LayerPixel, visible: bool) -> LayerPixel {
    if visible {
        p
    } else {
        LayerPixel { transparent: true, ..p }
    }
}

/// The colour drawn for a frontmost pixel `t` of layer `tl` over `s` of
/// layer `sl`: with the window allowing effects and `tl` a first target,
/// alpha blending (when `sl` is a second target), brightening or darkening
/// applies; otherwise `t`'s colour.
pub open spec fn effect_color(
    e: EffectConfig,
    effects_allowed: bool,
    t: LayerPixel,
    tl: int,
    s: LayerPixel,
    sl: int,
) -> u16 {
    if effects_allowed && e.first_target_mask & target_spec(tl) != 0 {
        match e.mode {
            BlendMode::Alpha => if e.second_target_mask & target_spec(sl) != 0 {
                alpha_blend_spec(t.color, s.color, e.eva, e.evb)
            } else {
                t.color
            },
            BlendMode::Brighten => brighten_spec(t.color, e.evy),
            BlendMode::Darken => darken_spec(t.color, e.evy),
            BlendMode::Off => t.color,
        }
    } else {
        t.color
    }
}

/// The colour drawn over `backdrop` for layer pixels `cands` (indices 0-4)
/// seen through window mask `mask`, with effects `effects`.
pub open spec fn scene_color(
    cands: spec_fn(int) -> LayerPixel,
    mask: WindowMask,
    effects: EffectConfig,
    backdrop: u16,
) -> u16 {
    let back = LayerPixel { color: backdrop, priority: 4, order: 0xff, transparent: false };
    let (t, tl, s, sl) = top_two(
        |i: int| masked(cands(i), window_visible(mask, i)),
        TOTAL_LAYER_COUNT as int,
        (back, BACKDROP_LAYER as int, back, BACKDROP_LAYER as int),
    );
    effect_color(effects, mask.color_effect, t, tl, s, sl)
}

/// The colour drawn at `x`.
pub open spec fn composed_color(
    layers: [[LayerPixel; SCREEN_WIDTH]; TOTAL_LAYER_COUNT],
    masks: [WindowMask; SCREEN_WIDTH],
    effects: EffectConfig,
    x: int,
    backdrop: u16,
) -> u16 {
    scene_color(|i: int| layers@[i]@[x], masks@[x], effects, backdrop)
}

fn apply_effect(
    e: EffectConfig,
    effects_allowed: bool,
    t: LayerPixel,
    tl: usize,
    s: LayerPixel,
    sl: usize,
) -> (r: u16)
    ensures
        r == effect_color(e, effects_allowed, t, tl as int, s, sl as int),
{
    if effects_allowed && e.first_target_enabled(layer_target(tl)) {
        match e.mode {
            BlendMode::Alpha => if e.second_target_enabled(layer_target(sl)) {
                alpha_blend(t.color, s.color, e.eva, e.evb)
            } else {
                t.color
            },
            BlendMode::Brighten => brighten(t.color, e.evy),
            BlendMode::Darken => darken(t.color, e.evy),
            BlendMode::Off => t.color,
        }
    } else {
        t.color
    }
}

/// Draw scanline `y` from the four backgrounds and the sprite layer, seen
/// through the window masks and with the colour effects applied; see
/// `composed_color`.
pub fn compose_layers_scanline_with_effects(
    framebuffer: &mut [u16; FRAME_PIXELS],
    y: usize,
    backdrop: u16,
    layers: &[[LayerPixel; SCREEN_WIDTH]; TOTAL_LAYER_COUNT],
    window_masks: &[WindowMask; SCREEN_WIDTH],
    effects: EffectConfig,
)
    requires
        y < SCREEN_HEIGHT,
    ensures
        final(framebuffer)@ == with_line(
            old(framebuffer)@,
            y as int,
            |x: int| composed_color(*layers, *window_masks, effects, x, backdrop),
        ),
{
    let line_start = y * SCREEN_WIDTH;
    let back = LayerPixel::opaque(backdrop, 4, 0xff);
    let mut x: usize = 0;
    while x < SCREEN_WIDTH
        invariant
            x <= SCREEN_WIDTH,
            y < SCREEN_HEIGHT,
            line_start == y * SCREEN_WIDTH,
            back == (LayerPixel { color: backdrop, priority: 4, order: 0xff, transparent: false }),
            framebuffer@.len() == FRAME_PIXELS,
            forall|i: int|
                0 <= i < FRAME_PIXELS ==> framebuffer@[i] == (if line_start <= i < line_start + x {
                    composed_color(*layers, *window_masks, effects, i - line_start, backdrop)
                } else {
                    old(framebuffer)@[i]
                }),
        decreases SCREEN_WIDTH - x,
    {
        let mask = window_masks[x];
        let ghost cands = |i: int| masked(layers@[i]@[x as int], window_visible(mask, i));
        let mut top = back;
        let mut top_layer: usize = BACKDROP_LAYER;
        let mut second = back;
        let mut second_layer: usize = BACKDROP_LAYER;
        let mut i: usize = 0;
        while i < TOTAL_LAYER_COUNT
            invariant
                i <= TOTAL_LAYER_COUNT,
                x < SCREEN_WIDTH,
                mask == window_masks@[x as int],
                cands == (|i: int| masked(layers@[i]@[x as int], window_visible(mask, i))),
                (top, top_layer as int, second, second_layer as int) == top_two(
                    cands,
                    i as int,
                    (back, BACKDROP_LAYER as int, back, BACKDROP_LAYER as int),
                ),
            decreases TOTAL_LAYER_COUNT - i,
        {
            let raw = layers[i][x];
            let candidate = if mask.layer_visible(i) {
                raw
            } else {
                LayerPixel { transparent: true, ..raw }
            };
            if !candidate.transparent && (candidate.priority < top.priority || (candidate.priority
                == top.priority && candidate.order < top.order)) {
                second = top;
                second_layer = top_layer;
                top = candidate;
                top_layer = i;
            } else if !candidate.transparent && (candidate.priority < second.priority || (
            candidate.priority == second.priority && candidate.order < second.order)) {
                second = candidate;
                second_layer = i;
            }
            i = i + 1;
        }
        let color = apply_effect(effects, mask.color_effect, top, top_layer, second, second_layer);
        proof {
            let back_s = LayerPixel { color: backdrop, priority: 4, order: 0xff, transparent: false };
            let cands2 = |i: int| layers@[i]@[x as int];
            lemma_top_two_ext(
                cands,
                |i: int| masked(cands2(i), window_visible(mask, i)),
                TOTAL_LAYER_COUNT as int,
                (back_s, BACKDROP_LAYER as int, back_s, BACKDROP_LAYER as int),
            );
        }
        framebuffer[line_start + x] = color;
        x = x + 1;
    }
    assert(framebuffer@ =~= with_line(
        old(framebuffer)@,
        y as int,
        |x: int| composed_color(*layers, *window_masks, effects, x, backdrop),
    ));
}

/// Candidates that agree on the first `n` indices select the same pixel.
pub proof fn lemma_frontmost_ext(
    c1: spec_fn(int) -> LayerPixel,
    c2: spec_fn(int) -> LayerPixel,
    n: int,
    init: LayerPixel,
)
    requires
        forall|i: int| 0 <= i < n ==> #[trigger] c1(i) == c2(i),
    ensures
        frontmost(c1, n, init) == frontmost(c2, n, init),
    decreases n,
{
    if n > 0 {
        lemma_frontmost_ext(c1, c2, n - 1, init);
    }
}

/// Candidates that agree on the first `n` indices rank the same two
/// pixels.
pub proof fn lemma_top_two_ext(
    c1: spec_fn(int) -> LayerPixel,
    c2: spec_fn(int) -> LayerPixel,
    n: int,
    init: (LayerPixel, int, LayerPixel, int),
)
    requires
        forall|i: int| 0 <= i < n ==> #[trigger] c1(i) == c2(i),
    ensures
        top_two(c1, n, init) == top_two(c2, n, init),
    decreases n,
{
    if n > 0 {
        lemma_top_two_ext(c1, c2, n - 1, init);
    }
}

/// Layer pixels that agree on the five layers compose to the same colour.
pub proof fn lemma_scene_color_ext(
    c1: spec_fn(int) -> LayerPixel,
    c2: spec_fn(int) -> LayerPixel,
    mask: WindowMask,
    effects: EffectConfig,
    backdrop: u16,
)
    requires
        forall|i: int| 0 <= i < TOTAL_LAYER_COUNT ==> #[trigger] c1(i) == c2(i),
    ensures
        scene_color(c1, mask, effects, backdrop) == scene_color(c2, mask, effects, backdrop),
{
    let back = LayerPixel { color: backdrop, priority: 4, order: 0xff, transparent: false };
    let m1 = |i: int| masked(c1(i), window_visible(mask, i));
    let m2 = |i: int| masked(c2(i), window_visible(mask, i));
    assert forall|i: int| 0 <= i < TOTAL_LAYER_COUNT implies #[trigger] m1(i) == m2(i) by {
        assert(c1(i) == c2(i));
    }
    lemma_top_two_ext(
        m1,
        m2,
        TOTAL_LAYER_COUNT as int,
        (back, BACKDROP_LAYER as int, back, BACKDROP_LAYER as int),
    );
}

/// The pixel `frontmost` selects is `init` or one of the candidates, and no
/// candidate is drawn in front of it (unless `init` itself is transparent).
pub proof fn lemma_frontmost_wins(cands: spec_fn(int) -> LayerPixel, n: int, init: LayerPixel)
    requires
        !init.transparent,
    ensures
        !frontmost(cands, n, init).transparent,
        forall|i: int| 0 <= i < n ==> !wins_over(#[trigger] cands(i), frontmost(cands, n, init)),
        frontmost(cands, n, init) == init || exists|i: int|
            0 <= i < n && frontmost(cands, n, init) == #[trigger] cands(i),
    decreases n,
{
    if n > 0 {
        lemma_frontmost_wins(cands, n - 1, init);
        let prev = frontmost(cands, n - 1, init);
        let cur = frontmost(cands, n, init);
        assert forall|i: int| 0 <= i < n implies !wins_over(#[trigger] cands(i), cur) by {
            if i < n - 1 {
                assert(!wins_over(cands(i), prev));
            }
        }
        if cur != init && cur != prev {
            assert(cur == cands(n - 1));
        }
    }
}

} // verus!
