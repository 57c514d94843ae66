//! The LCD controller: scanline timing (H-draw, H-blank, V-blank), the
//! background modes, sprites, windows and colour effects, and the
//! framebuffer they are drawn into.
use vstd::prelude::*;

pub mod bg;
pub mod compose;
pub mod mode3;
pub mod mode4;
pub mod mode5;
pub mod effect;
pub mod obj;
pub mod window;

use crate::io::{lemma_halfword_bits, IoRegs, IoView};
use bg::{
    mode0_cands, mode1_cands, mode2_cands, render_mode0_layers, render_mode1_layers,
    render_mode2_layers,
};
use compose::{
    compose_layers_scanline_with_effects, lemma_scene_color_ext, lemma_top_two_ext, masked,
    scene_color, top_two,
    LayerPixel, BACKDROP_LAYER, BG_LAYER_COUNT, TOTAL_LAYER_COUNT,
};
use effect::{effect_config_spec, EffectConfig};
use mode3::mode3_pixel;
use mode4::mode4_pixel;
use mode5::mode5_pixel;
use obj::{obj_pixel, obj_window_mask_spec, render_obj_layer};
use window::{build_window_scanline, window_mask_at, window_visible};

verus! {

pub const SCREEN_WIDTH: usize = 240;

pub const SCREEN_HEIGHT: usize = 160;

pub const FRAME_PIXELS: usize = 38400;

pub const HDRAW_CYCLES: u32 = 960;

pub const HBLANK_CYCLES: u32 = 272;

pub const SCANLINE_CYCLES: u32 = 1232;

pub const TOTAL_SCANLINES: u16 = 228;

/// Byte `i` of `s`, 0 past the end.
pub open spec fn byte_or_zero(s: Seq<u8>, i: int) -> u8 {
    if 0 <= i < s.len() {
        s[i]
    } else {
        0
    }
}

/// Byte `i` of `s`, 0 past the end.
pub fn byte_at(s: &[u8], i: usize) -> (r: u8)
    ensures
        r == byte_or_zero(s@, i as int),
{
    if i < s.len() {
        s[i]
    } else {
        0
    }
}

/// Palette colour `index`: the little-endian halfword at `2 * index`,
/// wrapping around the palette, bytes past its end reading 0.
pub open spec fn palette_color(p: Seq<u8>, index: int) -> u16 {
    let n = if p.len() == 0 {
        1
    } else {
        p.len() as int
    };
    let o = (index * 2) % n;
    (byte_or_zero(p, o) as u16) | ((byte_or_zero(p, o + 1) as u16) << 8u16)
}

/// See `palette_color`.
pub fn read_palette_color(palette: &[u8], index: usize) -> (r: u16)
    requires
        index < 0x1000_0000,
    ensures
        r == palette_color(palette@, index as int),
{
    let n = if palette.len() == 0 {
        1
    } else {
        palette.len()
    };
    let offset = (index * 2) % n;
    let lo = byte_at(palette, offset) as u16;
    let hi = byte_at(palette, offset + 1) as u16;
    lo | (hi << 8u16)
}

/// The backdrop: palette colour 0.
pub fn backdrop_color(palette: &[u8]) -> (r: u16)
    ensures
        r == palette_color(palette@, 0),
{
    read_palette_color(palette, 0)
}

/// `fb` with scanline `y` replaced by the colours `line` gives for columns
/// 0 to 239.
pub open spec fn with_line(fb: Seq<u16>, y: int, line: spec_fn(int) -> u16) -> Seq<u16> {
    Seq::new(
        fb.len(),
        |i: int|
            if y * SCREEN_WIDTH <= i < y * SCREEN_WIDTH + SCREEN_WIDTH {
                line(i - y * SCREEN_WIDTH)
            } else {
                fb[i]
            },
    )
}

/// Fill scanline `y` with `color`.
pub fn fill_scanline(framebuffer: &mut [u16; FRAME_PIXELS], y: usize, color: u16)
    requires
        y < SCREEN_HEIGHT,
    ensures
        final(framebuffer)@ == with_line(old(framebuffer)@, y as int, |x: int| color),
{
    let start = y * SCREEN_WIDTH;
    let mut x: usize = 0;
    while x < SCREEN_WIDTH
        invariant
            x <= SCREEN_WIDTH,
            y < SCREEN_HEIGHT,
            start == y * SCREEN_WIDTH,
            framebuffer@.len() == FRAME_PIXELS,
            forall|i: int|
                0 <= i < FRAME_PIXELS ==> framebuffer@[i] == (if start <= i < start + x {
                    color
                } else {
                    old(framebuffer)@[i]
                }),
        decreases SCREEN_WIDTH - x,
    {
        framebuffer[start + x] = color;
        x = x + 1;
    }
    assert(framebuffer@ =~= with_line(old(framebuffer)@, y as int, |x: int| color));
}

/// A five-bit channel scaled to eight bits.
pub open spec fn channel_to_8(c: int) -> int {
    c * 255 / 31
}

/// An RGB555 colour as 0x00RRGGBB.
pub open spec fn xrgb_spec(pixel: u16) -> u32 {
    let r = channel_to_8(pixel as int % 32) as u32;
    let g = channel_to_8((pixel as int / 32) % 32) as u32;
    let b = channel_to_8((pixel as int / 1024) % 32) as u32;
    (r << 16u32) | (g << 8u32) | b
}

/// See `xrgb_spec`.
pub fn rgb555_to_xrgb8888(pixel: u16) -> (r: u32)
    ensures
        r == xrgb_spec(pixel),
{
    let r = ((pixel % 32) as u32 * 255) / 31;
    let g = (((pixel / 32) % 32) as u32 * 255) / 31;
    let b = (((pixel / 1024) % 32) as u32 * 255) / 31;
    (r << 16u32) | (g << 8u32) | b
}

/// A background slot left empty: transparent, behind everything.
pub open spec fn idle_pixel() -> LayerPixel {
    LayerPixel { color: 0, priority: 4, order: 0xff, transparent: true }
}

/// The layer pixels (backgrounds 0-3, sprites 4) at (`x`, `y`) for the
/// display mode in DISPCNT bits 0-2; `None` where the mode shows only the
/// backdrop (bitmap modes with BG2 off, and the unused modes 6 and 7).
pub open spec fn line_cands(
    io: IoView,
    vram: Seq<u8>,
    palette: Seq<u8>,
    oam: Seq<u8>,
    x: int,
    y: int,
) -> Option<spec_fn(int) -> LayerPixel> {
    let mode = io.dispcnt & 0x0007;
    let bg2 = io.dispcnt & 0x0400 != 0;
    let frame = io.dispcnt & 0x0010 != 0;
    let obj = obj_pixel(io, vram, palette, oam, x, y);
    if mode == 0 {
        Some(|i: int| if i < 4 { mode0_cands(io, vram, palette, x, y)(i) } else { obj })
    } else if mode == 1 {
        Some(|i: int| if i < 4 { mode1_cands(io, vram, palette, x, y)(i) } else { obj })
    } else if mode == 2 {
        Some(|i: int| if i < 4 { mode2_cands(io, vram, palette, x, y)(i) } else { obj })
    } else if mode == 3 && bg2 {
        Some(
            |i: int|
                if i == 2 {
                    mode3_pixel(io, vram, x, y)
                } else if i == 4 {
                    obj
                } else {
                    idle_pixel()
                },
        )
    } else if mode == 4 && bg2 {
        Some(
            |i: int|
                if i == 2 {
                    mode4_pixel(io, vram, palette, x, y, frame)
                } else if i == 4 {
                    obj
                } else {
                    idle_pixel()
                },
        )
    } else if mode == 5 && bg2 {
        Some(
            |i: int|
                if i == 2 {
                    mode5_pixel(io, vram, x, y, frame)
                } else if i == 4 {
                    obj
                } else {
                    idle_pixel()
                },
        )
    } else {
        None
    }
}

/// The colour shown at (`x`, `y`): the layers composed through the window
/// masks with the colour effects, or the backdrop alone.
pub open spec fn scanline_color(
    io: IoView,
    vram: Seq<u8>,
    palette: Seq<u8>,
    oam: Seq<u8>,
    x: int,
    y: int,
) -> u16 {
    match line_cands(io, vram, palette, oam, x, y) {
        Some(c) => scene_color(
            c,
            window_mask_at(io, obj_window_mask_spec(io, vram, oam, y), x, y),
            effect_config_spec(io.bldcnt, io.bldalpha, io.bldy),
            palette_color(palette, 0),
        ),
        None => palette_color(palette, 0),
    }
}

/// The LCD's state: the scanline being drawn, the cycles spent on it, the
/// framebuffer, and whether a finished frame awaits.
pub struct PpuView {
    pub vcount: u16,
    pub line_cycles: u32,
    pub framebuffer: Seq<u16>,
    pub frame_ready: bool,
}

impl PpuView {
    pub open spec fn valid(self) -> bool {
        &&& self.vcount < TOTAL_SCANLINES
        &&& self.line_cycles < SCANLINE_CYCLES
        &&& self.framebuffer.len() == FRAME_PIXELS
    }
}

/// The current scanline drawn into the framebuffer.
pub open spec fn render_line(s: PpuView, io: IoView, vram: Seq<u8>, palette: Seq<u8>, oam: Seq<u8>) -> PpuView {
    PpuView {
        framebuffer: with_line(
            s.framebuffer,
            s.vcount as int,
            |x: int| scanline_color(io, vram, palette, oam, x, s.vcount as int),
        ),
        ..s
    }
}

/// The end of a scanline: H-blank ends, the next line starts; line 160
/// starts V-blank and completes a frame, and after line 227 the count
/// returns to 0 and V-blank ends; VCOUNT follows.
pub open spec fn finish_line(s: PpuView, io: IoView) -> (PpuView, IoView) {
    let io1 = io.with_hblank(false);
    let next = s.vcount + 1;
    let (v, ready, io2) = if next == SCREEN_HEIGHT {
        (next as u16, true, io1.with_vblank(true))
    } else if next == TOTAL_SCANLINES {
        (0u16, s.frame_ready, io1.with_vblank(false))
    } else {
        (next as u16, s.frame_ready, io1)
    };
    (PpuView { vcount: v, line_cycles: 0, frame_ready: ready, ..s }, io2.with_vcount(v))
}

/// `remaining` cycles of LCD time: each scanline is 960 cycles of drawing,
/// at whose end H-blank starts and a visible line is rendered, then 272
/// cycles of H-blank, at whose end the line finishes.
pub open spec fn advance(
    s: PpuView,
    io: IoView,
    vram: Seq<u8>,
    palette: Seq<u8>,
    oam: Seq<u8>,
    remaining: nat,
) -> (PpuView, IoView)
    decreases remaining,
{
    if remaining == 0 || s.line_cycles >= SCANLINE_CYCLES {
        (s, io)
    } else {
        let boundary = if s.line_cycles < HDRAW_CYCLES {
            HDRAW_CYCLES
        } else {
            SCANLINE_CYCLES
        };
        let step = if remaining < boundary - s.line_cycles {
            remaining
        } else {
            (boundary - s.line_cycles) as nat
        };
        let s1 = PpuView { line_cycles: (s.line_cycles + step) as u32, ..s };
        let (s2, io2) = if s1.line_cycles == HDRAW_CYCLES {
            let io1 = io.with_hblank(true);
            (
                if s1.vcount < SCREEN_HEIGHT {
                    render_line(s1, io1, vram, palette, oam)
                } else {
                    s1
                },
                io1,
            )
        } else {
            (s1, io)
        };
        let (s3, io3) = if s2.line_cycles == SCANLINE_CYCLES {
            finish_line(s2, io2)
        } else {
            (s2, io2)
        };
        advance(s3, io3, vram, palette, oam, (remaining - step) as nat)
    }
}

/// The LCD controller.
#[derive(Debug, Clone)]
pub struct Ppu {
    vcount: u16,
    line_cycles: u32,
    framebuffer: Box<[u16; FRAME_PIXELS]>,
    frame_ready: bool,
}

impl View for Ppu {
    type V = PpuView;

    closed spec fn view(&self) -> PpuView {
        PpuView {
            vcount: self.vcount,
            line_cycles: self.line_cycles,
            framebuffer: self.framebuffer@,
            frame_ready: self.frame_ready,
        }
    }
}

/// The scene colours of scanline `y` written into the framebuffer, given
/// the four background layers.
fn compose_with_obj(
    framebuffer: &mut [u16; FRAME_PIXELS],
    io: &IoRegs,
    palette: &[u8],
    vram: &[u8],
    oam: &[u8],
    y: usize,
    bg_layers: &[[LayerPixel; SCREEN_WIDTH]; BG_LAYER_COUNT],
    cands: Ghost<spec_fn(int, int) -> LayerPixel>,
)
    requires
        y < SCREEN_HEIGHT,
        forall|i: int, x: int|
            0 <= i < BG_LAYER_COUNT && 0 <= x < SCREEN_WIDTH ==> #[trigger] bg_layers@[i]@[x]
                == cands@(x, i),
        forall|x: int|
            0 <= x < SCREEN_WIDTH ==> #[trigger] cands@(x, 4) == obj_pixel(
                io@,
                vram@,
                palette@,
                oam@,
                x,
                y as int,
            ),
    ensures
        final(framebuffer)@ == with_line(
            old(framebuffer)@,
            y as int,
            |x: int|
                scene_color(
                    |i: int| cands@(x, i),
                    window_mask_at(io@, obj_window_mask_spec(io@, vram@, oam@, y as int), x, y as int),
                    effect_config_spec(io@.bldcnt, io@.bldalpha, io@.bldy),
                    palette_color(palette@, 0),
                ),
        ),
{
    let idle = LayerPixel::transparent(4, 0xff);
    let mut layers = [[idle; SCREEN_WIDTH]; TOTAL_LAYER_COUNT];
    layers[0] = bg_layers[0];
    layers[1] = bg_layers[1];
    layers[2] = bg_layers[2];
    layers[3] = bg_layers[3];
    render_obj_layer(&mut layers[4], io, vram, palette, oam, y);
    let window_masks = build_window_scanline(io, vram, oam, y);
    let effects = EffectConfig::from_io(io);
    let backdrop = backdrop_color(palette);
    compose_layers_scanline_with_effects(framebuffer, y, backdrop, &layers, &window_masks, effects);
    proof {
        assert forall|x: int| 0 <= x < SCREEN_WIDTH implies scene_color(
            |i: int| layers@[i]@[x],
            window_masks@[x],
            effects,
            backdrop,
        ) == scene_color(
            |i: int| cands@(x, i),
            window_mask_at(io@, obj_window_mask_spec(io@, vram@, oam@, y as int), x, y as int),
            effect_config_spec(io@.bldcnt, io@.bldalpha, io@.bldy),
            palette_color(palette@, 0),
        ) by {
            let mask = window_masks@[x];
            assert(mask == window_mask_at(io@, obj_window_mask_spec(io@, vram@, oam@, y as int), x, y as int));
            let back = LayerPixel { color: backdrop, priority: 4, order: 0xff, transparent: false };
            let f1 = |i: int| layers@[i]@[x];
            let f2 = |i: int| cands@(x, i);
            let c1 = |i: int| masked(f1(i), window_visible(mask, i));
            let c2 = |i: int| masked(f2(i), window_visible(mask, i));
            assert forall|i: int| 0 <= i < TOTAL_LAYER_COUNT implies #[trigger] c1(i) == c2(i) by {
                if i < 4 {
                    assert(bg_layers@[i]@[x] == cands@(x, i));
                } else {
                    assert(cands@(x, 4) == obj_pixel(io@, vram@, palette@, oam@, x, y as int));
                }
            }
            lemma_top_two_ext(
                c1,
                c2,
                TOTAL_LAYER_COUNT as int,
                (back, BACKDROP_LAYER as int, back, BACKDROP_LAYER as int),
            );
        }
    }
    assert(framebuffer@ =~= with_line(
        old(framebuffer)@,
        y as int,
        |x: int|
            scene_color(
                |i: int| cands@(x, i),
                window_mask_at(io@, obj_window_mask_spec(io@, vram@, oam@, y as int), x, y as int),
                effect_config_spec(io@.bldcnt, io@.bldalpha, io@.bldy),
                palette_color(palette@, 0),
            ),
    ));
}

/// Four empty background slots.
fn blank_bg_layers() -> (r: [[LayerPixel; SCREEN_WIDTH]; BG_LAYER_COUNT])
    ensures
        forall|i: int, x: int|
            0 <= i < BG_LAYER_COUNT && 0 <= x < SCREEN_WIDTH ==> r@[i]@[x] == idle_pixel(),
{
    [[LayerPixel::transparent(4, 0xff); SCREEN_WIDTH]; BG_LAYER_COUNT]
}

impl Ppu {
    /// Line 0, cycle 0, a black framebuffer, no frame ready.
    pub fn new() -> (r: Self)
        ensures
            r@.valid(),
            r@.vcount == 0,
            r@.line_cycles == 0,
            r@.framebuffer == Seq::new(FRAME_PIXELS as nat, |i: int| 0u16),
            !r@.frame_ready,
    {
        let r = Ppu {
            vcount: 0,
            line_cycles: 0,
            framebuffer: Box::new([0u16; FRAME_PIXELS]),
            frame_ready: false,
        };
        assert(r@.framebuffer =~= Seq::new(FRAME_PIXELS as nat, |i: int| 0u16));
        r
    }

    /// The scanline being drawn.
    pub fn vcount(&self) -> (r: u16)
        ensures
            r == self@.vcount,
    {
        self.vcount
    }

    pub fn framebuffer(&self) -> (r: &[u16; FRAME_PIXELS])
        ensures
            r@ == self@.framebuffer,
    {
        &self.framebuffer
    }

    /// Whether a frame was completed and not yet taken.
    pub fn frame_ready(&self) -> (r: bool)
        ensures
            r == self@.frame_ready,
    {
        self.frame_ready
    }

    /// Whether a frame was completed, clearing the flag.
    pub fn take_frame_ready(&mut self) -> (r: bool)
        ensures
            r == old(self)@.frame_ready,
            final(self)@ == (PpuView { frame_ready: false, ..old(self)@ }),
    {
        let ready = self.frame_ready;
        self.frame_ready = false;
        ready
    }

    /// Draw the current (visible) scanline; see `render_line`.
    fn render_visible_scanline(&mut self, io: &IoRegs, vram: &[u8], palette: &[u8], oam: &[u8])
        requires
            old(self)@.valid(),
            old(self)@.vcount < SCREEN_HEIGHT,
        ensures
            final(self)@ == render_line(old(self)@, io@, vram@, palette@, oam@),
    {
        proof {
            io.lemma_valid();
        }
        let y = self.vcount as usize;
        let ghost yi = y as int;
        let ghost obj = |x: int| obj_pixel(io@, vram@, palette@, oam@, x, yi);
        let mode = io.display_mode();
        let bg2 = io.bg2_enabled();
        let frame = io.display_frame_select();
        let ghost cands: spec_fn(int, int) -> LayerPixel;
        if mode == 0 {
            let layers = render_mode0_layers(io, vram, palette, y);
            proof {
                cands = |x: int, i: int| if i < 4 { mode0_cands(io@, vram@, palette@, x, yi)(i) } else { obj(x) };
            }
            compose_with_obj(&mut self.framebuffer, io, palette, vram, oam, y, &layers, Ghost(cands));
        } else if mode == 1 {
            let layers = render_mode1_layers(io, vram, palette, y);
            proof {
                cands = |x: int, i: int| if i < 4 { mode1_cands(io@, vram@, palette@, x, yi)(i) } else { obj(x) };
            }
            compose_with_obj(&mut self.framebuffer, io, palette, vram, oam, y, &layers, Ghost(cands));
        } else if mode == 2 {
            let layers = render_mode2_layers(io, vram, palette, y);
            proof {
                cands = |x: int, i: int| if i < 4 { mode2_cands(io@, vram@, palette@, x, yi)(i) } else { obj(x) };
            }
            compose_with_obj(&mut self.framebuffer, io, palette, vram, oam, y, &layers, Ghost(cands));
        } else if mode == 3 && bg2 {
            let mut layers = blank_bg_layers();
            mode3::render_layer(&mut layers[2], io, vram, y);
            proof {
                cands = |x: int, i: int| if i == 2 { mode3_pixel(io@, vram@, x, yi) } else if i == 4 { obj(x) } else { idle_pixel() };
            }
            compose_with_obj(&mut self.framebuffer, io, palette, vram, oam, y, &layers, Ghost(cands));
        } else if mode == 4 && bg2 {
            let mut layers = blank_bg_layers();
            mode4::render_layer(&mut layers[2], io, vram, palette, y, frame);
            proof {
                cands = |x: int, i: int| if i == 2 { mode4_pixel(io@, vram@, palette@, x, yi, frame) } else if i == 4 { obj(x) } else { idle_pixel() };
            }
            compose_with_obj(&mut self.framebuffer, io, palette, vram, oam, y, &layers, Ghost(cands));
        } else if mode == 5 && bg2 {
            let mut layers = blank_bg_layers();
            mode5::render_layer(&mut layers[2], io, vram, y, frame);
            proof {
                cands = |x: int, i: int| if i == 2 { mode5_pixel(io@, vram@, x, yi, frame) } else if i == 4 { obj(x) } else { idle_pixel() };
            }
            compose_with_obj(&mut self.framebuffer, io, palette, vram, oam, y, &layers, Ghost(cands));
        } else {
            fill_scanline(&mut self.framebuffer, y, backdrop_color(palette));
            assert(self@.framebuffer =~= render_line(old(self)@, io@, vram@, palette@, oam@).framebuffer);
            return;
        }
        proof {
            assert forall|x: int| 0 <= x < SCREEN_WIDTH implies scene_color(
                |i: int| cands(x, i),
                window_mask_at(io@, obj_window_mask_spec(io@, vram@, oam@, yi), x, yi),
                effect_config_spec(io@.bldcnt, io@.bldalpha, io@.bldy),
                palette_color(palette@, 0),
            ) == scanline_color(io@, vram@, palette@, oam@, x, yi) by {
                let c = line_cands(io@, vram@, palette@, oam@, x, yi).unwrap();
                lemma_scene_color_ext(
                    |i: int| cands(x, i),
                    c,
                    window_mask_at(io@, obj_window_mask_spec(io@, vram@, oam@, yi), x, yi),
                    effect_config_spec(io@.bldcnt, io@.bldalpha, io@.bldy),
                    palette_color(palette@, 0),
                );
            }
        }
        assert(self@.framebuffer =~= render_line(old(self)@, io@, vram@, palette@, oam@).framebuffer);
    }

    /// End the current scanline; see `finish_line`.
    fn finish_scanline(&mut self, io: &mut IoRegs)
        requires
            old(self)@.vcount < TOTAL_SCANLINES,
            old(self)@.framebuffer.len() == FRAME_PIXELS,
        ensures
            (final(self)@, final(io)@) == finish_line(old(self)@, old(io)@),
            final(self)@.valid(),
    {
        self.line_cycles = 0;
        io.set_hblank(false);
        self.vcount = self.vcount + 1;
        if self.vcount == 160 {
            io.set_vblank(true);
            self.frame_ready = true;
        } else if self.vcount == TOTAL_SCANLINES {
            self.vcount = 0;
            io.set_vblank(false);
        }
        let v = self.vcount;
        io.set_vcount(v);
    }

    /// Run the LCD for `cycles` CPU cycles; see `advance`.
    pub fn step(&mut self, cycles: u32, io: &mut IoRegs, vram: &[u8], palette: &[u8], oam: &[u8])
        requires
            old(self)@.valid(),
        ensures
            final(self)@.valid(),
            (final(self)@, final(io)@) == advance(
                old(self)@,
                old(io)@,
                vram@,
                palette@,
                oam@,
                cycles as nat,
            ),
    {
        let mut remaining = cycles;
        while remaining > 0
            invariant
                self@.valid(),
                advance(self@, io@, vram@, palette@, oam@, remaining as nat) == advance(
                    old(self)@,
                    old(io)@,
                    vram@,
                    palette@,
                    oam@,
                    cycles as nat,
                ),
            decreases remaining,
        {
            let boundary = if self.line_cycles < HDRAW_CYCLES {
                HDRAW_CYCLES
            } else {
                SCANLINE_CYCLES
            };
            let room = boundary - self.line_cycles;
            let step = if remaining < room {
                remaining
            } else {
                room
            };
            self.line_cycles = self.line_cycles + step;
            remaining = remaining - step;
            if self.line_cycles == HDRAW_CYCLES {
                io.set_hblank(true);
                if self.vcount < 160 {
                    self.render_visible_scanline(io, vram, palette, oam);
                }
            }
            if self.line_cycles == SCANLINE_CYCLES {
                self.finish_scanline(io);
            }
        }
    }

    /// Convert the framebuffer into 0x00RRGGBB pixels at the start of `out`.
    pub fn write_xrgb8888(&self, out: &mut [u32])
        requires
            old(out)@.len() >= FRAME_PIXELS,
        ensures
            final(out)@.len() == old(out)@.len(),
            forall|i: int| 0 <= i < FRAME_PIXELS ==> final(out)@[i] == xrgb_spec(self@.framebuffer[i]),
            forall|i: int| FRAME_PIXELS <= i < old(out)@.len() ==> final(out)@[i] == old(out)@[i],
    {
        let mut i: usize = 0;
        while i < FRAME_PIXELS
            invariant
                i <= FRAME_PIXELS,
                out@.len() == old(out)@.len(),
                old(out)@.len() >= FRAME_PIXELS,
                self@.framebuffer.len() == FRAME_PIXELS,
                forall|j: int| 0 <= j < i ==> out@[j] == xrgb_spec(self@.framebuffer[j]),
                forall|j: int| i <= j < old(out)@.len() ==> out@[j] == old(out)@[j],
            decreases FRAME_PIXELS - i,
        {
            out[i] = rgb555_to_xrgb8888(self.framebuffer[i]);
            i = i + 1;
        }
    }
}

impl Default for Ppu {
    fn default() -> (r: Self)
        ensures
            r@.valid(),
            r@.vcount == 0,
            r@.line_cycles == 0,
            !r@.frame_ready,
    {
        Ppu::new()
    }
}

/// Scanlines follow one another: finishing a line starts the next (after
/// line 227, line 0) at cycle 0 with H-blank over and VCOUNT following;
/// starting line 160 begins V-blank and completes a frame.
pub proof fn lemma_scanline_sequence(s: PpuView, io: IoView)
    requires
        s.valid(),
    ensures
        ({
            let (t, io2) = finish_line(s, io);
            &&& t.vcount == (s.vcount + 1) % (TOTAL_SCANLINES as int)
            &&& t.line_cycles == 0
            &&& t.valid()
            &&& io2.vcount == t.vcount
            &&& io2.dispstat & 2 == 0
            &&& s.vcount + 1 == SCREEN_HEIGHT ==> t.frame_ready && io2.dispstat & 1 != 0
        }),
{
    let io1 = io.with_hblank(false);
    lemma_halfword_bits(io.dispstat);
    lemma_halfword_bits(io1.dispstat);
    let next = s.vcount + 1;
    let (v, ready, io2) = if next == SCREEN_HEIGHT {
        (next as u16, true, io1.with_vblank(true))
    } else if next == TOTAL_SCANLINES {
        (0u16, s.frame_ready, io1.with_vblank(false))
    } else {
        (next as u16, s.frame_ready, io1)
    };
    lemma_halfword_bits(io2.dispstat);
    lemma_halfword_bits(v);
}

/// A byte `k` places into a sequence is the byte at `i` of the sequence
/// with its first `k` bytes dropped.
proof fn lemma_skip_byte(s: Seq<u8>, k: int, i: int)
    requires
        0 <= k <= s.len(),
        0 <= i,
    ensures
        byte_or_zero(s.skip(k), i) == byte_or_zero(s, i + k),
{
}

/// How the bitmap modes lay their pixels out in VRAM: mode 3 stores 240
/// two-byte pixels per row, mode 4 240 one-byte palette indices per row and
/// mode 5 160 two-byte pixels per row; the second frame of modes 4 and 5
/// is the first frame's layout 0xA000 bytes further on. So the pixel one
/// row down, or one to the right, of a bitmap is the same pixel of the
/// bitmap that starts a row, or a pixel, later in VRAM.
#[verifier::spinoff_prover]
#[verifier::rlimit(40)]
pub proof fn lemma_bitmap_layout(vram: Seq<u8>, palette: Seq<u8>, x: int, y: int, frame: bool)
    requires
        vram.len() == 0x18000,
        0 <= x,
        0 <= y,
    ensures
        mode3::mode3_color(vram, x, y + 1) == mode3::mode3_color(vram.skip(480), x, y),
        mode3::mode3_color(vram, x + 1, y) == mode3::mode3_color(vram.skip(2), x, y),
        mode4::mode4_color(vram, palette, x, y, true) == mode4::mode4_color(vram.skip(0xa000), palette, x, y, false),
        mode4::mode4_color(vram, palette, x, y + 1, false) == mode4::mode4_color(vram.skip(240), palette, x, y, false),
        mode4::mode4_color(vram, palette, x + 1, y, false) == mode4::mode4_color(vram.skip(1), palette, x, y, false),
        mode5::mode5_color(vram, x, y, true) == mode5::mode5_color(vram.skip(0xa000), x, y, false),
        mode5::mode5_color(vram, x, y + 1, false) == mode5::mode5_color(vram.skip(320), x, y, false),
        mode5::mode5_color(vram, x + 1, y, false) == mode5::mode5_color(vram.skip(2), x, y, false),
{
    let o3 = (y * 240 + x) * 2;
    assert((y * 240 + x) * 2 >= 0) by (nonlinear_arith)
        requires
            x >= 0,
            y >= 0,
    ;
    let o4 = y * 240 + x;
    let o5 = (y * 160 + x) * 2;
    assert((y * 160 + x) * 2 >= 0) by (nonlinear_arith)
        requires
            x >= 0,
            y >= 0,
    ;
    assert((y + 1) * 240 == y * 240 + 240) by (nonlinear_arith);
    assert((y + 1) * 160 == y * 160 + 160) by (nonlinear_arith);
    lemma_skip_byte(vram, 480, o3);
    lemma_skip_byte(vram, 480, o3 + 1);
    lemma_skip_byte(vram, 2, o3);
    lemma_skip_byte(vram, 2, o3 + 1);
    lemma_skip_byte(vram, 0xa000, o4);
    lemma_skip_byte(vram, 240, o4);
    lemma_skip_byte(vram, 1, o4);
    lemma_skip_byte(vram, 0xa000, o5);
    lemma_skip_byte(vram, 0xa000, o5 + 1);
    lemma_skip_byte(vram, 320, o5);
    lemma_skip_byte(vram, 320, o5 + 1);
    lemma_skip_byte(vram, 2, o5);
    lemma_skip_byte(vram, 2, o5 + 1);
}

} // verus!
