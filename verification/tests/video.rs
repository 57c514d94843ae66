use rgba_core::io::IoRegs;
use rgba_core::ppu::bg::{render_mode0_scanline, render_mode1_scanline};
use rgba_core::ppu::compose::{
    clear_layer, compose_bg_layers_scanline, LayerPixel, BG_LAYER_COUNT,
};
use rgba_core::ppu::effect::{alpha_blend, brighten, darken, BlendMode, EffectConfig};
use rgba_core::ppu::mode5::{render_layer, MODE5_WIDTH};
use rgba_core::ppu::obj::render_obj_layer;
use rgba_core::ppu::window::{build_window_scanline, contains_coordinate, WindowMask};
use rgba_core::ppu::{
    rgb555_to_xrgb8888, Ppu, FRAME_PIXELS, HDRAW_CYCLES, SCANLINE_CYCLES, SCREEN_HEIGHT,
    SCREEN_WIDTH,
};

fn write_u16(slice: &mut [u8], offset: usize, value: u16) {
    slice[offset] = value as u8;
    slice[offset + 1] = (value >> 8) as u8;
}

fn write_pixel(vram: &mut [u8], x: usize, y: usize, color: u16) {
    let offset = ((y * 240) + x) * 2;
    write_u16(vram, offset, color);
}

#[test]
fn compose_prefers_lower_priority_number() {
    let mut framebuffer = Box::new([0; FRAME_PIXELS]);
    let mut layers = [[LayerPixel::transparent(3, 3); SCREEN_WIDTH]; BG_LAYER_COUNT];

    clear_layer(&mut layers[1], 1, 1);
    clear_layer(&mut layers[2], 0, 2);
    layers[1][0] = LayerPixel::opaque(0x001f, 1, 1);
    layers[2][0] = LayerPixel::opaque(0x03e0, 0, 2);

    compose_bg_layers_scanline(&mut framebuffer, 0, 0x7c00, &layers);

    assert_eq!(framebuffer[0], 0x03e0);
}

#[test]
fn compose_uses_lower_bg_index_as_tie_breaker() {
    let mut framebuffer = Box::new([0; FRAME_PIXELS]);
    let mut layers = [[LayerPixel::transparent(3, 3); SCREEN_WIDTH]; BG_LAYER_COUNT];

    clear_layer(&mut layers[0], 2, 0);
    clear_layer(&mut layers[1], 2, 1);
    layers[0][0] = LayerPixel::opaque(0x001f, 2, 0);
    layers[1][0] = LayerPixel::opaque(0x03e0, 2, 1);

    compose_bg_layers_scanline(&mut framebuffer, 0, 0x7c00, &layers);

    assert_eq!(framebuffer[0], 0x001f);
}

#[test]
fn compose_falls_back_to_backdrop_when_all_layers_are_transparent() {
    let mut framebuffer = Box::new([0; FRAME_PIXELS]);
    let layers = [[LayerPixel::transparent(3, 3); SCREEN_WIDTH]; BG_LAYER_COUNT];

    compose_bg_layers_scanline(&mut framebuffer, 0, 0x56b5, &layers);

    assert_eq!(framebuffer[0], 0x56b5);
}

#[test]
fn alpha_blend_combines_two_rgb555_colors() {
    let color = alpha_blend(0x001f, 0x03e0, 8, 8);
    assert_eq!(color, 0x01ef);
}

#[test]
fn brighten_moves_channels_toward_white() {
    let color = brighten(0x001f, 8);
    assert!(color > 0x001f);
}

#[test]
fn darken_moves_channels_toward_black() {
    let color = darken(0x7fff, 8);
    assert!(color < 0x7fff);
}

#[test]
fn effect_config_decodes_mmio_registers() {
    let mut io = IoRegs::new();
    io.write_16(0x0400_0050, 0x2144);
    io.write_16(0x0400_0052, 0x1008);
    io.write_16(0x0400_0054, 0x0012);

    let config = EffectConfig::from_io(&io);
    assert_eq!(config.mode, BlendMode::Alpha);
    assert_eq!(config.first_target_mask, 0x0004);
    assert_eq!(config.second_target_mask, 0x0021);
    assert_eq!(config.eva, 8);
    assert_eq!(config.evb, 16);
    assert_eq!(config.evy, 16);
}

const BG0_MODE0: u16 = 0x0100;
const BG0_BG1_MODE0: u16 = 0x0300;
const BG2_MODE1: u16 = 0x0401;
const MODE3_BG2: u16 = 0x0403;
const MODE4_BG2: u16 = 0x0404;
const BG0CNT_BLOCK1: u16 = 0x0104;
const BG1CNT_BLOCK1_PRIORITY0: u16 = 0x0104;
const BG0CNT_PRIORITY1: u16 = 0x0001;
const BG2CNT_BLOCK1: u16 = 0x0104;

#[test]
fn mode3_hblank_renders_visible_scanline() {
    let mut ppu = Ppu::new();
    let mut io = IoRegs::new();
    let mut vram = vec![0; 0x18000];
    let palette = vec![0; 0x400];
    io.write_16(0x0400_0000, MODE3_BG2);
    write_pixel(&mut vram, 0, 0, 0x001f);
    write_pixel(&mut vram, 1, 0, 0x03e0);

    let oam = vec![0; 0x400];
    ppu.step(HDRAW_CYCLES, &mut io, &vram, &palette, &oam);

    assert_eq!(ppu.framebuffer()[0], 0x001f);
    assert_eq!(ppu.framebuffer()[1], 0x03e0);
    assert_ne!(io.dispstat() & 0x0002, 0);
}

#[test]
fn mode4_hblank_renders_palette_bitmap_scanline() {
    let mut ppu = Ppu::new();
    let mut io = IoRegs::new();
    let mut vram = vec![0; 0x18000];
    let mut palette = vec![0; 0x400];
    io.write_16(0x0400_0000, MODE4_BG2);
    write_u16(&mut palette, 2, 0x001f);
    write_u16(&mut palette, 4, 0x03e0);
    vram[0] = 1;
    vram[1] = 2;

    let oam = vec![0; 0x400];
    ppu.step(HDRAW_CYCLES, &mut io, &vram, &palette, &oam);

    assert_eq!(ppu.framebuffer()[0], 0x001f);
    assert_eq!(ppu.framebuffer()[1], 0x03e0);
}

#[test]
fn mode0_bg0_renders_text_tiles_from_vram() {
    let mut ppu = Ppu::new();
    let mut io = IoRegs::new();
    let mut vram = vec![0; 0x18000];
    let mut palette = vec![0; 0x400];
    io.write_16(0x0400_0000, BG0_MODE0);
    io.write_16(0x0400_0008, BG0CNT_BLOCK1);
    write_u16(&mut palette, 0, 0x0000);
    write_u16(&mut palette, 2, 0x001f);
    write_u16(&mut palette, 4, 0x03e0);

    vram[0x4000] = 0x21;
    vram[0x4001] = 0x21;
    vram[0x4002] = 0x21;
    vram[0x4003] = 0x21;
    write_u16(&mut vram, 0x0800, 0x0000);

    let oam = vec![0; 0x400];
    ppu.step(HDRAW_CYCLES, &mut io, &vram, &palette, &oam);

    assert_eq!(ppu.framebuffer()[0], 0x001f);
    assert_eq!(ppu.framebuffer()[1], 0x03e0);
    assert_eq!(ppu.framebuffer()[2], 0x001f);
    assert_eq!(ppu.framebuffer()[3], 0x03e0);
}

#[test]
fn mode0_composes_multiple_backgrounds_by_priority() {
    let mut ppu = Ppu::new();
    let mut io = IoRegs::new();
    let mut vram = vec![0; 0x18000];
    let mut palette = vec![0; 0x400];
    io.write_16(0x0400_0000, BG0_BG1_MODE0);
    io.write_16(0x0400_0008, BG0CNT_PRIORITY1);
    io.write_16(0x0400_000a, BG1CNT_BLOCK1_PRIORITY0);
    write_u16(&mut palette, 0, 0x0000);
    write_u16(&mut palette, 2, 0x001f);
    write_u16(&mut palette, 4, 0x03e0);

    vram[0x0000] = 0x11;
    vram[0x0001] = 0x11;
    vram[0x0002] = 0x11;
    vram[0x0003] = 0x11;
    write_u16(&mut vram, 0x0000, 0x0000);

    vram[0x4000] = 0x22;
    vram[0x4001] = 0x22;
    vram[0x4002] = 0x22;
    vram[0x4003] = 0x22;
    write_u16(&mut vram, 0x0800, 0x0000);

    let oam = vec![0; 0x400];
    ppu.step(HDRAW_CYCLES, &mut io, &vram, &palette, &oam);

    assert_eq!(ppu.framebuffer()[0], 0x03e0);
    assert_eq!(ppu.framebuffer()[1], 0x03e0);
}

#[test]
fn mode1_renders_affine_bg2_with_identity_transform() {
    let mut ppu = Ppu::new();
    let mut io = IoRegs::new();
    let mut vram = vec![0; 0x18000];
    let mut palette = vec![0; 0x400];
    io.write_16(0x0400_0000, BG2_MODE1);
    io.write_16(0x0400_000c, BG2CNT_BLOCK1);
    io.write_16(0x0400_0020, 0x0100);
    io.write_16(0x0400_0022, 0x0000);
    io.write_16(0x0400_0024, 0x0000);
    io.write_16(0x0400_0026, 0x0100);

    write_u16(&mut palette, 2, 0x001f);
    write_u16(&mut palette, 4, 0x03e0);
    vram[0x4000] = 1;
    vram[0x4001] = 2;
    vram[0x0800] = 0;

    let oam = vec![0; 0x400];
    ppu.step(HDRAW_CYCLES, &mut io, &vram, &palette, &oam);

    assert_eq!(ppu.framebuffer()[0], 0x001f);
    assert_eq!(ppu.framebuffer()[1], 0x03e0);
}

#[test]
fn entering_vblank_marks_frame_ready_and_updates_vcount() {
    let mut ppu = Ppu::new();
    let mut io = IoRegs::new();
    let vram = vec![0; 0x18000];
    let palette = vec![0; 0x400];

    let oam = vec![0; 0x400];
    ppu.step(
        SCANLINE_CYCLES * SCREEN_HEIGHT as u32,
        &mut io,
        &vram,
        &palette,
        &oam,
    );

    assert_eq!(ppu.vcount(), SCREEN_HEIGHT as u16);
    assert_eq!(io.vcount(), SCREEN_HEIGHT as u16);
    assert_ne!(io.dispstat() & 0x0001, 0);
    assert!(ppu.take_frame_ready());
    assert!(!ppu.take_frame_ready());
}

#[test]
fn xrgb_conversion_expands_rgb555_channels() {
    assert_eq!(rgb555_to_xrgb8888(0x001f), 0x00ff_0000);
    assert_eq!(rgb555_to_xrgb8888(0x03e0), 0x0000_ff00);
    assert_eq!(rgb555_to_xrgb8888(0x7c00), 0x0000_00ff);
}

#[test]
fn framebuffer_size_matches_visible_screen() {
    let ppu = Ppu::new();
    assert_eq!(ppu.framebuffer().len(), FRAME_PIXELS);
}

#[test]
fn mode0_obj_pixels_render_on_top_of_backdrop() {
    let mut ppu = Ppu::new();
    let mut io = IoRegs::new();
    let mut vram = vec![0; 0x18000];
    let mut palette = vec![0; 0x400];
    let mut oam = vec![0; 0x400];

    io.write_16(0x0400_0000, 0x1040);
    write_u16(&mut palette, 0x200 + 2, 0x001f);
    write_u16(&mut oam, 0x0000, 0x0000);
    write_u16(&mut oam, 0x0002, 0x0000);
    write_u16(&mut oam, 0x0004, 0x0000);
    vram[0x1_0000] = 0x11;

    ppu.step(HDRAW_CYCLES, &mut io, &vram, &palette, &oam);

    assert_eq!(ppu.framebuffer()[0], 0x001f);
}

#[test]
fn mode5_renders_160_pixel_visible_area() {
    let mut io = IoRegs::new();
    let mut vram = vec![0; 0x18000];
    let mut layer = [LayerPixel::transparent(4, u8::MAX); SCREEN_WIDTH];

    io.write_16(0x0400_0000, 0x0405);
    vram[0] = 0x1f;
    vram[1] = 0x00;
    vram[(MODE5_WIDTH - 1) * 2] = 0xe0;
    vram[(MODE5_WIDTH - 1) * 2 + 1] = 0x03;

    render_layer(&mut layer, &io, &vram, 0, false);

    assert_eq!(layer[0], LayerPixel::opaque(0x001f, 0, 0x82));
    assert_eq!(layer[MODE5_WIDTH - 1], LayerPixel::opaque(0x03e0, 0, 0x82));
    assert!(layer[MODE5_WIDTH].transparent);
}

const DISPCNT_ADDR: u32 = 0x0400_0000;
const OBJ_ENABLED: u16 = 1 << 12;
const OBJ_1D_MAP: u16 = 1 << 6;
const OAM_BASE: usize = 0;
const OBJ_TILE_BASE: usize = 0x1_0000;

#[test]
fn regular_obj_fetches_expected_pixels_from_oam_and_vram() {
    let mut io = IoRegs::new();
    let mut vram = vec![0; 0x18000];
    let mut palette = vec![0; 0x400];
    let mut oam = vec![0; 0x400];
    let mut layer = [LayerPixel::transparent(4, u8::MAX); SCREEN_WIDTH];

    io.write_16(DISPCNT_ADDR, OBJ_ENABLED | OBJ_1D_MAP);
    write_u16(&mut palette, 0x200 + 2, 0x001f);
    write_u16(&mut palette, 0x200 + 4, 0x03e0);

    write_u16(&mut oam, OAM_BASE, 0x0000);
    write_u16(&mut oam, OAM_BASE + 2, 0x0000);
    write_u16(&mut oam, OAM_BASE + 4, 0x0000);

    vram[OBJ_TILE_BASE] = 0x21;
    vram[OBJ_TILE_BASE + 1] = 0x21;
    vram[OBJ_TILE_BASE + 2] = 0x21;
    vram[OBJ_TILE_BASE + 3] = 0x21;

    render_obj_layer(&mut layer, &io, &vram, &palette, &oam, 0);

    assert_eq!(layer[0], LayerPixel::opaque(0x001f, 0, 0));
    assert_eq!(layer[1], LayerPixel::opaque(0x03e0, 0, 0));
}

#[test]
fn obj_palette_zero_is_transparent() {
    let mut io = IoRegs::new();
    let mut vram = vec![0; 0x18000];
    let palette = vec![0; 0x400];
    let mut oam = vec![0; 0x400];
    let mut layer = [LayerPixel::transparent(4, u8::MAX); SCREEN_WIDTH];

    io.write_16(DISPCNT_ADDR, OBJ_ENABLED | OBJ_1D_MAP);
    write_u16(&mut oam, OAM_BASE, 0x0000);
    write_u16(&mut oam, OAM_BASE + 2, 0x0000);
    write_u16(&mut oam, OAM_BASE + 4, 0x0000);
    vram[OBJ_TILE_BASE] = 0x00;

    render_obj_layer(&mut layer, &io, &vram, &palette, &oam, 0);

    assert!(layer[0].transparent);
}

#[test]
fn obj_8bpp_uses_obj_palette_base() {
    let mut io = IoRegs::new();
    let mut vram = vec![0; 0x18000];
    let mut palette = vec![0; 0x400];
    let mut oam = vec![0; 0x400];
    let mut layer = [LayerPixel::transparent(4, u8::MAX); SCREEN_WIDTH];

    io.write_16(DISPCNT_ADDR, OBJ_ENABLED | OBJ_1D_MAP);
    write_u16(&mut palette, 0x200 + 2, 0x001f);
    write_u16(&mut oam, OAM_BASE, 0x2000);
    write_u16(&mut oam, OAM_BASE + 2, 0x0000);
    write_u16(&mut oam, OAM_BASE + 4, 0x0000);

    vram[OBJ_TILE_BASE] = 1;

    render_obj_layer(&mut layer, &io, &vram, &palette, &oam, 0);

    assert_eq!(layer[0], LayerPixel::opaque(0x001f, 0, 0));
}

#[test]
fn obj_hflip_and_vflip_change_sampling() {
    let mut io = IoRegs::new();
    let mut vram = vec![0; 0x18000];
    let mut palette = vec![0; 0x400];
    let mut oam = vec![0; 0x400];
    let mut layer = [LayerPixel::transparent(4, u8::MAX); SCREEN_WIDTH];

    io.write_16(DISPCNT_ADDR, OBJ_ENABLED | OBJ_1D_MAP);
    write_u16(&mut palette, 0x200 + 2, 0x001f);
    write_u16(&mut palette, 0x200 + 4, 0x03e0);
    write_u16(&mut palette, 0x200 + 6, 0x7c00);
    write_u16(&mut palette, 0x200 + 8, 0x7fe0);

    write_u16(&mut oam, OAM_BASE, 0x0000);
    write_u16(&mut oam, OAM_BASE + 2, 0x3000);
    write_u16(&mut oam, OAM_BASE + 4, 0x0000);

    vram[OBJ_TILE_BASE + 28] = 0x03;
    vram[OBJ_TILE_BASE + 31] = 0x40;

    render_obj_layer(&mut layer, &io, &vram, &palette, &oam, 0);

    assert_eq!(layer[0].color, 0x7fe0);
    assert_eq!(layer[7].color, 0x7c00);
}

#[test]
fn obj_1d_and_2d_mapping_select_different_tiles() {
    let mut io = IoRegs::new();
    let mut vram = vec![0; 0x18000];
    let mut palette = vec![0; 0x400];
    let mut oam = vec![0; 0x400];
    let mut layer = [LayerPixel::transparent(4, u8::MAX); SCREEN_WIDTH];

    write_u16(&mut palette, 0x200 + 2, 0x001f);
    write_u16(&mut palette, 0x200 + 4, 0x03e0);
    write_u16(&mut oam, OAM_BASE, 0x0000);
    write_u16(&mut oam, OAM_BASE + 2, 0x8000);
    write_u16(&mut oam, OAM_BASE + 4, 0x0000);

    vram[OBJ_TILE_BASE] = 0x11;
    vram[OBJ_TILE_BASE + 0x80] = 0x22;
    vram[OBJ_TILE_BASE + 0x400] = 0x11;

    io.write_16(DISPCNT_ADDR, OBJ_ENABLED | OBJ_1D_MAP);
    render_obj_layer(&mut layer, &io, &vram, &palette, &oam, 8);
    assert_eq!(layer[0].color, 0x03e0);

    layer.fill(LayerPixel::transparent(4, u8::MAX));
    io.write_16(DISPCNT_ADDR, OBJ_ENABLED);
    render_obj_layer(&mut layer, &io, &vram, &palette, &oam, 8);
    assert_eq!(layer[0].color, 0x001f);
}

#[test]
fn coordinate_ranges_support_wraparound() {
    assert!(contains_coordinate(250, 240, 16, 256));
    assert!(contains_coordinate(8, 240, 16, 256));
    assert!(!contains_coordinate(32, 240, 16, 256));
}

#[test]
fn no_window_bits_means_everything_is_visible() {
    let io = IoRegs::new();
    let masks = build_window_scanline(&io, &[], &[], 0);
    assert_eq!(masks[0], WindowMask::all_visible());
    assert_eq!(masks[239], WindowMask::all_visible());
}

#[test]
fn win0_replaces_outside_mask_inside_rect() {
    let mut io = IoRegs::new();
    io.write_16(0x0400_0000, 1 << 13);
    io.write_16(0x0400_0040, 0x1020);
    io.write_16(0x0400_0044, 0x0818);
    io.write_16(0x0400_0048, 0x0011);
    io.write_16(0x0400_004a, 0x0002);

    let masks = build_window_scanline(&io, &[], &[], 16);
    assert!(masks[0].bg[1]);
    assert!(!masks[0].bg[0]);
    assert!(masks[16].bg[0]);
    assert!(masks[16].obj);
    assert!(!masks[16].color_effect);
}

#[test]
fn obj_window_uses_winout_upper_byte_mask() {
    let mut io = IoRegs::new();
    let mut vram = vec![0; 0x18000];
    let mut oam = vec![0; 0x400];

    io.write_16(0x0400_0000, (1 << 12) | (1 << 15) | (1 << 6));
    io.write_16(0x0400_004a, 0x2001);
    oam[0] = 0x00;
    oam[1] = 0x08;
    vram[0x1_0000] = 0x11;

    let masks = build_window_scanline(&io, &vram, &oam, 0);
    assert!(masks[0].color_effect);
    assert!(!masks[0].obj);
    assert!(!masks[0].bg[0]);
}

fn bg_write_u16(slice: &mut [u8], offset: usize, value: u16) {
    slice[offset] = value as u8;
    slice[offset + 1] = (value >> 8) as u8;
}

const BG0CNT_ADDR: u32 = 0x0400_0008;
const BG1CNT_ADDR: u32 = 0x0400_000a;
const BG2CNT_ADDR: u32 = 0x0400_000c;
const BG0HOFS_ADDR: u32 = 0x0400_0010;
const BG2PA_ADDR: u32 = 0x0400_0020;
const BG2PB_ADDR: u32 = 0x0400_0022;
const BG2PC_ADDR: u32 = 0x0400_0024;
const BG2PD_ADDR: u32 = 0x0400_0026;

#[test]
fn mode0_multiple_backgrounds_compose_by_priority() {
    let mut framebuffer = Box::new([0; FRAME_PIXELS]);
    let mut io = IoRegs::new();
    let mut vram = vec![0; 0x18000];
    let mut palette = vec![0; 0x400];

    io.write_16(DISPCNT_ADDR, 0x0300);
    io.write_16(BG0CNT_ADDR, 0x0000);
    io.write_16(BG1CNT_ADDR, 0x0105);

    bg_write_u16(&mut palette, 2, 0x001f);
    bg_write_u16(&mut palette, 4, 0x03e0);

    vram[0x0000] = 0x11;
    vram[0x0001] = 0x11;
    vram[0x0002] = 0x11;
    vram[0x0003] = 0x11;
    bg_write_u16(&mut vram, 0x0000, 0x0000);

    vram[0x4000] = 0x22;
    vram[0x4001] = 0x22;
    vram[0x4002] = 0x22;
    vram[0x4003] = 0x22;
    bg_write_u16(&mut vram, 0x0800, 0x0000);

    render_mode0_scanline(&mut framebuffer, &io, &vram, &palette, 0);

    assert_eq!(framebuffer[0], 0x03e0);
    assert_eq!(framebuffer[1], 0x03e0);
}

#[test]
fn mode0_scroll_changes_visible_tile_sample() {
    let mut framebuffer = Box::new([0; FRAME_PIXELS]);
    let mut io = IoRegs::new();
    let mut vram = vec![0; 0x18000];
    let mut palette = vec![0; 0x400];

    io.write_16(DISPCNT_ADDR, 0x0100);
    io.write_16(BG0CNT_ADDR, 0x0000);
    io.write_16(BG0HOFS_ADDR, 8);

    bg_write_u16(&mut palette, 2, 0x001f);
    bg_write_u16(&mut palette, 4, 0x03e0);

    vram[0x0000] = 0x11;
    vram[0x0001] = 0x11;
    vram[0x0002] = 0x11;
    vram[0x0003] = 0x11;
    vram[0x0020] = 0x22;
    vram[0x0021] = 0x22;
    vram[0x0022] = 0x22;
    vram[0x0023] = 0x22;
    bg_write_u16(&mut vram, 0x0000, 0x0000);
    bg_write_u16(&mut vram, 0x0002, 0x0001);

    render_mode0_scanline(&mut framebuffer, &io, &vram, &palette, 0);

    assert_eq!(framebuffer[0], 0x03e0);
}

#[test]
fn mode1_affine_bg2_identity_transform_fetches_expected_pixels() {
    let mut framebuffer = Box::new([0; FRAME_PIXELS]);
    let mut io = IoRegs::new();
    let mut vram = vec![0; 0x18000];
    let mut palette = vec![0; 0x400];

    io.write_16(DISPCNT_ADDR, 0x0401);
    io.write_16(BG2CNT_ADDR, 0x0104);
    io.write_16(BG2PA_ADDR, 0x0100);
    io.write_16(BG2PB_ADDR, 0x0000);
    io.write_16(BG2PC_ADDR, 0x0000);
    io.write_16(BG2PD_ADDR, 0x0100);

    bg_write_u16(&mut palette, 2, 0x001f);
    bg_write_u16(&mut palette, 4, 0x03e0);
    vram[0x4000] = 1;
    vram[0x4001] = 2;
    vram[0x0800] = 0;

    render_mode1_scanline(&mut framebuffer, &io, &vram, &palette, 0);

    assert_eq!(framebuffer[0], 0x001f);
    assert_eq!(framebuffer[1], 0x03e0);
}

#[test]
fn mode1_affine_layer_out_of_range_falls_back_to_backdrop_without_wrap() {
    let mut framebuffer = Box::new([0; FRAME_PIXELS]);
    let mut io = IoRegs::new();
    let mut vram = vec![0; 0x18000];
    let mut palette = vec![0; 0x400];

    io.write_16(DISPCNT_ADDR, 0x0401);
    io.write_16(BG2CNT_ADDR, 0x0104);
    io.write_16(BG2PA_ADDR, 0x0100);
    io.write_16(BG2PD_ADDR, 0x0100);
    io.write_32(0x0400_0028, 128 << 8);

    bg_write_u16(&mut palette, 0, 0x7c00);
    vram[0x4000] = 1;
    bg_write_u16(&mut palette, 2, 0x001f);
    vram[0x0800] = 0;

    render_mode1_scanline(&mut framebuffer, &io, &vram, &palette, 0);

    assert_eq!(framebuffer[0], 0x7c00);
}
