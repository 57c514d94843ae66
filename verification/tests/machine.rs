use rgba_core::arm7tdmi::{BusInterface, Mode, SP};
use rgba_core::{Button, Cartridge, EventKind, Gba, SCREEN_WIDTH};

const DISPCNT_ADDR: u32 = 0x0400_0000;
const DISPSTAT_ADDR: u32 = 0x0400_0004;
const VCOUNT_ADDR: u32 = 0x0400_0006;
const BG0CNT_ADDR: u32 = 0x0400_0008;
const BG1CNT_ADDR: u32 = 0x0400_000a;
const WIN0H_ADDR: u32 = 0x0400_0040;
const WIN0V_ADDR: u32 = 0x0400_0044;
const WININ_ADDR: u32 = 0x0400_0048;
const WINOUT_ADDR: u32 = 0x0400_004a;
const BLDCNT_ADDR: u32 = 0x0400_0050;
const BLDALPHA_ADDR: u32 = 0x0400_0052;
const DMA0SAD_ADDR: u32 = 0x0400_00b0;
const DMA0DAD_ADDR: u32 = 0x0400_00b4;
const DMA0CNT_L_ADDR: u32 = 0x0400_00b8;
const DMA0CNT_H_ADDR: u32 = 0x0400_00ba;
const TM0CNT_L_ADDR: u32 = 0x0400_0100;
const TM0CNT_H_ADDR: u32 = 0x0400_0102;
const KEYINPUT_ADDR: u32 = 0x0400_0130;
const IE_ADDR: u32 = 0x0400_0200;
const IME_ADDR: u32 = 0x0400_0208;
const PALETTE_ADDR: u32 = 0x0500_0000;
const VRAM_ADDR: u32 = 0x0600_0000;
const OAM_ADDR: u32 = 0x0700_0000;

const IRQ_VBLANK: u16 = 1 << 0;
const IRQ_TIMER0: u16 = 1 << 3;

const MODE3_BG2: u16 = 0x0403;
const MODE4_BG2: u16 = 0x0404;
const MODE0_BG0: u16 = 0x0100;
const MODE0_BG0_BG1_WIN0: u16 = 0x2300;
const MODE0_OBJ_1D: u16 = 0x1040;
const MODE0_BG0_OBJ_1D: u16 = 0x1140;
const MODE0_BG0_OBJ_1D_OBJWIN: u16 = 0x9140;
const MODE5_BG2: u16 = 0x0405;
const BG0CNT_SCREEN1_CHAR1: u16 = 0x0104;
const BG0CNT_SCREEN1_CHAR0: u16 = 0x0100;
const BG1CNT_SCREEN2_CHAR1: u16 = 0x0204;

fn push_word(rom: &mut Vec<u8>, value: u32) {
    rom.extend_from_slice(&value.to_le_bytes());
}

fn idle_rom(words: usize) -> Vec<u8> {
    let mut rom = Vec::with_capacity(words * 4);
    for _ in 0..words {
        push_word(&mut rom, 0xe3a0_0000); // MOV r0, #0
    }
    rom
}

fn step_to_hblank(gba: &mut Gba) {
    for _ in 0..960 {
        gba.step();
    }
}

#[test]
fn cpu_fetches_instructions_through_core_bus() {
    let mut rom = Vec::new();
    push_word(&mut rom, 0xe580_1000); // STR r1, [r0]
    push_word(&mut rom, 0xe590_2000); // LDR r2, [r0]

    let mut gba = Gba::new(Cartridge::new(rom));
    gba.cpu_mut().set_pc(0x0800_0000);
    gba.cpu_mut().write_reg(0, 0x0200_0000);
    gba.cpu_mut().write_reg(1, 0x1234_5678);

    gba.step();
    gba.step();

    assert_eq!(gba.cpu().read_reg(2), 0x1234_5678);
    assert_eq!(gba.bus_mut().read_32(0x0200_0000), 0x1234_5678);
}

#[test]
fn bus_exposes_gamepak_mirrors_to_the_cpu() {
    let mut rom = Vec::new();
    push_word(&mut rom, 0xe3a0_0000); // MOV r0, #0

    let mut gba = Gba::with_rom(rom);
    gba.cpu_mut().set_pc(0x0a00_0000);

    gba.step();

    assert_eq!(gba.cpu().read_reg(0), 0);
    assert_eq!(gba.cpu().pc(), 0x0a00_0004);
}

#[test]
fn cpu_reads_and_writes_mmio_through_core_bus() {
    let mut rom = Vec::new();
    push_word(&mut rom, 0xe580_1000); // STR r1, [r0]
    push_word(&mut rom, 0xe590_2000); // LDR r2, [r0]

    let mut gba = Gba::new(Cartridge::new(rom));
    gba.cpu_mut().set_pc(0x0800_0000);
    gba.cpu_mut().write_reg(0, IE_ADDR);
    gba.cpu_mut().write_reg(1, 0x00f3);

    gba.step();
    gba.step();

    assert_eq!(gba.bus().io().ie(), 0x00f3);
    assert_eq!(gba.cpu().read_reg(2), 0x00f3);
}

#[test]
fn scheduled_events_are_consumed_after_step_advances_time() {
    let mut rom = Vec::new();
    push_word(&mut rom, 0xe3a0_0000); // MOV r0, #0

    let mut gba = Gba::new(Cartridge::new(rom));
    gba.cpu_mut().set_pc(0x0800_0000);
    gba.bus_mut().write_16(DISPSTAT_ADDR, 1 << 3); // enable VBlank IRQ
    gba.schedule_event_in(1, EventKind::VBlank);

    let cycles = gba.step();

    assert_eq!(cycles, 1);
    assert_eq!(gba.scheduler().timestamp(), 1);
    assert_ne!(gba.bus().io().dispstat() & 0x0001, 0);
    assert_ne!(gba.bus().io().if_() & 0x0001, 0);
}

#[test]
fn hblank_event_updates_mmio_state() {
    let mut rom = Vec::new();
    push_word(&mut rom, 0xe3a0_0000); // MOV r0, #0

    let mut gba = Gba::new(Cartridge::new(rom));
    gba.cpu_mut().set_pc(0x0800_0000);
    gba.bus_mut().write_16(DISPCNT_ADDR, 3);
    gba.schedule_event_in(1, EventKind::HBlank);

    gba.step();

    assert_ne!(gba.bus().io().dispstat() & 0x0002, 0);
}

#[test]
fn gba_step_renders_mode3_scanline_into_framebuffer() {
    let mut gba = Gba::new(Cartridge::new(idle_rom(1024)));
    gba.cpu_mut().set_pc(0x0800_0000);
    gba.bus_mut().write_16(DISPCNT_ADDR, MODE3_BG2);
    gba.bus_mut().write_16(VRAM_ADDR, 0x001f);
    gba.bus_mut().write_16(VRAM_ADDR + 2, 0x03e0);

    for _ in 0..960 {
        gba.step();
    }

    assert_eq!(gba.ppu().framebuffer()[0], 0x001f);
    assert_eq!(gba.ppu().framebuffer()[1], 0x03e0);
}

#[test]
fn gba_step_advances_vcount_through_ppu() {
    let mut gba = Gba::new(Cartridge::new(idle_rom(1400)));
    gba.cpu_mut().set_pc(0x0800_0000);
    gba.bus_mut().write_16(DISPCNT_ADDR, MODE3_BG2);

    for _ in 0..1232 {
        gba.step();
    }

    assert_eq!(gba.bus().io().read_16(VCOUNT_ADDR), 1);
}

#[test]
fn ppu_marks_frame_ready_after_visible_frame() {
    let mut gba = Gba::new(Cartridge::new(idle_rom(160 * 1232 + 16)));
    gba.cpu_mut().set_pc(0x0800_0000);
    gba.bus_mut().write_16(DISPCNT_ADDR, MODE3_BG2);

    for _ in 0..(160 * 1232) {
        gba.step();
    }

    assert!(gba.ppu().frame_ready());
    assert!(gba.ppu_mut().take_frame_ready());
    assert!(!gba.ppu_mut().take_frame_ready());
    assert_eq!(gba.ppu().framebuffer().len(), SCREEN_WIDTH * 160);
}

#[test]
fn vblank_irq_enters_cpu_irq_vector() {
    let mut gba = Gba::new(Cartridge::new(idle_rom(200_000)));
    gba.cpu_mut().set_pc(0x0800_0000);
    gba.bus_mut().write_16(DISPSTAT_ADDR, 1 << 3);
    gba.bus_mut().write_16(IE_ADDR, IRQ_VBLANK);
    gba.bus_mut().write_16(IME_ADDR, 1);

    for _ in 0..=(160 * 1232) {
        gba.step();
        if gba.cpu().mode() == Mode::Irq {
            break;
        }
    }

    assert_eq!(gba.cpu().mode(), Mode::Irq);
    assert_eq!(gba.cpu().pc(), 0x0000_0018);
}

#[test]
fn timer0_overflow_requests_interrupt_and_vectors_cpu() {
    let mut gba = Gba::new(Cartridge::new(idle_rom(64)));
    gba.cpu_mut().set_pc(0x0800_0000);
    gba.bus_mut().write_16(IE_ADDR, IRQ_TIMER0);
    gba.bus_mut().write_16(IME_ADDR, 1);
    gba.bus_mut().write_16(TM0CNT_L_ADDR, 0xfffe);
    gba.bus_mut().write_16(TM0CNT_H_ADDR, 0x00c0);

    for _ in 0..4 {
        gba.step();
        if gba.cpu().mode() == Mode::Irq {
            break;
        }
    }

    assert_eq!(gba.cpu().mode(), Mode::Irq);
    assert_eq!(gba.cpu().pc(), 0x0000_0018);
}

#[test]
fn keypad_state_is_reflected_in_keyinput() {
    let mut gba = Gba::with_rom(idle_rom(4));

    gba.set_button_pressed(Button::A, true);
    gba.set_button_pressed(Button::Start, true);

    let keys = gba.bus().io().read_16(KEYINPUT_ADDR);
    assert_eq!(keys & Button::A.mask(), 0);
    assert_eq!(keys & Button::Start.mask(), 0);

    gba.set_button_pressed(Button::A, false);
    let keys = gba.bus().io().read_16(KEYINPUT_ADDR);
    assert_ne!(keys & Button::A.mask(), 0);
    assert_eq!(keys & Button::Start.mask(), 0);
}

#[test]
fn dma_immediate_moves_data_through_real_bus() {
    let mut gba = Gba::new(Cartridge::new(idle_rom(8)));
    gba.cpu_mut().set_pc(0x0800_0000);
    gba.bus_mut().write_32(0x0200_0000, 0x1234_5678);
    gba.bus_mut().write_32(0x0200_0004, 0x89ab_cdef);

    gba.bus_mut().write_32(DMA0SAD_ADDR, 0x0200_0000);
    gba.bus_mut().write_32(DMA0DAD_ADDR, 0x0300_0000);
    gba.bus_mut().write_16(DMA0CNT_L_ADDR, 2);
    gba.bus_mut().write_16(DMA0CNT_H_ADDR, 0x8400);

    gba.step();

    assert_eq!(gba.bus_mut().read_32(0x0300_0000), 0x1234_5678);
    assert_eq!(gba.bus_mut().read_32(0x0300_0004), 0x89ab_cdef);
}

#[test]
fn gba_initializes_post_bios_stack_pointers() {
    let gba = Gba::new(Cartridge::new(idle_rom(4)));

    assert_eq!(gba.cpu().read_reg_for_mode(Mode::User, SP), 0x0300_7f00);
    assert_eq!(gba.cpu().read_reg_for_mode(Mode::Irq, SP), 0x0300_7fa0);
    assert_eq!(
        gba.cpu().read_reg_for_mode(Mode::Supervisor, SP),
        0x0300_7fe0
    );
}

#[test]
fn gba_step_renders_mode4_scanline_from_palette_bitmap() {
    let mut gba = Gba::new(Cartridge::new(idle_rom(1024)));
    gba.cpu_mut().set_pc(0x0800_0000);
    gba.bus_mut().write_16(DISPCNT_ADDR, MODE4_BG2);
    gba.bus_mut().write_16(PALETTE_ADDR + 2, 0x001f);
    gba.bus_mut().write_16(PALETTE_ADDR + 4, 0x03e0);
    gba.bus_mut().write_8(VRAM_ADDR, 1);
    gba.bus_mut().write_8(VRAM_ADDR + 1, 2);

    step_to_hblank(&mut gba);

    assert_eq!(gba.ppu().framebuffer()[0], 0x001f);
    assert_eq!(gba.ppu().framebuffer()[1], 0x03e0);
}

#[test]
fn gba_step_renders_mode0_bg0_scanline_from_text_tiles() {
    let mut gba = Gba::new(Cartridge::new(idle_rom(1024)));
    gba.cpu_mut().set_pc(0x0800_0000);
    gba.bus_mut().write_16(DISPCNT_ADDR, MODE0_BG0);
    gba.bus_mut().write_16(BG0CNT_ADDR, BG0CNT_SCREEN1_CHAR1);
    gba.bus_mut().write_16(PALETTE_ADDR, 0x0000);
    gba.bus_mut().write_16(PALETTE_ADDR + 2, 0x001f);
    gba.bus_mut().write_16(PALETTE_ADDR + 4, 0x03e0);

    // Tile 0 row 0: 1,2,1,2,1,2,1,2 in 4bpp.
    gba.bus_mut().write_8(VRAM_ADDR + 0x4000, 0x21);
    gba.bus_mut().write_8(VRAM_ADDR + 0x4001, 0x21);
    gba.bus_mut().write_8(VRAM_ADDR + 0x4002, 0x21);
    gba.bus_mut().write_8(VRAM_ADDR + 0x4003, 0x21);
    // Screen block 1 entry 0 -> tile 0.
    gba.bus_mut().write_16(VRAM_ADDR + 0x0800, 0x0000);

    step_to_hblank(&mut gba);

    assert_eq!(gba.ppu().framebuffer()[0], 0x001f);
    assert_eq!(gba.ppu().framebuffer()[1], 0x03e0);
    assert_eq!(gba.ppu().framebuffer()[2], 0x001f);
    assert_eq!(gba.ppu().framebuffer()[3], 0x03e0);
}

#[test]
fn gba_step_renders_mode0_obj_scanline_from_oam_and_vram() {
    let mut gba = Gba::new(Cartridge::new(idle_rom(1024)));
    gba.cpu_mut().set_pc(0x0800_0000);
    gba.bus_mut().write_16(DISPCNT_ADDR, MODE0_OBJ_1D);
    gba.bus_mut().write_16(PALETTE_ADDR + 0x0200 + 2, 0x001f);
    gba.bus_mut().write_16(PALETTE_ADDR + 0x0200 + 4, 0x03e0);

    gba.bus_mut().write_16(OAM_ADDR, 0x0000);
    gba.bus_mut().write_16(OAM_ADDR + 2, 0x0000);
    gba.bus_mut().write_16(OAM_ADDR + 4, 0x0000);

    gba.bus_mut().write_8(VRAM_ADDR + 0x1_0000, 0x21);
    gba.bus_mut().write_8(VRAM_ADDR + 0x1_0000 + 1, 0x21);
    gba.bus_mut().write_8(VRAM_ADDR + 0x1_0000 + 2, 0x21);
    gba.bus_mut().write_8(VRAM_ADDR + 0x1_0000 + 3, 0x21);

    step_to_hblank(&mut gba);

    assert_eq!(gba.ppu().framebuffer()[0], 0x001f);
    assert_eq!(gba.ppu().framebuffer()[1], 0x03e0);
}

#[test]
fn gba_step_renders_mode5_scanline_from_bitmap() {
    let mut gba = Gba::new(Cartridge::new(idle_rom(1024)));
    gba.cpu_mut().set_pc(0x0800_0000);
    gba.bus_mut().write_16(DISPCNT_ADDR, MODE5_BG2);
    gba.bus_mut().write_16(VRAM_ADDR, 0x001f);
    gba.bus_mut().write_16(VRAM_ADDR + 159 * 2, 0x03e0);

    step_to_hblank(&mut gba);

    assert_eq!(gba.ppu().framebuffer()[0], 0x001f);
    assert_eq!(gba.ppu().framebuffer()[159], 0x03e0);
    assert_eq!(gba.ppu().framebuffer()[160], 0x0000);
}

#[test]
fn gba_step_window_masks_background_layers_before_compose() {
    let mut gba = Gba::new(Cartridge::new(idle_rom(1024)));
    gba.cpu_mut().set_pc(0x0800_0000);
    gba.bus_mut().write_16(DISPCNT_ADDR, MODE0_BG0_BG1_WIN0);
    gba.bus_mut().write_16(BG0CNT_ADDR, BG0CNT_SCREEN1_CHAR0);
    gba.bus_mut().write_16(BG1CNT_ADDR, BG1CNT_SCREEN2_CHAR1);
    gba.bus_mut().write_16(WIN0H_ADDR, 0x0008);
    gba.bus_mut().write_16(WIN0V_ADDR, 0x0001);
    gba.bus_mut().write_16(WININ_ADDR, 0x0002);
    gba.bus_mut().write_16(WINOUT_ADDR, 0x0001);

    gba.bus_mut().write_16(PALETTE_ADDR, 0x0000);
    gba.bus_mut().write_16(PALETTE_ADDR + 2, 0x001f);
    gba.bus_mut().write_16(PALETTE_ADDR + 4, 0x03e0);

    gba.bus_mut().write_8(VRAM_ADDR + 0x0000, 0x11);
    gba.bus_mut().write_8(VRAM_ADDR + 0x0001, 0x11);
    gba.bus_mut().write_8(VRAM_ADDR + 0x0002, 0x11);
    gba.bus_mut().write_8(VRAM_ADDR + 0x0003, 0x11);
    gba.bus_mut().write_16(VRAM_ADDR + 0x0800, 0x0000);

    gba.bus_mut().write_8(VRAM_ADDR + 0x4000, 0x22);
    gba.bus_mut().write_8(VRAM_ADDR + 0x4001, 0x22);
    gba.bus_mut().write_8(VRAM_ADDR + 0x4002, 0x22);
    gba.bus_mut().write_8(VRAM_ADDR + 0x4003, 0x22);
    gba.bus_mut().write_16(VRAM_ADDR + 0x1000, 0x0000);

    step_to_hblank(&mut gba);

    assert_eq!(gba.ppu().framebuffer()[0], 0x03e0);
    assert_eq!(gba.ppu().framebuffer()[8], 0x001f);
}

#[test]
fn gba_step_blends_semi_transparent_obj_with_background() {
    let mut gba = Gba::new(Cartridge::new(idle_rom(1024)));
    gba.cpu_mut().set_pc(0x0800_0000);
    gba.bus_mut().write_16(DISPCNT_ADDR, MODE0_BG0_OBJ_1D);
    gba.bus_mut().write_16(BG0CNT_ADDR, BG0CNT_SCREEN1_CHAR1);
    gba.bus_mut().write_16(BLDCNT_ADDR, 0x0150);
    gba.bus_mut().write_16(BLDALPHA_ADDR, 0x0808);

    gba.bus_mut().write_16(PALETTE_ADDR, 0x0000);
    gba.bus_mut().write_16(PALETTE_ADDR + 2, 0x001f);
    gba.bus_mut().write_16(PALETTE_ADDR + 0x0200 + 2, 0x03e0);

    gba.bus_mut().write_8(VRAM_ADDR + 0x4000, 0x11);
    gba.bus_mut().write_8(VRAM_ADDR + 0x4001, 0x11);
    gba.bus_mut().write_8(VRAM_ADDR + 0x4002, 0x11);
    gba.bus_mut().write_8(VRAM_ADDR + 0x4003, 0x11);
    gba.bus_mut().write_16(VRAM_ADDR + 0x0800, 0x0000);

    gba.bus_mut().write_16(OAM_ADDR, 0x0400);
    gba.bus_mut().write_16(OAM_ADDR + 2, 0x0000);
    gba.bus_mut().write_16(OAM_ADDR + 4, 0x0000);
    gba.bus_mut().write_8(VRAM_ADDR + 0x1_0000, 0x11);

    step_to_hblank(&mut gba);

    assert_eq!(gba.ppu().framebuffer()[0], 0x01ef);
}

#[test]
fn gba_step_obj_window_masks_obj_layer() {
    let mut gba = Gba::new(Cartridge::new(idle_rom(1024)));
    gba.cpu_mut().set_pc(0x0800_0000);
    gba.bus_mut()
        .write_16(DISPCNT_ADDR, MODE0_BG0_OBJ_1D_OBJWIN);
    gba.bus_mut().write_16(BG0CNT_ADDR, BG0CNT_SCREEN1_CHAR1);
    gba.bus_mut().write_16(WINOUT_ADDR, 0x0111);

    gba.bus_mut().write_16(PALETTE_ADDR, 0x0000);
    gba.bus_mut().write_16(PALETTE_ADDR + 2, 0x001f);
    gba.bus_mut().write_16(PALETTE_ADDR + 0x0200 + 2, 0x03e0);

    gba.bus_mut().write_8(VRAM_ADDR + 0x4000, 0x11);
    gba.bus_mut().write_8(VRAM_ADDR + 0x4001, 0x11);
    gba.bus_mut().write_8(VRAM_ADDR + 0x4002, 0x11);
    gba.bus_mut().write_8(VRAM_ADDR + 0x4003, 0x11);
    gba.bus_mut().write_16(VRAM_ADDR + 0x0800, 0x0000);

    gba.bus_mut().write_16(OAM_ADDR, 0x0000);
    gba.bus_mut().write_16(OAM_ADDR + 2, 0x0000);
    gba.bus_mut().write_16(OAM_ADDR + 4, 0x0000);
    gba.bus_mut().write_16(OAM_ADDR + 8, 0x0800);
    gba.bus_mut().write_16(OAM_ADDR + 10, 0x0000);
    gba.bus_mut().write_16(OAM_ADDR + 12, 0x0000);
    gba.bus_mut().write_8(VRAM_ADDR + 0x1_0000, 0x11);

    step_to_hblank(&mut gba);

    assert_eq!(gba.ppu().framebuffer()[0], 0x001f);
}
