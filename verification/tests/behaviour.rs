use rgba_core::demo::{dashboard_pixel, gradient_pixel};
use rgba_core::arm7tdmi::{add_with_carry, Arm7tdmi, BusInterface, Exception, Mode, Psr, SavedProgramStatusRegisters};
use rgba_core::bios::{execute_swi, Bios, BiosError};
use rgba_core::bus::Bus;
use rgba_core::cartridge::Cartridge;
use rgba_core::dma::DmaController;
use rgba_core::io::{IoRegs, IRQ_DMA1, IRQ_DMA2, IRQ_KEYPAD, IRQ_TIMER1, IRQ_TIMER2};
use rgba_core::keypad::{Button, Keypad};
use rgba_core::mem::Memory;
use rgba_core::ppu::compose::{compose_layers_scanline_with_effects, LayerPixel};
use rgba_core::ppu::effect::{alpha_blend, brighten, darken, BlendMode, EffectConfig};
use rgba_core::ppu::window::{build_window_scanline, WindowMask};
use rgba_core::ppu::{Ppu, FRAME_PIXELS, SCANLINE_CYCLES, SCREEN_WIDTH};
use rgba_core::scheduler::{EventKind, Scheduler};
use rgba_core::timer::Timers;
use rgba_core::{rgb555_to_xrgb8888, Gba};

#[test]
fn subtraction_borrow_matches_unsigned_comparison() {
    for (a, b) in [(0u32, 0u32), (5, 7), (7, 5), (0x8000_0000, 1), (u32::MAX, u32::MAX)] {
        let r = add_with_carry(a, !b, true);
        assert_eq!(r.value, a.wrapping_sub(b));
        assert_eq!(r.carry_out, a >= b);
    }
}

#[test]
fn psr_flag_updates_keep_the_mode() {
    let mut psr = Psr::new(Mode::Fiq);
    psr.set_nzcv(0, true, false);
    assert!(psr.zero());
    assert!(psr.carry());
    assert!(!psr.negative());
    assert_eq!(psr.mode(), Mode::Fiq);
}

#[test]
fn blend_and_window_registers_keep_only_their_bits() {
    let mut io = IoRegs::new();
    io.write_16(0x0400_0050, 0xffff);
    io.write_16(0x0400_0052, 0xffff);
    io.write_16(0x0400_0054, 0xffff);
    io.write_16(0x0400_0048, 0xffff);
    io.write_16(0x0400_004a, 0xffff);
    io.write_16(0x0400_0010, 0xffff);

    assert_eq!(io.bldcnt(), 0x3fff);
    assert_eq!(io.bldalpha(), 0x1f1f);
    assert_eq!(io.bldy(), 0x001f);
    assert_eq!(io.win_in(), 0x3f3f);
    assert_eq!(io.win_out(), 0x3f3f);
    assert_eq!(io.bg_hofs(0), 0x01ff);
}

#[test]
fn background_control_fields_decode() {
    let mut io = IoRegs::new();
    io.write_16(0x0400_0000, 0x0d00);
    io.write_16(0x0400_000e, 0xe78e);

    assert!(io.bg_enabled(0));
    assert!(!io.bg_enabled(1));
    assert!(io.bg_enabled(3));
    assert_eq!(io.bg_priority(3), 2);
    assert_eq!(io.bg_char_base_block(3), 3);
    assert!(io.bg_palette_256(3));
    assert_eq!(io.bg_screen_base_block(3), 7);
    assert!(io.bg_wrap(3));
    assert_eq!(io.bg_size(3), 3);
}

#[test]
fn affine_reference_point_is_sign_extended_from_28_bits() {
    let mut io = IoRegs::new();
    io.write_32(0x0400_0028, 0x0fff_ffff);
    io.write_32(0x0400_002c, 0x0000_0100);
    io.write_16(0x0400_0020, 0xff00);

    assert_eq!(io.bg_affine_ref_point(2), Some((-1, 0x100)));
    assert_eq!(io.bg_affine_ref_point(1), None);
    assert_eq!(io.bg_affine_matrix(2), Some((-256, 0, 0, 0)));
    assert_eq!(io.bg_affine_matrix(0), None);
}

#[test]
fn read_only_registers_ignore_writes() {
    let mut io = IoRegs::new();
    io.set_vcount(5);
    io.write_16(0x0400_0006, 99);
    io.write_16(0x0400_0130, 0);
    assert_eq!(io.vcount(), 5);
    assert_eq!(io.keyinput(), 0x03ff);
}

#[test]
fn byte_writes_merge_into_halfword_registers() {
    let mut io = IoRegs::new();
    io.write_16(0x0400_0200, 0x1234);
    io.write_8(0x0400_0201, 0xab);
    assert_eq!(io.ie(), 0xab34);
    assert_eq!(io.read_8(0x0400_0200), 0x34);
    assert_eq!(io.read_8(0x0400_0201), 0xab);
}

#[test]
fn bus_ram_regions_round_trip_and_mirror() {
    let mut bus = Bus::new(Cartridge::new(vec![1, 2, 3, 4]));
    bus.write_32(0x0500_0010, 0x1111_2222);
    bus.write_32(0x0600_0020, 0x3333_4444);
    bus.write_32(0x0700_0030, 0x5555_6666);
    bus.write_16(0x0e00_0040, 0x7788);
    bus.write_16(0x0601_0000, 0xbeef);

    assert_eq!(bus.read_32(0x0500_0010), 0x1111_2222);
    assert_eq!(bus.read_32(0x0500_0410), 0x1111_2222);
    assert_eq!(bus.read_32(0x0600_0020), 0x3333_4444);
    assert_eq!(bus.read_32(0x0700_0030), 0x5555_6666);
    assert_eq!(bus.read_16(0x0e00_0040), 0x7788);
    assert_eq!(bus.read_16(0x0601_8000), 0xbeef);
}

#[test]
fn bus_ignores_writes_to_rom_and_bios_and_reads_zero_when_unmapped() {
    let mut bus = Bus::new(Cartridge::new(vec![0x78, 0x56, 0x34, 0x12]));
    bus.write_32(0x0800_0000, 0);
    bus.write_32(0x0000_0000, 0xffff_ffff);
    assert_eq!(bus.read_32(0x0800_0000), 0x1234_5678);
    assert_eq!(bus.read_32(0x0000_0000), 0);
    assert_eq!(bus.read_32(0x1000_0000), 0);
    assert_eq!(bus.read_32_debug(0x0800_0000), 0x1234_5678);
}

#[test]
fn bus_routes_io_region_to_the_register_block() {
    let mut bus = Bus::new(Cartridge::new(vec![0; 4]));
    bus.write_16(0x0400_0200, 0x00f3);
    assert_eq!(bus.io().ie(), 0x00f3);
    assert_eq!(bus.read_16(0x0400_0200), 0x00f3);
    bus.write_32_debug(0x0400_0208, 1);
    assert!(bus.io().ime_enabled());
}

#[test]
fn register_ram_reset_clears_selected_areas() {
    let mut bus = Bus::new(Cartridge::new(vec![0; 4]));
    bus.write_32(0x0200_0000, 0x1234_5678);
    bus.write_32(0x0300_7ffc, 0xaaaa_bbbb);
    bus.write_32(0x0300_0000, 0x89ab_cdef);
    bus.write_16(0x0500_0000, 0x001f);
    bus.write_16(0x0400_0000, 0x0403);

    bus.register_ram_reset(0x83);

    assert_eq!(bus.read_32_debug(0x0200_0000), 0);
    assert_eq!(bus.read_32_debug(0x0300_0000), 0);
    assert_eq!(bus.read_32_debug(0x0300_7ffc), 0xaaaa_bbbb);
    assert_eq!(bus.read_32_debug(0x0500_0000), 0x001f);
    assert_eq!(bus.read_32_debug(0x0400_0000), 0);
}

#[test]
fn memory_load_bios_pads_with_zeros() {
    let mut mem = Memory::new();
    assert!(mem.load_bios(&[1, 2, 3]).is_ok());
    assert_eq!(mem.read_bios_32(0), 0x0003_0201);
    assert_eq!(mem.read_bios_8(3), 0);
}

#[test]
fn div_service_rounds_toward_zero() {
    let mut cpu = Arm7tdmi::new();
    let mut bus = Bus::new(Cartridge::new(vec![0; 4]));
    cpu.enter_exception(Exception::SoftwareInterrupt, 0x0800_0004);
    cpu.write_reg(0, (-7i32) as u32);
    cpu.write_reg(1, 2);
    let saved = Psr::new(Mode::User);

    let r = execute_swi(&mut cpu, &mut bus, 6, saved, 0x0800_0004);

    assert_eq!(r, Ok(Some(4)));
    assert_eq!(cpu.read_reg(0) as i32, -3);
    assert_eq!(cpu.read_reg(1) as i32, -1);
    assert_eq!(cpu.read_reg(3), 3);
    assert_eq!(cpu.mode(), Mode::User);
    assert_eq!(cpu.pc(), 0x0800_0004);
}

#[test]
fn div_service_refuses_zero_divisor() {
    let mut cpu = Arm7tdmi::new();
    let mut bus = Bus::new(Cartridge::new(vec![0; 4]));
    cpu.enter_exception(Exception::SoftwareInterrupt, 0x0800_0004);
    cpu.write_reg(0, 9);
    cpu.write_reg(1, 0);

    let r = execute_swi(&mut cpu, &mut bus, 6, Psr::new(Mode::User), 0x0800_0004);

    assert_eq!(r, Err(BiosError::DivideByZero));
    assert_eq!(cpu.mode(), Mode::Supervisor);
}

#[test]
fn handle_step_serves_arm_div_at_the_swi_vector() {
    let mut cpu = Arm7tdmi::new();
    let mut bus = Bus::new(Cartridge::new(0xef00_0006u32.to_le_bytes().to_vec()));
    cpu.write_reg(0, 27);
    cpu.write_reg(1, 5);
    cpu.enter_exception(Exception::SoftwareInterrupt, 0x0800_0004);

    let r = Bios::new().handle_step(&mut cpu, &mut bus);

    assert_eq!(r, Ok(Some(4)));
    assert_eq!(cpu.read_reg(0), 5);
    assert_eq!(cpu.read_reg(1), 2);
    assert_eq!(cpu.read_reg(3), 5);
    assert_eq!(cpu.pc(), 0x0800_0004);
}

#[test]
fn handle_step_does_nothing_away_from_the_swi_vector_or_with_external_bios() {
    let mut cpu = Arm7tdmi::new();
    let mut bus = Bus::new(Cartridge::new(vec![0; 4]));
    assert_eq!(Bios::new().handle_step(&mut cpu, &mut bus), Ok(None));

    cpu.enter_exception(Exception::SoftwareInterrupt, 0x0800_0004);
    let mut bios = Bios::new();
    bios.use_external();
    assert_eq!(bios.handle_step(&mut cpu, &mut bus), Ok(None));
    assert_eq!(cpu.pc(), 8);
}

#[test]
fn soft_reset_restarts_at_the_gamepak_entry() {
    let mut cpu = Arm7tdmi::new();
    let mut bus = Bus::new(Cartridge::new(vec![0; 4]));
    cpu.enter_exception(Exception::SoftwareInterrupt, 0x0800_0104);
    let r = execute_swi(&mut cpu, &mut bus, 0, Psr::new(Mode::User), 0x0800_0104);
    assert_eq!(r, Ok(Some(3)));
    assert_eq!(cpu.pc(), 0x0800_0000);
    assert_eq!(cpu.mode(), Mode::User);
}

#[test]
fn keypad_and_condition_needs_every_watched_button() {
    let mut keypad = Keypad::new();
    let mut io = IoRegs::new();
    io.write_16(0x0400_0132, 0xc000 | Button::A.mask() | Button::B.mask());

    keypad.set_pressed(Button::A, true);
    keypad.sync_to_io(&mut io);
    assert_eq!(io.if_() & IRQ_KEYPAD, 0);

    keypad.set_pressed(Button::B, true);
    keypad.sync_to_io(&mut io);
    assert_ne!(io.if_() & IRQ_KEYPAD, 0);
    assert_eq!(keypad.keyinput(), 0x03fc);
}

#[test]
fn prescaled_timer_ticks_once_per_period() {
    let mut timers = Timers::new();
    let mut io = IoRegs::new();
    io.write_16(0x0400_0100, 0x0000);
    io.write_16(0x0400_0102, 0x0081);

    timers.step(63, &mut io);
    assert_eq!(io.timer_counter(0), 0);
    timers.step(1, &mut io);
    assert_eq!(io.timer_counter(0), 1);
    timers.step(64 * 10, &mut io);
    assert_eq!(io.timer_counter(0), 11);
}

#[test]
fn cascaded_overflows_request_each_enabled_interrupt() {
    let mut timers = Timers::new();
    let mut io = IoRegs::new();
    io.write_16(0x0400_0100, 0xffff);
    io.write_16(0x0400_0102, 0x0080);
    io.write_16(0x0400_0104, 0xffff);
    io.write_16(0x0400_0106, 0x00c4);
    io.write_16(0x0400_0108, 0xfffe);
    io.write_16(0x0400_010a, 0x00c4);

    timers.step(1, &mut io);
    timers.step(1, &mut io);

    assert_eq!(io.timer_counter(1), 0xffff);
    assert_ne!(io.if_() & IRQ_TIMER1, 0);
    assert_eq!(io.timer_counter(2), 0xffff);
    assert_eq!(io.if_() & IRQ_TIMER2, 0);
}

#[test]
fn disabling_a_timer_stops_it() {
    let mut timers = Timers::new();
    let mut io = IoRegs::new();
    io.write_16(0x0400_0102, 0x0080);
    timers.step(5, &mut io);
    assert_eq!(io.timer_counter(0), 5);
    io.write_16(0x0400_0102, 0x0000);
    timers.step(5, &mut io);
    assert_eq!(io.timer_counter(0), 5);
}

#[test]
fn peek_reports_the_earliest_due_time() {
    let mut scheduler = Scheduler::new();
    assert_eq!(scheduler.peek_pending_time(), None);
    scheduler.schedule(9, EventKind::VBlank);
    scheduler.schedule(3, EventKind::HBlank);
    assert_eq!(scheduler.peek_pending_time(), Some(3));
    assert_eq!(scheduler.timestamp(), 0);
}

#[test]
fn dma_decrementing_source_and_fixed_destination() {
    let mut dma = DmaController::new();
    let mut bus = Bus::new(Cartridge::new(vec![0; 4]));
    bus.write_16(0x0200_0000, 0x1111);
    bus.write_16(0x0200_0002, 0x2222);

    bus.io_mut().write_32(0x0400_00c8, 0x0200_0002);
    bus.io_mut().write_32(0x0400_00cc, 0x0300_0000);
    bus.io_mut().write_16(0x0400_00d0, 2);
    bus.io_mut().write_16(0x0400_00d2, 0xc0c0);

    dma.service(&mut bus, false, false);

    assert_eq!(bus.read_16(0x0300_0000), 0x1111);
    assert_eq!(bus.io().dma_source(2), 0x01ff_fffe);
    assert_eq!(bus.io().dma_dest(2), 0x0300_0000);
    assert_ne!(bus.io().if_() & IRQ_DMA2, 0);
    assert_eq!(bus.io().dma_control(2) & 0x8000, 0);
}

#[test]
fn full_fade_reaches_white_or_black_and_full_weight_keeps_colour() {
    assert_eq!(brighten(0x1234, 16), 0x7fff);
    assert_eq!(darken(0x1234, 16), 0x0000);
    assert_eq!(alpha_blend(0x1234, 0x7fff, 16, 0), 0x1234);
    assert_eq!(brighten(0x1234, 0), 0x1234);
    assert_eq!(darken(0x1234, 0), 0x1234);
}

#[test]
fn composition_blends_first_target_over_second_target() {
    let mut framebuffer = Box::new([0u16; FRAME_PIXELS]);
    let mut layers = [[LayerPixel::transparent(4, 0xff); SCREEN_WIDTH]; 5];
    layers[0][0] = LayerPixel::opaque(0x001f, 1, 0x80);
    layers[4][0] = LayerPixel::opaque(0x03e0, 0, 0);
    layers[1][1] = LayerPixel::opaque(0x7c00, 0, 0x81);
    let masks = [WindowMask::all_visible(); SCREEN_WIDTH];
    let effects = EffectConfig::new(BlendMode::Alpha, 0x10, 0x01, 8, 8, 0);

    compose_layers_scanline_with_effects(&mut framebuffer, 2, 0x0000, &layers, &masks, effects);

    assert_eq!(framebuffer[2 * SCREEN_WIDTH], alpha_blend(0x03e0, 0x001f, 8, 8));
    assert_eq!(framebuffer[2 * SCREEN_WIDTH + 1], 0x7c00);
    assert_eq!(framebuffer[2 * SCREEN_WIDTH + 2], 0x0000);
    assert_eq!(framebuffer[0], 0);
}

#[test]
fn hidden_layers_do_not_show_through_a_window() {
    let mut framebuffer = Box::new([0u16; FRAME_PIXELS]);
    let mut layers = [[LayerPixel::transparent(4, 0xff); SCREEN_WIDTH]; 5];
    layers[0][0] = LayerPixel::opaque(0x001f, 0, 0x80);
    let mut masks = [WindowMask::all_visible(); SCREEN_WIDTH];
    masks[0] = WindowMask::from_bits(0x3e);
    let effects = EffectConfig::new(BlendMode::Off, 0, 0, 0, 0, 0);

    compose_layers_scanline_with_effects(&mut framebuffer, 0, 0x4210, &layers, &masks, effects);

    assert_eq!(framebuffer[0], 0x4210);
}

#[test]
fn window_zero_takes_precedence_over_window_one() {
    let mut io = IoRegs::new();
    io.write_16(0x0400_0000, (1 << 13) | (1 << 14));
    io.write_16(0x0400_0040, 0x0010);
    io.write_16(0x0400_0042, 0x0020);
    io.write_16(0x0400_0044, 0x00a0);
    io.write_16(0x0400_0046, 0x00a0);
    io.write_16(0x0400_0048, 0x0201);
    io.write_16(0x0400_004a, 0x0004);

    let masks = build_window_scanline(&io, &[], &[], 3);
    assert!(masks[5].bg[0]);
    assert!(!masks[5].bg[1]);
    assert!(masks[20].bg[1]);
    assert!(!masks[20].bg[0]);
    assert!(masks[40].bg[2]);
}

#[test]
fn a_full_frame_returns_to_line_zero_and_ends_vblank() {
    let mut ppu = Ppu::new();
    let mut io = IoRegs::new();
    let vram = vec![0; 0x18000];
    let palette = vec![0; 0x400];
    let oam = vec![0; 0x400];

    ppu.step(SCANLINE_CYCLES * 228, &mut io, &vram, &palette, &oam);

    assert_eq!(ppu.vcount(), 0);
    assert_eq!(io.vcount(), 0);
    assert_eq!(io.dispstat() & 0x0001, 0);
    assert!(ppu.frame_ready());
}

#[test]
fn xrgb_conversion_scales_each_channel() {
    assert_eq!(rgb555_to_xrgb8888(0x0000), 0x0000_0000);
    assert_eq!(rgb555_to_xrgb8888(0x7fff), 0x00ff_ffff);
    assert_eq!(rgb555_to_xrgb8888(0x0010), 0x0083_0000);

    let ppu = Ppu::new();
    let mut out = vec![7u32; FRAME_PIXELS + 1];
    ppu.write_xrgb8888(&mut out);
    assert_eq!(out[0], 0);
    assert_eq!(out[FRAME_PIXELS], 7);
}

#[test]
fn scheduled_timer_and_dma_events_raise_their_interrupts() {
    let mut rom = Vec::new();
    rom.extend_from_slice(&0xe3a0_0000u32.to_le_bytes());
    let mut gba = Gba::with_rom(rom);
    gba.cpu_mut().set_pc(0x0800_0000);
    gba.schedule_event(0, EventKind::TimerOverflow(2));
    gba.schedule_event(0, EventKind::DmaComplete(1));
    gba.schedule_event(0, EventKind::TimerOverflow(9));
    gba.schedule_event(50, EventKind::VBlank);

    gba.step();

    assert_ne!(gba.bus().io().if_() & IRQ_TIMER2, 0);
    assert_ne!(gba.bus().io().if_() & IRQ_DMA1, 0);
    assert_eq!(gba.scheduler().peek_pending_time(), Some(50));
}

#[test]
fn registers_mut_writes_reach_the_cpu() {
    let mut cpu = Arm7tdmi::new();
    cpu.registers_mut().write(Mode::User, 3, 0x1234_5678);
    assert_eq!(cpu.read_reg(3), 0x1234_5678);
    assert_eq!(cpu.cpsr(), Psr::new(Mode::User));
}

#[test]
fn spsr_get_mut_reaches_only_exception_modes() {
    let mut spsrs = SavedProgramStatusRegisters::default();
    assert!(spsrs.get_mut(Mode::User).is_none());
    assert!(spsrs.get_mut(Mode::System).is_none());
    if let Some(slot) = spsrs.get_mut(Mode::Irq) {
        *slot = Psr::new(Mode::Supervisor);
    }
    assert_eq!(spsrs.get(Mode::Irq), Some(Psr::new(Mode::Supervisor)));
    assert_eq!(spsrs.get(Mode::Fiq), Some(Psr::new(Mode::User)));
}

#[test]
fn run_until_frame_stops_at_the_first_frame_and_consumes_it() {
    let mut rom = Vec::new();
    for _ in 0..200_000 {
        rom.extend_from_slice(&0xe3a0_0000u32.to_le_bytes());
    }
    let mut gba = Gba::with_rom(rom);
    gba.cpu_mut().set_pc(0x0800_0000);
    assert!(!gba.run_until_frame(10));
    assert!(gba.run_until_frame(300_000));
    assert!(!gba.ppu_mut().take_frame_ready());
    assert_eq!(gba.ppu().vcount(), 160);
}

#[test]
fn demo_pictures_match_their_layout() {
    assert_eq!(dashboard_pixel(0, 0, 0), 0x1084);
    assert_eq!(dashboard_pixel(0, 8, 20), 0x3def);
    assert_eq!(dashboard_pixel(0, 28, 45), 0x294a);
    assert_eq!(dashboard_pixel(0x0001, 28, 45), 0x001f);
    assert_eq!(dashboard_pixel(0x0001, 8, 20), 0x7fff);
    assert_eq!(dashboard_pixel(0x0200, 8 + 4 * 48 + 20, 20 + 70 + 25), 0x4e73);
    assert_eq!(gradient_pixel(0, 0), 0);
    assert_eq!(gradient_pixel(239, 159), 0x7fff);
    assert_eq!(gradient_pixel(239, 0), 31 | (18 << 10));
}
