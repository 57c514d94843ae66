use rgba_core::arm7tdmi::{Arm7tdmi, BusInterface, Exception, Mode};
use rgba_core::bios::{decode_pending_swi, return_from_exception, Bios, BiosBackend, BiosError};
use rgba_core::bus::Bus;
use rgba_core::cartridge::Cartridge;
use rgba_core::dma::DmaController;
use rgba_core::interrupt::{irq_pending, service_irq};
use rgba_core::io::{
    IoRegs, DISPSTAT_ADDR, DMA0CNT_H_ADDR, DMA0SAD_ADDR, IE_ADDR, IF_ADDR, IME_ADDR, IRQ_KEYPAD,
    IRQ_TIMER0, IRQ_VBLANK, IRQ_VCOUNT, KEYCNT_ADDR, KEYINPUT_ADDR, TM0CNT_H_ADDR, TM0CNT_L_ADDR,
    VCOUNT_ADDR, WAITCNT_ADDR,
};
use rgba_core::keypad::{Button, Keypad};
use rgba_core::mem::{BiosLoadError, Memory};
use rgba_core::scheduler::{EventKind, Scheduler};
use rgba_core::timer::Timers;
use rgba_core::Gba;

const DMA0DAD_ADDR: u32 = 0x0400_00b4;
const DMA0CNT_L_ADDR: u32 = 0x0400_00b8;

#[test]
fn decode_pending_arm_swi_extracts_immediate() {
    let mut cpu = Arm7tdmi::new();
    let mut bus = Bus::new(Cartridge::new(0xef00_0006u32.to_le_bytes().to_vec()));
    cpu.enter_exception(Exception::SoftwareInterrupt, 0x0800_0004);

    let decoded = decode_pending_swi(&cpu, &mut bus).unwrap();

    assert_eq!(decoded.map(|value| value.0), Some(0x06));
}

#[test]
fn decode_pending_thumb_swi_extracts_immediate() {
    let mut rom = vec![0; 4];
    rom[0..2].copy_from_slice(&0xdf01u16.to_le_bytes());
    let mut cpu = Arm7tdmi::new();
    let mut bus = Bus::new(Cartridge::new(rom));
    cpu.set_thumb(true);
    cpu.enter_exception(Exception::SoftwareInterrupt, 0x0800_0002);

    let decoded = decode_pending_swi(&cpu, &mut bus).unwrap();

    assert_eq!(decoded.map(|value| value.0), Some(0x01));
}

#[test]
fn return_from_exception_restores_thumb_state() {
    let mut gba = Gba::new(Cartridge::new(vec![0; 16]));
    let mut saved = gba.cpu().cpsr();
    saved.set_thumb(true);

    return_from_exception(gba.cpu_mut(), saved, 0x0800_0002);

    assert!(gba.cpu().is_thumb());
    assert_eq!(gba.cpu().pc(), 0x0800_0002);
}

#[test]
fn bios_defaults_to_hle_backend() {
    let mut bios = Bios::new();
    assert_eq!(bios.backend(), BiosBackend::Hle);
    bios.use_external();
    assert_eq!(bios.backend(), BiosBackend::External);
    bios.use_hle();
    assert_eq!(bios.backend(), BiosBackend::Hle);
}

#[test]
fn unsupported_swi_returns_error() {
    let mut cpu = Arm7tdmi::new();
    let mut bus = Bus::new(Cartridge::new(0xef00_00ffu32.to_le_bytes().to_vec()));
    cpu.enter_exception(Exception::SoftwareInterrupt, 0x0800_0004);

    let err = Bios::new().handle_step(&mut cpu, &mut bus).unwrap_err();

    assert_eq!(err, BiosError::UnsupportedSwi(0xff));
}

#[test]
fn bus_routes_rom_and_wram_regions() {
    let mut bus = Bus::new(Cartridge::new(vec![0x78, 0x56, 0x34, 0x12]));

    bus.write_32(0x0200_0000, 0xdead_beef);
    bus.write_32(0x0300_0000, 0xaabb_ccdd);

    assert_eq!(bus.read_32(0x0800_0000), 0x1234_5678);
    assert_eq!(bus.read_32(0x0200_0000), 0xdead_beef);
    assert_eq!(bus.read_32(0x0300_0000), 0xaabb_ccdd);
}

#[test]
fn gamepak_windows_all_map_to_the_same_rom() {
    let cart = Cartridge::new(vec![0x78, 0x56, 0x34, 0x12]);

    assert_eq!(cart.read_32(0x0800_0000), 0x1234_5678);
    assert_eq!(cart.read_32(0x0a00_0000), 0x1234_5678);
    assert_eq!(cart.read_32(0x0c00_0000), 0x1234_5678);
}

#[test]
fn immediate_dma_copies_words_and_disables_channel() {
    let mut dma = DmaController::new();
    let mut bus = Bus::new(Cartridge::new(vec![0; 4]));
    BusInterface::write_32(&mut bus, 0x0200_0000, 0x1234_5678);
    BusInterface::write_32(&mut bus, 0x0200_0004, 0x89ab_cdef);

    bus.io_mut().write_32(0x0400_00b0, 0x0200_0000);
    bus.io_mut().write_32(0x0400_00b4, 0x0300_0000);
    bus.io_mut().write_16(0x0400_00b8, 2);
    bus.io_mut().write_16(0x0400_00ba, 0x8400);

    dma.service(&mut bus, false, false);

    assert_eq!(BusInterface::read_32(&mut bus, 0x0300_0000), 0x1234_5678);
    assert_eq!(BusInterface::read_32(&mut bus, 0x0300_0004), 0x89ab_cdef);
    assert_eq!(bus.io().dma_control(0) & 0x8000, 0);
}

#[test]
fn vblank_dma_waits_for_vblank_edge() {
    let mut dma = DmaController::new();
    let mut bus = Bus::new(Cartridge::new(vec![0; 4]));
    BusInterface::write_16(&mut bus, 0x0200_0000, 0x1357);

    bus.io_mut().write_32(0x0400_00bc, 0x0200_0000);
    bus.io_mut().write_32(0x0400_00c0, 0x0300_0000);
    bus.io_mut().write_16(0x0400_00c4, 1);
    bus.io_mut().write_16(0x0400_00c6, 0x9000);

    dma.service(&mut bus, false, false);
    assert_eq!(BusInterface::read_16(&mut bus, 0x0300_0000), 0);

    dma.service(&mut bus, false, true);
    assert_eq!(BusInterface::read_16(&mut bus, 0x0300_0000), 0x1357);
}

#[test]
fn irq_pending_requires_ime_and_matching_ie_if_bits() {
    let mut io = IoRegs::new();
    io.write_16(0x0400_0200, IRQ_VBLANK);
    io.request_interrupt(IRQ_VBLANK);

    assert!(!irq_pending(&io));

    io.write_16(0x0400_0208, 1);
    assert!(irq_pending(&io));
}

#[test]
fn service_irq_vectors_cpu_into_irq_mode() {
    let mut cpu = Arm7tdmi::new();
    let mut io = IoRegs::new();
    cpu.set_pc(0x0800_0004);
    io.write_16(0x0400_0200, IRQ_VBLANK);
    io.write_16(0x0400_0208, 1);
    io.request_interrupt(IRQ_VBLANK);

    assert!(service_irq(&mut cpu, &io));
    assert_eq!(cpu.mode(), Mode::Irq);
    assert_eq!(cpu.pc(), 0x0000_0018);
    assert_eq!(cpu.lr(), 0x0800_0008);
}

#[test]
fn ordinary_registers_round_trip() {
    let mut io = IoRegs::new();
    io.write_16(IME_ADDR, 1);
    io.write_16(IE_ADDR, 0x1234);
    io.write_16(WAITCNT_ADDR, 0x4321);

    assert_eq!(io.read_16(IME_ADDR), 1);
    assert_eq!(io.read_16(IE_ADDR), 0x1234);
    assert_eq!(io.read_16(WAITCNT_ADDR), 0x4321);
}

#[test]
fn interrupt_flags_are_write_one_to_clear() {
    let mut io = IoRegs::new();
    io.request_interrupt(0b111);
    io.write_16(IF_ADDR, 0b010);

    assert_eq!(io.read_16(IF_ADDR), 0b101);
}

#[test]
fn key_registers_round_trip_with_masks() {
    let mut io = IoRegs::new();

    assert_eq!(io.read_16(KEYINPUT_ADDR), 0x03ff);
    io.write_16(KEYINPUT_ADDR, 0);
    assert_eq!(io.read_16(KEYINPUT_ADDR), 0x03ff);

    io.write_16(KEYCNT_ADDR, 0xffff);
    assert_eq!(io.read_16(KEYCNT_ADDR), 0xc3ff);

    io.request_interrupt(IRQ_KEYPAD);
    assert_ne!(io.read_16(IF_ADDR) & IRQ_KEYPAD, 0);
}

#[test]
fn vblank_event_sets_status_and_requests_irq_when_enabled() {
    let mut io = IoRegs::new();
    io.write_16(DISPSTAT_ADDR, 1 << 3);
    io.set_vblank(true);

    assert_ne!(io.dispstat() & 1, 0);
    assert_ne!(io.if_() & IRQ_VBLANK, 0);
}

#[test]
fn vcount_register_tracks_current_scanline() {
    let mut io = IoRegs::new();
    io.set_vcount(37);

    assert_eq!(io.read_16(VCOUNT_ADDR), 37);
}

#[test]
fn vcount_match_sets_status_and_requests_irq_once() {
    let mut io = IoRegs::new();
    io.write_16(DISPSTAT_ADDR, (1 << 5) | (12 << 8));

    io.set_vcount(11);
    assert_eq!(io.dispstat() & (1 << 2), 0);
    assert_eq!(io.if_() & IRQ_VCOUNT, 0);

    io.set_vcount(12);
    assert_ne!(io.dispstat() & (1 << 2), 0);
    assert_ne!(io.if_() & IRQ_VCOUNT, 0);

    let flags = io.if_();
    io.set_vcount(12);
    assert_eq!(io.if_(), flags);
}

#[test]
fn timer_registers_keep_reload_counter_and_control_separate() {
    let mut io = IoRegs::new();
    io.write_16(TM0CNT_L_ADDR, 0xff80);
    io.write_16(TM0CNT_H_ADDR, 0x00c1);
    io.set_timer_counter(0, 0xff82);

    assert_eq!(io.timer_reload(0), 0xff80);
    assert_eq!(io.read_16(TM0CNT_L_ADDR), 0xff82);
    assert_eq!(io.read_16(TM0CNT_H_ADDR), 0x00c1);
}

#[test]
fn dma_registers_round_trip_through_mmio_layout() {
    let mut io = IoRegs::new();
    io.write_32(DMA0SAD_ADDR, 0x0200_0010);
    io.write_32(DMA0DAD_ADDR, 0x0300_0020);
    io.write_16(DMA0CNT_L_ADDR, 8);
    io.write_16(DMA0CNT_H_ADDR, 0x8400);

    assert_eq!(io.read_32(DMA0SAD_ADDR), 0x0200_0010);
    assert_eq!(io.read_32(DMA0DAD_ADDR), 0x0300_0020);
    assert_eq!(io.read_16(DMA0CNT_L_ADDR), 8);
    assert_eq!(io.read_16(DMA0CNT_H_ADDR), 0x8400);
}

#[test]
fn keyinput_is_low_active() {
    let mut keypad = Keypad::new();
    let mut io = IoRegs::new();

    keypad.set_pressed(Button::A, true);
    keypad.sync_to_io(&mut io);
    assert_eq!(io.keyinput() & Button::A.mask(), 0);

    keypad.set_pressed(Button::A, false);
    keypad.sync_to_io(&mut io);
    assert_ne!(io.keyinput() & Button::A.mask(), 0);
}

#[test]
fn keycnt_can_request_interrupt_once_per_new_match() {
    let mut keypad = Keypad::new();
    let mut io = IoRegs::new();
    io.write_16(0x0400_0132, (1 << 14) | Button::Start.mask());

    keypad.sync_to_io(&mut io);
    assert_eq!(io.if_() & IRQ_KEYPAD, 0);

    keypad.set_pressed(Button::Start, true);
    keypad.sync_to_io(&mut io);
    assert_ne!(io.if_() & IRQ_KEYPAD, 0);

    let flags = io.if_();
    keypad.sync_to_io(&mut io);
    assert_eq!(io.if_(), flags);
}

#[test]
fn ewram_mirrors_across_its_whole_window() {
    let mut mem = Memory::new();
    mem.write_ewram_32(0x0200_0000, 0x1234_5678);

    assert_eq!(mem.read_ewram_32(0x0204_0000), 0x1234_5678);
}

#[test]
fn iwram_mirrors_across_its_whole_window() {
    let mut mem = Memory::new();
    mem.write_iwram_16(0x0300_0002, 0xbeef);

    assert_eq!(mem.read_iwram_16(0x0300_8002), 0xbeef);
}

#[test]
fn bios_load_rejects_oversized_images() {
    let mut mem = Memory::new();
    let err = mem.load_bios(&vec![0; 0x4001]).unwrap_err();
    assert_eq!(
        err,
        BiosLoadError::TooLarge {
            actual: 0x4001,
            max: 0x4000
        }
    );
}

#[test]
fn events_pop_in_fire_order() {
    let mut scheduler = Scheduler::new();
    scheduler.schedule(10, EventKind::VBlank);
    scheduler.schedule(4, EventKind::HBlank);
    scheduler.schedule(7, EventKind::TimerOverflow(0));
    scheduler.advance(10);

    assert_eq!(
        scheduler.pop_pending().map(|event| event.kind),
        Some(EventKind::HBlank)
    );
    assert_eq!(
        scheduler.pop_pending().map(|event| event.kind),
        Some(EventKind::TimerOverflow(0))
    );
    assert_eq!(
        scheduler.pop_pending().map(|event| event.kind),
        Some(EventKind::VBlank)
    );
}

#[test]
fn same_cycle_events_preserve_schedule_order() {
    let mut scheduler = Scheduler::new();
    scheduler.schedule(3, EventKind::HBlank);
    scheduler.schedule(3, EventKind::VBlank);
    scheduler.advance(3);

    assert_eq!(
        scheduler.pop_pending().map(|event| event.kind),
        Some(EventKind::HBlank)
    );
    assert_eq!(
        scheduler.pop_pending().map(|event| event.kind),
        Some(EventKind::VBlank)
    );
}

#[test]
fn events_do_not_fire_early() {
    let mut scheduler = Scheduler::new();
    scheduler.schedule_in(5, EventKind::DmaComplete(0));
    scheduler.advance(4);

    assert_eq!(scheduler.pop_pending(), None);

    scheduler.advance(1);
    assert_eq!(
        scheduler.pop_pending().map(|event| event.kind),
        Some(EventKind::DmaComplete(0))
    );
}

#[test]
fn enabling_timer_loads_reload_value() {
    let mut timers = Timers::new();
    let mut io = IoRegs::new();
    io.write_16(0x0400_0100, 0xff80);
    io.write_16(0x0400_0102, 0x0080);

    timers.step(1, &mut io);

    assert_eq!(io.timer_counter(0), 0xff81);
}

#[test]
fn overflow_reloads_counter_and_requests_irq() {
    let mut timers = Timers::new();
    let mut io = IoRegs::new();
    io.write_16(0x0400_0100, 0xfffe);
    io.write_16(0x0400_0102, 0x00c0);

    timers.step(1, &mut io);
    assert_eq!(io.timer_counter(0), 0xffff);

    timers.step(1, &mut io);
    assert_eq!(io.timer_counter(0), 0xfffe);
    assert_ne!(io.if_() & IRQ_TIMER0, 0);
}

#[test]
fn cascade_timer_ticks_on_previous_overflow() {
    let mut timers = Timers::new();
    let mut io = IoRegs::new();
    io.write_16(0x0400_0100, 0xffff);
    io.write_16(0x0400_0102, 0x0080);
    io.write_16(0x0400_0104, 0x1000);
    io.write_16(0x0400_0106, 0x0084);

    timers.step(1, &mut io);
    timers.step(1, &mut io);

    assert_eq!(io.timer_counter(1), 0x1001);
}
