//! Game Boy Advance emulation: an ARM7TDMI core, the system bus and its
//! memories, the MMIO block, timers, DMA, keypad, BIOS services and the LCD,
//! assembled into one machine.
use vstd::prelude::*;

pub mod arm7tdmi;
pub mod bios;
pub mod bus;
pub mod cartridge;
pub mod demo;
pub mod dma;
pub mod interrupt;
pub mod io;
pub mod keypad;
pub mod mem;
pub mod ppu;
pub mod scheduler;
pub mod timer;

pub use bios::{Bios, BiosBackend, BiosError};
pub use bus::Bus;
pub use cartridge::Cartridge;
pub use dma::DmaController;
pub use io::IoRegs;
pub use keypad::{Button, Keypad};
pub use mem::{BiosLoadError, Memory};
pub use ppu::{rgb555_to_xrgb8888, Ppu, FRAME_PIXELS, SCREEN_HEIGHT, SCREEN_WIDTH};
pub use scheduler::{Event, EventKind, Scheduler};
pub use timer::Timers;

use arm7tdmi::{Arm7tdmi, CpuView, Mode, SP};
use bus::BusView;
use dma::dma_irq;
use ppu::PpuView;
use scheduler::{is_next, SchedulerView};
use timer::{timer_irq, TimersView};

verus! {

/// The initial user-mode stack pointer.
pub const USER_STACK_TOP: u32 = 0x0300_7f00;

/// The initial IRQ-mode stack pointer.
pub const IRQ_STACK_TOP: u32 = 0x0300_7fa0;

/// The initial supervisor-mode stack pointer.
pub const SUPERVISOR_STACK_TOP: u32 = 0x0300_7fe0;

/// The whole machine's state.
pub struct GbaView {
    pub cpu: CpuView,
    pub bus: BusView,
    pub ppu: PpuView,
    pub scheduler: SchedulerView,
    pub timers: TimersView,
    pub dma: Seq<bool>,
    pub keys_pressed: u16,
    pub keypad_condition: bool,
    pub bios: BiosBackend,
}

/// The GBA: the CPU run against the bus, with the LCD, scheduler, timers,
/// DMA and keypad stepped after each instruction, and BIOS services served
/// in place of the BIOS image while no image has been loaded.
#[derive(Debug, Clone)]
pub struct Gba {
    cpu: Arm7tdmi,
    bus: Bus,
    ppu: Ppu,
    scheduler: Scheduler,
    timers: Timers,
    dma: DmaController,
    keypad: Keypad,
    bios: Bios,
}

impl View for Gba {
    type V = GbaView;

    closed spec fn view(&self) -> GbaView {
        GbaView {
            cpu: self.cpu@,
            bus: self.bus@,
            ppu: self.ppu@,
            scheduler: self.scheduler@,
            timers: self.timers@,
            dma: self.dma@,
            keys_pressed: self.keypad.pressed_spec(),
            keypad_condition: self.keypad.condition_spec(),
            bios: self.bios.backend_spec(),
        }
    }
}

/// The I/O registers after a scheduled event: H-blank and V-blank start
/// their blanking period; a timer overflow or DMA completion requests the
/// channel's interrupt (channels beyond 3 are ignored).
pub open spec fn event_io(io: io::IoView, kind: EventKind) -> io::IoView {
    match kind {
        EventKind::HBlank => io.with_hblank(true),
        EventKind::VBlank => io.with_vblank(true),
        EventKind::TimerOverflow(i) => if i < 4 {
            io.with_interrupt(timer_irq(i as int))
        } else {
            io
        },
        EventKind::DmaComplete(i) => if i < 4 {
            io.with_interrupt(dma_irq(i as int))
        } else {
            io
        },
    }
}

/// Whether the step serves a BIOS call here: services are served here (no
/// BIOS image loaded), the core sits at the SWI vector with a SWI pending,
/// and the service is one carried out here (SoftReset, RegisterRamReset,
/// or Div with a nonzero divisor whose quotient fits).
pub open spec fn hle_serves(g: GbaView) -> bool {
    &&& g.bios == BiosBackend::Hle
    &&& bios::pending_swi(g.cpu, g.bus) matches Some((f, _, _)) && (f == bios::SWI_SOFT_RESET || f
        == bios::SWI_REGISTER_RAM_RESET || (f == bios::SWI_DIV && g.cpu.reg(1) != 0
        && bios::div_in_range(g.cpu)))
}

/// The instruction phase of a step, from machine `g` to `g1` in `cycles`
/// cycles: with IRQs unmasked and one pending, IRQ entry in two cycles;
/// else a BIOS call served here (`hle_serves`), as `bios::swi_outcome`
/// describes; otherwise the instruction at the PC, fetched and run against
/// the bus as `arm7tdmi::stepped` describes. Nothing but the CPU and the bus
/// changes.
pub open spec fn cpu_phase(g: GbaView, g1: GbaView, cycles: u32) -> bool {
    &&& g1 == (GbaView { cpu: g1.cpu, bus: g1.bus, ..g })
    &&& if !arm7tdmi::psr::bit_of(g.cpu.cpsr, 7) && interrupt::irq_pending_spec(g.bus.io) {
        &&& cycles == 2
        &&& g1.cpu == arm7tdmi::exception::exception_entry(
            g.cpu,
            arm7tdmi::Exception::Irq,
            g.cpu.reg(arm7tdmi::PC).wrapping_add(4),
        )
        &&& g1.bus == g.bus
    } else if hle_serves(g) {
        let (f, saved, lr) = bios::pending_swi(g.cpu, g.bus).unwrap();
        bios::swi_outcome(
            g.cpu,
            g.bus,
            f,
            saved,
            lr,
            Ok::<Option<u32>, BiosError>(Some(cycles)),
            g1.cpu,
            g1.bus,
        )
    } else {
        exists|fetched: u32, b0: Bus, fetched_bus: Bus, b2: Bus|
            #![trigger arm7tdmi::fetch_read(g.cpu, b0, fetched_bus, fetched), b2@]
            b0@ == g.bus && b2@ == g1.bus && arm7tdmi::fetch_read(g.cpu, b0, fetched_bus, fetched)
                && arm7tdmi::stepped(g.cpu, fetched_bus, fetched, g1.cpu, b2, cycles)
    }
}

/// The rest of the hardware run for `cycles` cycles after the instruction:
/// the scheduler's clock advances; the LCD advances (`ppu::advance`); the
/// timers run (`timer::step_from`); DMA channels run on the blanks the LCD
/// just entered (`dma::service_from`); the keypad registers are synced.
pub open spec fn hardware_step(g: GbaView, cycles: u32) -> GbaView {
    let prev = g.bus.io.dispstat;
    let (ppu1, io1) = ppu::advance(g.ppu, g.bus.io, g.bus.vram, g.bus.palette, g.bus.oam, cycles as nat);
    let hblank = prev & 0x0002 == 0 && io1.dispstat & 0x0002 != 0;
    let vblank = prev & 0x0001 == 0 && io1.dispstat & 0x0001 != 0;
    let (timers2, io2) = timer::step_from(g.timers, io1, cycles, 0);
    let (dma3, bus3) = dma::service_from(g.dma, BusView { io: io2, ..g.bus }, hblank, vblank, 0);
    GbaView {
        bus: BusView { io: keypad::synced_io(g.keys_pressed, g.keypad_condition, bus3.io), ..bus3 },
        ppu: ppu1,
        scheduler: SchedulerView {
            timestamp: g.scheduler.timestamp.wrapping_add(cycles as u64),
            ..g.scheduler
        },
        timers: timers2,
        dma: dma3,
        keypad_condition: keypad::keypad_condition(bus3.io.keycnt, g.keys_pressed),
        ..g
    }
}

/// The I/O registers after events `events`, applied in order.
pub open spec fn apply_events(io: io::IoView, events: Seq<scheduler::QueuedEvent>) -> io::IoView
    decreases events.len(),
{
    if events.len() == 0 {
        io
    } else {
        event_io(apply_events(io, events.drop_last()), events.last().2)
    }
}

/// The events handled at the end of a step, from machine `g` to `h`:
/// `handled` are taken from the queue, each due at the current cycle, none
/// running before one handled ahead of it, and applied in that order by
/// `event_io`; what stays queued is not due. Nothing else changes.
pub open spec fn events_handled(g: GbaView, h: GbaView, handled: Seq<scheduler::QueuedEvent>) -> bool {
    let now = g.scheduler.timestamp;
    &&& h == (GbaView {
        bus: BusView { io: apply_events(g.bus.io, handled), ..g.bus },
        scheduler: SchedulerView { events: h.scheduler.events, ..g.scheduler },
        ..g
    })
    &&& h.scheduler.events.to_multiset().add(handled.to_multiset()) == g.scheduler.events.to_multiset()
    &&& forall|i: int| 0 <= i < handled.len() ==> (#[trigger] handled[i]).0 <= now
    &&& forall|i: int, j: int|
        0 <= i < j < handled.len() ==> !scheduler::runs_before(#[trigger] handled[j], #[trigger] handled[i])
    &&& forall|i: int| 0 <= i < h.scheduler.events.len() ==> (#[trigger] h.scheduler.events[i]).0 > now
}

/// One step of the machine from `g` to `h`, as `Gba::step` describes it.
#[verifier::opaque]
pub open spec fn machine_step(g: GbaView, h: GbaView) -> bool {
    exists|cycles: u32, g1: GbaView, handled: Seq<scheduler::QueuedEvent>|
        #![trigger cpu_phase(g, g1, cycles), events_handled(hardware_step(g1, cycles), h, handled)]
        cycles >= 1 && cpu_phase(g, g1, cycles) && events_handled(hardware_step(g1, cycles), h, handled)
}

/// A run of machine steps from `g`: `states` are the machine before and
/// after each step, at most `max_steps` of them; no step but the last left a
/// frame ready, and the run stopped at the first frame (`produced`) or after
/// `max_steps` steps.
pub open spec fn frame_run(g: GbaView, states: Seq<GbaView>, produced: bool, max_steps: u32) -> bool {
    &&& states.len() >= 1
    &&& states[0] == g
    &&& states.len() - 1 <= max_steps
    &&& forall|i: int| 0 <= i < states.len() - 1 ==> #[trigger] machine_step(states[i], states[i + 1])
    &&& forall|i: int| 1 <= i < states.len() - 1 ==> !(#[trigger] states[i]).ppu.frame_ready
    &&& produced == (states.len() > 1 && states.last().ppu.frame_ready)
    &&& !produced ==> states.len() - 1 == max_steps
}

/// A word is zero exactly when it is zero read as signed.
proof fn lemma_signed_zero(x: u32)
    by (bit_vector)
    ensures
        (x as i32 == 0) == (x == 0),
{
}

impl Gba {
    /// The CPU's state is valid and the LCD's timing is in range.
    pub open spec fn wf(&self) -> bool {
        &&& self@.cpu.valid()
        &&& self@.ppu.valid()
    }

    /// A machine with `cartridge` inserted, the stacks set up for user, IRQ
    /// and supervisor mode, the scanline counter at 0 and the keypad synced.
    pub fn new(cartridge: Cartridge) -> (r: Self)
        ensures
            r.wf(),
            r@.bus.rom == cartridge@,
            r@.cpu.reg_in(Mode::User, SP) == USER_STACK_TOP,
            r@.cpu.reg_in(Mode::Irq, SP) == IRQ_STACK_TOP,
            r@.cpu.reg_in(Mode::Supervisor, SP) == SUPERVISOR_STACK_TOP,
            r@.cpu.cpsr == 0x10,
            r@.scheduler.events.len() == 0,
            r@.scheduler.timestamp == 0,
            r@.keys_pressed == 0,
            r@.bus.io.keyinput == 0x03ff,
            r@.bus.io.vcount == 0,
            r@.bios == BiosBackend::Hle,
    {
        let mut gba = Gba {
            cpu: Arm7tdmi::new(),
            bus: Bus::new(cartridge),
            ppu: Ppu::new(),
            scheduler: Scheduler::new(),
            timers: Timers::new(),
            dma: DmaController::new(),
            keypad: Keypad::new(),
            bios: Bios::new(),
        };
        gba.cpu.write_reg_for_mode(Mode::User, SP, USER_STACK_TOP);
        gba.cpu.write_reg_for_mode(Mode::Irq, SP, IRQ_STACK_TOP);
        gba.cpu.write_reg_for_mode(Mode::Supervisor, SP, SUPERVISOR_STACK_TOP);
        gba.bus.io_mut().set_vcount(0);
        gba.keypad.sync_to_io(gba.bus.io_mut());
        assert((!0u16 & 0x03ff) & 0x03ff == 0x03ff && 0u16 & 0xff == 0) by (bit_vector);
        gba
    }

    /// A machine with a cartridge holding `rom`.
    pub fn with_rom(rom: Vec<u8>) -> (r: Self)
        ensures
            r.wf(),
            r@.bus.rom == rom@,
    {
        Gba::new(Cartridge::new(rom))
    }

    pub fn cpu(&self) -> (r: &Arm7tdmi)
        ensures
            r@ == self@.cpu,
    {
        &self.cpu
    }

    pub fn cpu_mut(&mut self) -> (r: &mut Arm7tdmi)
        ensures
            r@ == old(self)@.cpu,
            final(self)@ == (GbaView { cpu: final(r)@, ..old(self)@ }),
    {
        &mut self.cpu
    }

    /// Copy a BIOS image in (see `Bus::load_bios`); once one is loaded,
    /// BIOS calls run the image instead of being served here.
    pub fn load_bios(&mut self, bios: &[u8]) -> (r: Result<(), BiosLoadError>)
        ensures
            final(self)@ == (GbaView {
                bus: BusView { bios: final(self)@.bus.bios, ..old(self)@.bus },
                bios: final(self)@.bios,
                ..old(self)@
            }),
            bios@.len() > mem::BIOS_SIZE ==> r is Err && final(self)@.bus.bios == old(self)@.bus.bios
                && final(self)@.bios == old(self)@.bios,
            bios@.len() <= mem::BIOS_SIZE ==> r is Ok && final(self)@.bus.bios == bios@ + Seq::new(
                (mem::BIOS_SIZE - bios@.len()) as nat,
                |i: int| 0u8,
            ) && final(self)@.bios == BiosBackend::External,
    {
        let r = self.bus.load_bios(bios);
        if r.is_ok() {
            self.bios.use_external();
        }
        r
    }

    /// The BIOS service dispatcher.
    pub fn bios(&self) -> (r: &Bios)
        ensures
            r.backend_spec() == self@.bios,
    {
        &self.bios
    }

    pub fn bus(&self) -> (r: &Bus)
        ensures
            r@ == self@.bus,
    {
        &self.bus
    }

    pub fn bus_mut(&mut self) -> (r: &mut Bus)
        ensures
            r@ == old(self)@.bus,
            final(self)@ == (GbaView { bus: final(r)@, ..old(self)@ }),
    {
        &mut self.bus
    }

    pub fn scheduler(&self) -> (r: &Scheduler)
        ensures
            r@ == self@.scheduler,
    {
        &self.scheduler
    }

    pub fn scheduler_mut(&mut self) -> (r: &mut Scheduler)
        ensures
            r@ == old(self)@.scheduler,
            final(self)@ == (GbaView { scheduler: final(r)@, ..old(self)@ }),
    {
        &mut self.scheduler
    }

    /// Queue `kind` for cycle `fire_at`; see `Scheduler::schedule`.
    pub fn schedule_event(&mut self, fire_at: u64, kind: EventKind)
        ensures
            final(self)@ == (GbaView {
                scheduler: SchedulerView {
                    next_seq: old(self)@.scheduler.next_seq.wrapping_add(1),
                    events: old(self)@.scheduler.events.push(
                        (fire_at, old(self)@.scheduler.next_seq, kind),
                    ),
                    ..old(self)@.scheduler
                },
                ..old(self)@
            }),
    {
        self.scheduler.schedule(fire_at, kind);
    }

    /// Queue `kind` for `delta` cycles from now; see
    /// `Scheduler::schedule_in`.
    pub fn schedule_event_in(&mut self, delta: u64, kind: EventKind)
        ensures
            final(self)@ == (GbaView {
                scheduler: SchedulerView {
                    next_seq: old(self)@.scheduler.next_seq.wrapping_add(1),
                    events: old(self)@.scheduler.events.push(
                        (
                            old(self)@.scheduler.timestamp.wrapping_add(delta),
                            old(self)@.scheduler.next_seq,
                            kind,
                        ),
                    ),
                    ..old(self)@.scheduler
                },
                ..old(self)@
            }),
    {
        self.scheduler.schedule_in(delta, kind);
    }

    pub fn ppu(&self) -> (r: &Ppu)
        ensures
            r@ == self@.ppu,
    {
        &self.ppu
    }

    pub fn ppu_mut(&mut self) -> (r: &mut Ppu)
        ensures
            r@ == old(self)@.ppu,
            final(self)@ == (GbaView { ppu: final(r)@, ..old(self)@ }),
    {
        &mut self.ppu
    }

    pub fn timers(&self) -> (r: &Timers)
        ensures
            r@ == self@.timers,
    {
        &self.timers
    }

    pub fn dma(&self) -> (r: &DmaController)
        ensures
            r@ == self@.dma,
    {
        &self.dma
    }

    pub fn keypad(&self) -> (r: &Keypad)
        ensures
            r.pressed_spec() == self@.keys_pressed,
            r.condition_spec() == self@.keypad_condition,
    {
        &self.keypad
    }

    /// Press or release `button` and sync the keypad registers.
    pub fn set_button_pressed(&mut self, button: Button, pressed: bool)
        ensures
            final(self)@.keys_pressed == (if pressed {
                old(self)@.keys_pressed | keypad::button_mask(button)
            } else {
                old(self)@.keys_pressed & !keypad::button_mask(button)
            }),
            final(self)@.bus == (BusView {
                io: keypad::synced_io(
                    final(self)@.keys_pressed,
                    old(self)@.keypad_condition,
                    old(self)@.bus.io,
                ),
                ..old(self)@.bus
            }),
            final(self)@.keypad_condition == keypad::keypad_condition(
                old(self)@.bus.io.keycnt,
                final(self)@.keys_pressed,
            ),
            final(self)@.cpu == old(self)@.cpu,
            final(self)@.ppu == old(self)@.ppu,
            final(self)@.scheduler == old(self)@.scheduler,
    {
        self.keypad.set_pressed(button, pressed);
        self.keypad.sync_to_io(self.bus.io_mut());
    }

    /// Apply a scheduled event; see `event_io`.
    fn handle_event(&mut self, kind: EventKind)
        ensures
            final(self)@ == (GbaView {
                bus: BusView { io: event_io(old(self)@.bus.io, kind), ..old(self)@.bus },
                ..old(self)@
            }),
    {
        match kind {
            EventKind::HBlank => self.bus.io_mut().set_hblank(true),
            EventKind::VBlank => self.bus.io_mut().set_vblank(true),
            EventKind::TimerOverflow(index) => {
                if index < 4 {
                    let mask = timer::timer_irq_mask(index);
                    self.bus.io_mut().request_interrupt(mask);
                }
            },
            EventKind::DmaComplete(index) => {
                if index < 4 {
                    let mask = dma::dma_irq_mask(index);
                    self.bus.io_mut().request_interrupt(mask);
                }
            },
        }
    }

    /// Serve the pending BIOS call here when `hle_serves` says so, returning
    /// its cycles; otherwise `None`, changing nothing.
    fn serve_bios_call(&mut self) -> (r: Option<u32>)
        requires
            old(self).wf(),
            !(!arm7tdmi::psr::bit_of(old(self)@.cpu.cpsr, 7) && interrupt::irq_pending_spec(
                old(self)@.bus.io,
            )),
        ensures
            final(self).wf(),
            hle_serves(old(self)@) ==> (r matches Some(c) && c >= 1 && cpu_phase(old(self)@, final(self)@, c)),
            !hle_serves(old(self)@) ==> r is None,
            r is None ==> *final(self) == *old(self),
    {
        if self.bios.backend() != BiosBackend::Hle {
            return None;
        }
        let (function, _saved, _lr) = match bios::decode_pending_swi(&self.cpu, &self.bus) {
            Ok(Some(pending)) => pending,
            _ => {
                return None;
            },
        };
        if function == bios::SWI_DIV {
            let numerator = self.cpu.read_reg(0);
            let denominator = self.cpu.read_reg(1);
            if denominator == 0 || (numerator == 0x8000_0000 && denominator == 0xffff_ffff) {
                return None;
            }
            proof {
                lemma_signed_zero(denominator);
            }
        } else if function != bios::SWI_SOFT_RESET && function != bios::SWI_REGISTER_RAM_RESET {
            return None;
        }
        match self.bios.handle_step(&mut self.cpu, &mut self.bus) {
            Ok(Some(c)) => Some(c),
            _ => None,
        }
    }

    /// One machine step; see `machine_step`.
    fn step_once(&mut self)
        requires
            old(self).wf(),
        ensures
            final(self).wf(),
            machine_step(old(self)@, final(self)@),
    {
        let ghost before = self@;
        let cycles = self.step();
        proof {
            let (g1, handled) = choose|g1: GbaView, handled: Seq<scheduler::QueuedEvent>|
                #[trigger] cpu_phase(before, g1, cycles) && #[trigger] events_handled(
                    hardware_step(g1, cycles),
                    self@,
                    handled,
                );
            assert(cpu_phase(before, g1, cycles) && events_handled(hardware_step(g1, cycles), self@, handled));
            reveal(machine_step);
        }
    }

    /// Step until a frame is ready, at most `max_steps` times: returns
    /// whether a frame was produced, and consumes its ready flag. See
    /// `frame_run`.
    pub fn run_until_frame(&mut self, max_steps: u32) -> (produced: bool)
        requires
            old(self).wf(),
        ensures
            final(self).wf(),
            exists|states: Seq<GbaView>|
                #[trigger] frame_run(old(self)@, states, produced, max_steps) && final(self)@ == (if produced {
                    GbaView { ppu: PpuView { frame_ready: false, ..states.last().ppu }, ..states.last() }
                } else {
                    states.last()
                }),
    {
        let ghost g0 = self@;
        let ghost mut states: Seq<GbaView> = seq![g0];
        let mut i: u32 = 0;
        while i < max_steps
            invariant
                self.wf(),
                i <= max_steps,
                states.len() == i + 1,
                g0 == old(self)@,
                states[0] == g0,
                states.last() == self@,
                forall|j: int| 0 <= j < states.len() - 1 ==> #[trigger] machine_step(states[j], states[j + 1]),
                forall|j: int| 1 <= j < states.len() ==> !(#[trigger] states[j]).ppu.frame_ready,
            decreases max_steps - i,
        {
            let ghost before = self@;
            let ghost prev = states;
            self.step_once();
            proof {
                states = states.push(self@);
                assert forall|j: int| 0 <= j < states.len() - 1 implies #[trigger] machine_step(
                    states[j],
                    states[j + 1],
                ) by {
                    if j < prev.len() - 1 {
                        assert(states[j] == prev[j] && states[j + 1] == prev[j + 1]);
                    }
                }
            }
            let ghost after = self@;
            if self.ppu.take_frame_ready() {
                proof {
                    assert forall|j: int| 1 <= j < states.len() - 1 implies !(#[trigger] states[j]).ppu.frame_ready by {
                        assert(states[j] == prev[j]);
                    }
                    assert(states.last() == after);
                    assert(frame_run(g0, states, true, max_steps) && self@ == (GbaView {
                        ppu: PpuView { frame_ready: false, ..states.last().ppu },
                        ..states.last()
                    }));
                }
                return true;
            }
            proof {
                assert(self@ =~= after);
                assert forall|j: int| 1 <= j < states.len() implies !(#[trigger] states[j]).ppu.frame_ready by {
                    if j < prev.len() {
                        assert(states[j] == prev[j]);
                    }
                }
            }
            i = i + 1;
        }
        proof {
            assert(frame_run(g0, states, false, max_steps));
        }
        false
    }

    /// Run one instruction (or IRQ entry, two cycles, or a BIOS call served
    /// here; see `cpu_phase`), then the LCD, timers, DMA and keypad for the
    /// cycles it took (`hardware_step`), then every scheduled event that has
    /// come due (`events_handled`). Returns the cycles taken; afterwards no
    /// queued event is due.
    #[verifier::rlimit(60)]
    pub fn step(&mut self) -> (cycles: u32)
        requires
            old(self).wf(),
        ensures
            final(self).wf(),
            cycles >= 1,
            exists|g1: GbaView, handled: Seq<scheduler::QueuedEvent>|
                #[trigger] cpu_phase(old(self)@, g1, cycles) && #[trigger] events_handled(
                    hardware_step(g1, cycles),
                    final(self)@,
                    handled,
                ),
            final(self)@.scheduler.timestamp == old(self)@.scheduler.timestamp.wrapping_add(
                cycles as u64,
            ),
            forall|i: int|
                0 <= i < final(self)@.scheduler.events.len() ==> (
                #[trigger] final(self)@.scheduler.events[i]).0 > final(self)@.scheduler.timestamp,
    {
        let ghost g0 = self@;
        let ghost bus0 = self.bus;
        let cycles = if interrupt::service_irq(&mut self.cpu, self.bus.io()) {
            2
        } else {
            match self.serve_bios_call() {
                Some(c) => c,
                None => self.cpu.step(&mut self.bus),
            }
        };
        let ghost g1 = self@;
        proof {
            assert(g1 == (GbaView { cpu: g1.cpu, bus: g1.bus, ..g0 }));
            if !(!arm7tdmi::psr::bit_of(g0.cpu.cpsr, 7) && interrupt::irq_pending_spec(g0.bus.io))
                && !hle_serves(g0) {
                let (fetched, fb) = choose|fetched: u32, fetched_bus: Bus|
                    #[trigger] arm7tdmi::fetch_read(g0.cpu, bus0, fetched_bus, fetched)
                        && #[trigger] arm7tdmi::stepped(g0.cpu, fetched_bus, fetched, g1.cpu, self.bus, cycles);
                assert(arm7tdmi::fetch_read(g0.cpu, bus0, fb, fetched) && self.bus@ == g1.bus);
            }
            assert(cpu_phase(g0, g1, cycles));
        }
        let previous_dispstat = self.bus.io().dispstat();
        self.scheduler.advance(cycles);
        self.bus.step_ppu(&mut self.ppu, cycles);
        let current_dispstat = self.bus.io().dispstat();
        let entered_hblank = (previous_dispstat & 0x0002) == 0 && (current_dispstat & 0x0002) != 0;
        let entered_vblank = (previous_dispstat & 0x0001) == 0 && (current_dispstat & 0x0001) != 0;
        self.timers.step(cycles, self.bus.io_mut());
        self.dma.service(&mut self.bus, entered_hblank, entered_vblank);
        self.keypad.sync_to_io(self.bus.io_mut());
        let ghost g2 = self@;
        assert(g2 == hardware_step(g1, cycles));
        let ghost stamp = self.scheduler@.timestamp;
        let ghost mut handled: Seq<scheduler::QueuedEvent> = Seq::empty();
        proof {
            assert(g2 == (GbaView {
                bus: BusView { io: apply_events(g2.bus.io, handled), ..g2.bus },
                scheduler: SchedulerView { events: g2.scheduler.events, ..g2.scheduler },
                ..g2
            }));
            assert(g2.scheduler.events.to_multiset().add(handled.to_multiset()) =~= g2.scheduler.events.to_multiset()) by {
                broadcast use vstd::multiset::group_multiset_axioms;
                broadcast use vstd::multiset::lemma_multiset_empty_len;
                handled.to_multiset_ensures();
                assert(handled.to_multiset() =~= vstd::multiset::Multiset::empty());
            }
        }
        loop
            invariant
                self.wf(),
                self.scheduler@.timestamp == stamp,
                stamp == g2.scheduler.timestamp,
                self@ == (GbaView {
                    bus: BusView { io: apply_events(g2.bus.io, handled), ..g2.bus },
                    scheduler: SchedulerView { events: self@.scheduler.events, ..g2.scheduler },
                    ..g2
                }),
                self@.scheduler.events.to_multiset().add(handled.to_multiset())
                    == g2.scheduler.events.to_multiset(),
                forall|i: int| 0 <= i < handled.len() ==> (#[trigger] handled[i]).0 <= stamp,
                forall|i: int, j: int|
                    0 <= i < j < handled.len() ==> !scheduler::runs_before(
                        #[trigger] handled[j],
                        #[trigger] handled[i],
                    ),
                forall|i: int, j: int|
                    0 <= i < handled.len() && 0 <= j < self@.scheduler.events.len()
                        ==> !scheduler::runs_before(
                        #[trigger] self@.scheduler.events[j],
                        #[trigger] handled[i],
                    ),
            ensures
                self.wf(),
                self.scheduler@.timestamp == stamp,
                events_handled(g2, self@, handled),
            decreases self.scheduler@.events.len(),
        {
            let ghost before = self.scheduler@.events;
            let ghost io_before = self.bus@.io;
            match self.scheduler.pop_pending() {
                Some(event) => {
                    let ghost k = choose|k: int|
                        is_next(before, k) && before[k].0 <= stamp && Some(event) == Some(
                            scheduler::Event { fire_at: before[k].0, kind: before[k].2 },
                        ) && self.scheduler@.events == before.remove(k);
                    self.handle_event(event.kind);
                    proof {
                        let e = before[k];
                        let old_handled = handled;
                        handled = handled.push(e);
                        assert(handled.drop_last() =~= old_handled);
                        assert(apply_events(g2.bus.io, handled) == event_io(io_before, event.kind));
                        broadcast use vstd::multiset::group_multiset_axioms;
                        broadcast use vstd::seq_lib::to_multiset_build;
                        broadcast use vstd::seq_lib::to_multiset_remove;
                        assert(before.remove(k).to_multiset() == before.to_multiset().remove(e));
                        assert(handled.to_multiset() == old_handled.to_multiset().insert(e));
                        assert(before.to_multiset().count(e) > 0) by {
                            broadcast use vstd::seq_lib::to_multiset_contains;
                            assert(before.contains(e));
                        }
                        assert(self@.scheduler.events.to_multiset().add(handled.to_multiset())
                            =~= g2.scheduler.events.to_multiset());
                        assert forall|i: int, j: int|
                            0 <= i < j < handled.len() implies !scheduler::runs_before(
                            #[trigger] handled[j],
                            #[trigger] handled[i],
                        ) by {
                            if j == handled.len() - 1 {
                                assert(before[k] == handled[j]);
                            }
                        }
                        assert forall|i: int, j: int|
                            0 <= i < handled.len() && 0 <= j < self@.scheduler.events.len()
                                implies !scheduler::runs_before(
                            #[trigger] self@.scheduler.events[j],
                            #[trigger] handled[i],
                        ) by {
                            let jj = if j < k { j } else { j + 1 };
                            assert(self@.scheduler.events[j] == before[jj]);
                            if i == handled.len() - 1 {
                                assert(!scheduler::runs_before(before[jj], before[k]));
                            } else {
                                assert(old_handled[i] == handled[i]);
                            }
                        }
                    }
                },
                None => {
                    proof {
                        if before.len() > 0 {
                            let k = choose|k: int|
                                is_next(before, k) && before[k].0 > stamp;
                            assert forall|i: int| 0 <= i < before.len() implies (
                            #[trigger] before[i]).0 > stamp by {
                                assert(!scheduler::runs_before(before[i], before[k]));
                            }
                        }
                        assert(events_handled(g2, self@, handled));
                    }
                    break;
                },
            }
        }
        proof {
            assert(cpu_phase(g0, g1, cycles) && events_handled(hardware_step(g1, cycles), self@, handled));
        }
        cycles
    }
}

} // verus!
