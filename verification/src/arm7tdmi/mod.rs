//! ARM7TDMI CPU emulation: registers, PSRs, exception entry, the ALU and the
//! ARM and Thumb instruction sets. The CPU talks to memory through
//! `BusInterface` and is independent of the rest of the hardware.
pub mod alu;
pub mod exception;
pub mod thumb;
pub mod psr;
pub mod reg;

pub use alu::{
    add_with_carry, shift_immediate, shift_register, ArithmeticResult, ShiftKind, ShiftResult,
};
pub use exception::Exception;
pub use psr::{Mode, Psr, SavedProgramStatusRegisters};
pub use reg::{Registers, LR, PC, SP};

use vstd::prelude::*;
use crate::arm7tdmi::psr::{
    bit_of, mode_has_spsr, mode_of, psr_mode, spsr_slot, with_bit, with_mode,
};
use crate::arm7tdmi::reg::reg_slot;

verus! {

/// The interface that the CPU uses to access memory. Implemented by the GBA
/// bus, or by a fake bus in tests. Each bus says, through the relations
/// below, what a read returns and what a write leaves; the CPU's contracts
/// speak of the accesses it makes through them.
pub trait BusInterface {
    /// Whether a byte read at `addr` from `before` may return `val`,
    /// leaving `after`.
    spec fn byte_read(before: &Self, after: &Self, addr: u32, val: u8) -> bool;

    /// Whether a halfword read at `addr` from `before` may return `val`,
    /// leaving `after`.
    spec fn halfword_read(before: &Self, after: &Self, addr: u32, val: u16) -> bool;

    /// Whether a word read at `addr` from `before` may return `val`,
    /// leaving `after`.
    spec fn word_read(before: &Self, after: &Self, addr: u32, val: u32) -> bool;

    /// Whether `after` is what a byte write of `val` at `addr` leaves of
    /// `before`.
    spec fn byte_written(before: &Self, after: &Self, addr: u32, val: u8) -> bool;

    /// Whether `after` is what a halfword write of `val` at `addr` leaves
    /// of `before`; each bus says what its writes do.
    spec fn halfword_written(before: &Self, after: &Self, addr: u32, val: u16) -> bool;

    /// Whether `after` is what a word write of `val` at `addr` leaves of
    /// `before`.
    spec fn word_written(before: &Self, after: &Self, addr: u32, val: u32) -> bool;

    fn read_8(&mut self, addr: u32) -> (r: u8)
        ensures
            Self::byte_read(old(self), final(self), addr, r),
    ;

    fn read_16(&mut self, addr: u32) -> (r: u16)
        ensures
            Self::halfword_read(old(self), final(self), addr, r),
    ;

    fn read_32(&mut self, addr: u32) -> (r: u32)
        ensures
            Self::word_read(old(self), final(self), addr, r),
    ;

    fn write_8(&mut self, addr: u32, val: u8)
        ensures
            Self::byte_written(old(self), final(self), addr, val),
    ;

    fn write_16(&mut self, addr: u32, val: u16)
        ensures
            Self::halfword_written(old(self), final(self), addr, val),
    ;

    fn write_32(&mut self, addr: u32, val: u32)
        ensures
            Self::word_written(old(self), final(self), addr, val),
    ;
}

/// One access the CPU makes to the bus: its width, address and value.
pub enum BusAccess {
    Read8(u32, u8),
    Read16(u32, u16),
    Read32(u32, u32),
    Write8(u32, u8),
    Write16(u32, u16),
    Write32(u32, u32),
}

/// The address an access goes to.
pub open spec fn access_address(a: BusAccess) -> u32 {
    match a {
        BusAccess::Read8(addr, _) => addr,
        BusAccess::Read16(addr, _) => addr,
        BusAccess::Read32(addr, _) => addr,
        BusAccess::Write8(addr, _) => addr,
        BusAccess::Write16(addr, _) => addr,
        BusAccess::Write32(addr, _) => addr,
    }
}

/// The value an access reads or writes, zero-extended.
pub open spec fn access_value(a: BusAccess) -> u32 {
    match a {
        BusAccess::Read8(_, v) => v as u32,
        BusAccess::Read16(_, v) => v as u32,
        BusAccess::Read32(_, v) => v,
        BusAccess::Write8(_, v) => v as u32,
        BusAccess::Write16(_, v) => v as u32,
        BusAccess::Write32(_, v) => v,
    }
}

/// Whether access `a` takes the bus from `before` to `after`.
pub open spec fn access_done<B: BusInterface>(before: B, after: B, a: BusAccess) -> bool {
    match a {
        BusAccess::Read8(addr, v) => B::byte_read(&before, &after, addr, v),
        BusAccess::Read16(addr, v) => B::halfword_read(&before, &after, addr, v),
        BusAccess::Read32(addr, v) => B::word_read(&before, &after, addr, v),
        BusAccess::Write8(addr, v) => B::byte_written(&before, &after, addr, v),
        BusAccess::Write16(addr, v) => B::halfword_written(&before, &after, addr, v),
        BusAccess::Write32(addr, v) => B::word_written(&before, &after, addr, v),
    }
}

/// Whether `states` are the bus states along accesses `s`: from `before`,
/// through one state after each access, to `after`.
pub open spec fn accesses_via<B: BusInterface>(states: Seq<B>, before: B, after: B, s: Seq<BusAccess>) -> bool {
    &&& states.len() == s.len() + 1
    &&& states[0] == before
    &&& states[s.len() as int] == after
    &&& forall|i: int| 0 <= i < s.len() ==> #[trigger] access_done(states[i], states[i + 1], s[i])
}

/// Whether the accesses `s`, made in order, take the bus from `before` to
/// `after`; no access leaves it as it was.
pub open spec fn accesses_done<B: BusInterface>(before: B, after: B, s: Seq<BusAccess>) -> bool {
    exists|states: Seq<B>| #[trigger] accesses_via(states, before, after, s)
}

/// No access leaves the bus as it was.
pub proof fn lemma_accesses_none<B: BusInterface>(b: B)
    ensures
        accesses_done(b, b, Seq::<BusAccess>::empty()),
{
    assert(accesses_via(seq![b], b, b, Seq::<BusAccess>::empty()));
}

/// One more access extends a run of accesses.
pub proof fn lemma_accesses_push<B: BusInterface>(b0: B, b1: B, b2: B, s: Seq<BusAccess>, a: BusAccess)
    requires
        accesses_done(b0, b1, s),
        access_done(b1, b2, a),
    ensures
        accesses_done(b0, b2, s.push(a)),
{
    let states = choose|states: Seq<B>| accesses_via(states, b0, b1, s);
    let st2 = states.push(b2);
    let t = s.push(a);
    assert forall|i: int| 0 <= i < t.len() implies #[trigger] access_done(st2[i], st2[i + 1], t[i]) by {
        if i < s.len() {
            assert(access_done(states[i], states[i + 1], s[i]));
        }
    }
    assert(accesses_via(st2, b0, b2, t));
}

/// The address `k` words above `start`, wrapping.
pub open spec fn word_at(start: u32, k: int) -> u32 {
    ((start as int + 4 * k) % 0x1_0000_0000) as u32
}

/// Whether `raw` is what the load's access returned, zero-extended: below
/// 256 for a byte read, below 65536 for a halfword read.
pub open spec fn raw_fits(a: Seq<BusAccess>, raw: u32) -> bool {
    a.len() == 1 ==> match a[0] {
        BusAccess::Read8(_, v) => raw == v as u32,
        BusAccess::Read16(_, v) => raw == v as u32,
        BusAccess::Read32(_, v) => raw == v,
        _ => true,
    }
}

/// The last access of a run: the run up to it reaches some state from which
/// that access reaches the end.
pub proof fn lemma_accesses_split<B: BusInterface>(b0: B, b2: B, s: Seq<BusAccess>, a: BusAccess)
    requires
        accesses_done(b0, b2, s.push(a)),
    ensures
        exists|mid: B| #[trigger] accesses_done(b0, mid, s) && access_done(mid, b2, a),
{
    let t = s.push(a);
    let states = choose|states: Seq<B>| accesses_via(states, b0, b2, t);
    let mid = states[s.len() as int];
    let pre = states.take(s.len() as int + 1);
    assert(access_done(states[s.len() as int], states[s.len() as int + 1], t[s.len() as int]));
    assert forall|i: int| 0 <= i < s.len() implies #[trigger] access_done(pre[i], pre[i + 1], s[i]) by {
        assert(access_done(states[i], states[i + 1], t[i]));
    }
    assert(accesses_via(pre, b0, mid, s));
    assert(accesses_done(b0, mid, s));
    assert(t[s.len() as int] == a);
    assert(states[s.len() as int + 1] == b2);
    assert(accesses_done(b0, mid, s) && access_done(mid, b2, a));
}

/// A run of one access is that access.
pub proof fn lemma_accesses_single<B: BusInterface>(b0: B, b1: B, a: BusAccess)
    requires
        accesses_done(b0, b1, seq![a]),
    ensures
        access_done(b0, b1, a),
{
    let states = choose|states: Seq<B>| accesses_via(states, b0, b1, seq![a]);
    assert(access_done(states[0], states[1], seq![a][0]));
}

/// A single access, as a run of one.
pub proof fn lemma_accesses_one<B: BusInterface>(b0: B, b1: B, a: BusAccess)
    requires
        access_done(b0, b1, a),
    ensures
        accesses_done(b0, b1, seq![a]),
{
    lemma_accesses_none(b0);
    lemma_accesses_push(b0, b0, b1, Seq::<BusAccess>::empty(), a);
    assert(Seq::<BusAccess>::empty().push(a) =~= seq![a]);
}

/// The architecturally visible state of the core: the 31 physical registers
/// (numbered as in `reg_slot`), the CPSR and the five saved PSRs (numbered as
/// in `spsr_slot`).
#[verifier::ext_equal]
pub struct CpuView {
    pub regs: Seq<u32>,
    pub cpsr: u32,
    pub spsrs: Seq<u32>,
}

impl CpuView {
    /// Every bank has its size, and the CPSR and each SPSR name a mode.
    pub open spec fn valid(self) -> bool {
        &&& self.regs.len() == 31
        &&& self.spsrs.len() == 5
        &&& psr_mode(self.cpsr) is Some
        &&& forall|i: int| 0 <= i < 5 ==> (#[trigger] psr_mode(self.spsrs[i])) is Some
    }

    pub open spec fn mode(self) -> Mode {
        mode_of(self.cpsr)
    }

    pub open spec fn thumb(self) -> bool {
        bit_of(self.cpsr, 5)
    }

    /// Logical register `reg` in the current mode.
    pub open spec fn reg(self, reg: u8) -> u32 {
        self.regs[reg_slot(self.mode(), reg)]
    }

    /// Logical register `reg` as `mode` sees it.
    pub open spec fn reg_in(self, mode: Mode, reg: u8) -> u32 {
        self.regs[reg_slot(mode, reg)]
    }

    pub open spec fn with_reg_in(self, mode: Mode, reg: u8, value: u32) -> CpuView {
        CpuView { regs: self.regs.update(reg_slot(mode, reg), value), cpsr: self.cpsr, spsrs: self.spsrs }
    }

    pub open spec fn with_reg(self, reg: u8, value: u32) -> CpuView {
        self.with_reg_in(self.mode(), reg, value)
    }

    pub open spec fn with_cpsr(self, cpsr: u32) -> CpuView {
        CpuView { regs: self.regs, cpsr, spsrs: self.spsrs }
    }

    /// The saved PSR of `mode`, for the five exception modes.
    pub open spec fn spsr(self, mode: Mode) -> Option<u32> {
        if mode_has_spsr(mode) {
            Some(self.spsrs[spsr_slot(mode)])
        } else {
            None
        }
    }

    pub open spec fn with_spsr(self, mode: Mode, value: u32) -> CpuView {
        if mode_has_spsr(mode) {
            CpuView { regs: self.regs, cpsr: self.cpsr, spsrs: self.spsrs.update(spsr_slot(mode), value) }
        } else {
            self
        }
    }

    /// The CPSR replaced by the saved PSR of the current mode, when it has one.
    pub open spec fn restore_cpsr(self) -> CpuView {
        match self.spsr(self.mode()) {
            Some(saved) => self.with_cpsr(saved),
            None => self,
        }
    }
}

/// ARM7TDMI core state: the register banks, the current program status
/// register and the saved PSRs of the exception modes.
#[derive(Debug, Clone, PartialEq, Eq)]
pub struct Arm7tdmi {
    regs: Registers,
    cpsr: Psr,
    spsrs: SavedProgramStatusRegisters,
}

impl View for Arm7tdmi {
    type V = CpuView;

    closed spec fn view(&self) -> CpuView {
        CpuView { regs: self.regs@, cpsr: self.cpsr@, spsrs: self.spsrs@ }
    }
}

impl Arm7tdmi {
    /// A reset-like state: User mode, ARM state, every register zero and every
    /// saved PSR holding User mode.
    pub fn new() -> (r: Arm7tdmi)
        ensures
            r@.valid(),
            r@.regs == Seq::new(31, |i: int| 0u32),
            r@.cpsr == 0x10,
            r@.spsrs == Seq::new(5, |i: int| 0x10u32),
    {
        let r = Arm7tdmi {
            regs: Registers::new(),
            cpsr: Psr::new(Mode::User),
            spsrs: SavedProgramStatusRegisters::new(),
        };
        assert(r@.spsrs =~= Seq::new(5, |i: int| 0x10u32));
        assert(0x10u32 & 0x1f == 0x10) by (bit_vector);
        r
    }

    pub fn mode(&self) -> (r: Mode)
        requires
            self@.valid(),
        ensures
            r == self@.mode(),
    {
        self.cpsr.mode()
    }

    pub fn set_mode(&mut self, mode: Mode)
        requires
            old(self)@.valid(),
        ensures
            final(self)@ == old(self)@.with_cpsr(with_mode(old(self)@.cpsr, mode)),
            final(self)@.valid(),
            final(self)@.mode() == mode,
    {
        self.cpsr.set_mode(mode);
        proof {
            psr::lemma_with_mode(old(self)@.cpsr, mode);
        }
    }

    pub fn is_thumb(&self) -> (r: bool)
        ensures
            r == self@.thumb(),
    {
        self.cpsr.thumb()
    }

    pub fn set_thumb(&mut self, thumb: bool)
        requires
            old(self)@.valid(),
        ensures
            final(self)@ == old(self)@.with_cpsr(with_bit(old(self)@.cpsr, 5, thumb)),
            final(self)@.valid(),
            final(self)@.mode() == old(self)@.mode(),
    {
        self.cpsr.set_thumb(thumb);
        proof {
            psr::lemma_with_bit_keeps_mode(old(self)@.cpsr, 5, thumb);
        }
    }

    pub fn cpsr(&self) -> (r: Psr)
        ensures
            r@ == self@.cpsr,
    {
        self.cpsr
    }

    /// Replaces the CPSR; its mode field must name a mode.
    pub fn set_cpsr(&mut self, psr: Psr)
        requires
            old(self)@.valid(),
            psr.valid(),
        ensures
            final(self)@ == old(self)@.with_cpsr(psr@),
            final(self)@.valid(),
    {
        self.cpsr = psr;
    }

    /// The saved PSR of `mode`; `None` for User and System.
    pub fn spsr(&self, mode: Mode) -> (r: Option<Psr>)
        requires
            self@.valid(),
        ensures
            r is Some <==> mode_has_spsr(mode),
            r is Some ==> self@.spsr(mode) == Some(r->0@),
            r is Some ==> r->0.valid(),
    {
        let r = self.spsrs.get(mode);
        proof {
            if r is Some {
                assert(psr_mode(self@.spsrs[spsr_slot(mode)]) is Some);
            }
        }
        r
    }

    /// Replaces the saved PSR of `mode`; false (no change) for User and System.
    pub fn set_spsr(&mut self, mode: Mode, value: Psr) -> (r: bool)
        requires
            old(self)@.valid(),
            value.valid(),
        ensures
            r == mode_has_spsr(mode),
            final(self)@ == old(self)@.with_spsr(mode, value@),
            final(self)@.valid(),
    {
        let r = self.spsrs.set(mode, value);
        proof {
            assert(self@ =~= old(self)@.with_spsr(mode, value@));
        }
        r
    }

    pub fn registers(&self) -> (r: &Registers)
        ensures
            r@ == self@.regs,
    {
        &self.regs
    }

    /// A mutable reference to the physical registers; whatever is written
    /// through it becomes the CPU's register file, the PSRs unchanged.
    pub fn registers_mut(&mut self) -> (r: &mut Registers)
        ensures
            r@ == old(self)@.regs,
            final(self)@ == (CpuView { regs: final(r)@, ..old(self)@ }),
    {
        &mut self.regs
    }

    pub fn read_reg(&self, reg: u8) -> (r: u32)
        requires
            self@.valid(),
            reg < 16,
        ensures
            r == self@.reg(reg),
    {
        self.regs.read(self.mode(), reg)
    }

    pub fn write_reg(&mut self, reg: u8, value: u32)
        requires
            old(self)@.valid(),
            reg < 16,
        ensures
            final(self)@ == old(self)@.with_reg(reg, value),
            final(self)@.valid(),
    {
        let mode = self.mode();
        self.regs.write(mode, reg, value);
        proof {
            assert(self@ =~= old(self)@.with_reg(reg, value));
        }
    }

    pub fn read_reg_for_mode(&self, mode: Mode, reg: u8) -> (r: u32)
        requires
            reg < 16,
        ensures
            r == self@.reg_in(mode, reg),
    {
        self.regs.read(mode, reg)
    }

    pub fn write_reg_for_mode(&mut self, mode: Mode, reg: u8, value: u32)
        requires
            old(self)@.valid(),
            reg < 16,
        ensures
            final(self)@ == old(self)@.with_reg_in(mode, reg, value),
            final(self)@.valid(),
    {
        self.regs.write(mode, reg, value);
        proof {
            assert(self@ =~= old(self)@.with_reg_in(mode, reg, value));
        }
    }

    pub fn sp(&self) -> (r: u32)
        requires
            self@.valid(),
        ensures
            r == self@.reg(SP),
    {
        self.read_reg(SP)
    }

    pub fn set_sp(&mut self, value: u32)
        requires
            old(self)@.valid(),
        ensures
            final(self)@ == old(self)@.with_reg(SP, value),
            final(self)@.valid(),
    {
        self.write_reg(SP, value);
    }

    pub fn lr(&self) -> (r: u32)
        requires
            self@.valid(),
        ensures
            r == self@.reg(LR),
    {
        self.read_reg(LR)
    }

    pub fn set_lr(&mut self, value: u32)
        requires
            old(self)@.valid(),
        ensures
            final(self)@ == old(self)@.with_reg(LR, value),
            final(self)@.valid(),
    {
        self.write_reg(LR, value);
    }

    pub fn pc(&self) -> (r: u32)
        requires
            self@.valid(),
        ensures
            r == self@.reg(PC),
    {
        self.read_reg(PC)
    }

    pub fn set_pc(&mut self, value: u32)
        requires
            old(self)@.valid(),
        ensures
            final(self)@ == old(self)@.with_reg(PC, value),
            final(self)@.valid(),
    {
        self.write_reg(PC, value);
    }
}

impl Arm7tdmi {
    /// Fetches and executes one instruction at the PC: a word in ARM state, a
    /// halfword in Thumb state. Unless the instruction wrote the PC, the PC
    /// then moves to the next instruction. An opcode no decoder recognizes
    /// (a coprocessor instruction, or an unassigned Thumb encoding) takes the
    /// undefined-instruction exception. Returns the cycles spent.
    pub fn step<B: BusInterface>(&mut self, bus: &mut B) -> (cycles: u32)
        requires
            old(self)@.valid(),
        ensures
            final(self)@.valid(),
            cycles >= 1,
            exists|fetched: u32, fetched_bus: B|
                #[trigger] fetch_read(old(self)@, *old(bus), fetched_bus, fetched) && #[trigger] stepped(
                    old(self)@,
                    fetched_bus,
                    fetched,
                    final(self)@,
                    *final(bus),
                    cycles,
                ),
    {
        let fetch_pc = self.pc();
        if self.is_thumb() {
            let opcode = bus.read_16(fetch_pc);
            let ghost s = self@;
            let ghost fb = *bus;
            assert(fetch_read(s, *old(bus), fb, opcode as u32)) by {
                assert((opcode as u32) as u16 == opcode);
            }
            if thumb::is_supported(opcode) {
                let outcome = thumb::execute(self, bus, opcode, fetch_pc);
                let ghost mid = self@;
                if !outcome.wrote_pc {
                    self.set_pc(fetch_pc.wrapping_add(2));
                }
                assert(stepped(s, fb, opcode as u32, self@, *bus, outcome.cycles)) by {
                    assert((opcode as u32) as u16 == opcode);
                    assert(thumb::thumb_executed(s, fb, opcode, fetch_pc, mid, *bus, outcome));
                }
                outcome.cycles
            } else {
                self.enter_exception(Exception::UndefinedInstruction, fetch_pc.wrapping_add(2));
                assert(stepped(s, fb, opcode as u32, self@, *bus, 2)) by {
                    assert((opcode as u32) as u16 == opcode);
                }
                2
            }
        } else {
            let opcode = bus.read_32(fetch_pc);
            let ghost s = self@;
            let ghost fb = *bus;
            assert(fetch_read(s, *old(bus), fb, opcode));
            if arm::is_executable(self.cpsr(), opcode) {
                let outcome = arm::execute(self, bus, opcode, fetch_pc);
                let ghost mid = self@;
                if !outcome.wrote_pc {
                    self.set_pc(fetch_pc.wrapping_add(4));
                }
                assert(stepped(s, fb, opcode, self@, *bus, outcome.cycles)) by {
                    assert(arm::arm_executed(s, fb, opcode, fetch_pc, mid, *bus, outcome));
                }
                outcome.cycles
            } else {
                self.enter_exception(Exception::UndefinedInstruction, fetch_pc.wrapping_add(4));
                assert(stepped(s, fb, opcode, self@, *bus, 2));
                2
            }
        }
    }
}

/// The instruction fetch: from bus `b`, the halfword (Thumb state) or word
/// (ARM state) at the PC of `s` was read, returning `fetched`, leaving `b2`.
pub open spec fn fetch_read<B: BusInterface>(s: CpuView, b: B, b2: B, fetched: u32) -> bool {
    if s.thumb() {
        fetched < 0x1_0000 && B::halfword_read(&b, &b2, s.reg(PC), fetched as u16)
    } else {
        B::word_read(&b, &b2, s.reg(PC), fetched)
    }
}

/// One instruction's effect from state `s` to state `t` in `cycles`
/// cycles, the bus going from `b` to `b2`, `fetched` being what the fetch at
/// the PC returned (a halfword in Thumb state, a word in ARM state): the
/// instruction executes as `thumb::thumb_executed` or `arm::arm_executed`
/// describe, bus accesses included, and the PC then moves past it unless the
/// instruction wrote the PC; an opcode no decoder recognizes takes the
/// undefined-instruction exception, returning past it, in two cycles, and
/// leaves the bus alone.
pub open spec fn stepped<B: BusInterface>(s: CpuView, b: B, fetched: u32, t: CpuView, b2: B, cycles: u32) -> bool {
    let pc = s.reg(PC);
    if s.thumb() {
        let op = fetched as u16;
        let next = pc.wrapping_add(2);
        if thumb::thumb_class(op) is Unsupported {
            t == exception::exception_entry(s, Exception::UndefinedInstruction, next) && cycles == 2
                && b2 == b
        } else {
            exists|mid: CpuView, r: arm::ExecutionResult|
                #[trigger] thumb::thumb_executed(s, b, op, pc, mid, b2, r) && cycles == r.cycles && t == (
                if r.wrote_pc {
                    mid
                } else {
                    mid.with_reg(PC, next)
                })
        }
    } else {
        let next = pc.wrapping_add(4);
        if arm::arm_condition(s.cpsr, fetched) && arm::arm_class(fetched) is Unsupported {
            t == exception::exception_entry(s, Exception::UndefinedInstruction, next) && cycles == 2
                && b2 == b
        } else {
            exists|mid: CpuView, r: arm::ExecutionResult|
                #[trigger] arm::arm_executed(s, b, fetched, pc, mid, b2, r) && cycles == r.cycles && t == (
                if r.wrote_pc {
                    mid
                } else {
                    mid.with_reg(PC, next)
                })
        }
    }
}

impl Default for Arm7tdmi {
    fn default() -> (r: Arm7tdmi)
        ensures
            r@.valid(),
            r@.regs == Seq::new(31, |i: int| 0u32),
            r@.cpsr == 0x10,
            r@.spsrs == Seq::new(5, |i: int| 0x10u32),
    {
        Arm7tdmi::new()
    }
}

} // verus!
pub mod arm;
