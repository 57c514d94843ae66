//! Thumb formats 6-12: PC-relative, register-offset, immediate-offset,
//! halfword and SP-relative loads and stores, and load address.
use vstd::prelude::*;
use crate::arm7tdmi::arm::{
    load_halfword_spec, load_word_spec, sign_extend16, sign_extend16_spec, sign_extend8,
    sign_extend8_spec, ExecutionResult,
};
use crate::arm7tdmi::thumb::{
    aligned_visible_pc, aligned_visible_pc_spec, load_halfword, load_word, low_reg, low_reg_at,
    store_halfword, store_word, tbit, thumb_bit, write_exec_reg, write_exec_spec,
};
use crate::arm7tdmi::{
    access_done, accesses_done, lemma_accesses_none, lemma_accesses_one, raw_fits, Arm7tdmi, BusAccess,
    BusInterface, CpuView, SP,
};

verus! {

pub open spec fn is_transfer_spec(opcode: u16) -> bool {
    opcode & 0xf800 == 0x4800 || opcode & 0xf000 == 0x5000 || opcode & 0xe000 == 0x6000 || opcode
        & 0xf000 == 0x8000 || opcode & 0xf000 == 0x9000 || opcode & 0xf000 == 0xa000
}

pub fn is_transfer(opcode: u16) -> (r: bool)
    ensures
        r == is_transfer_spec(opcode),
{
    (opcode & 0xf800) == 0x4800 || (opcode & 0xf000) == 0x5000 || (opcode & 0xe000) == 0x6000 || (
    opcode & 0xf000) == 0x8000 || (opcode & 0xf000) == 0x9000 || (opcode & 0xf000) == 0xa000
}

/// The address a format 6-11 instruction accesses.
pub open spec fn transfer_address_spec(s: CpuView, opcode: u16, fetch_pc: u32) -> u32 {
    let op = opcode as u32;
    if opcode & 0xf800 == 0x4800 {
        aligned_visible_pc_spec(fetch_pc).wrapping_add((op & 0xff) << 2u32)
    } else if opcode & 0xf000 == 0x5000 {
        s.reg(low_reg(opcode, 3)).wrapping_add(s.reg(low_reg(opcode, 6)))
    } else if opcode & 0xe000 == 0x6000 {
        let offset5 = (op >> 6u32) & 0x1f;
        s.reg(low_reg(opcode, 3)).wrapping_add(
            if tbit(opcode, 12) {
                offset5
            } else {
                offset5 << 2u32
            },
        )
    } else if opcode & 0xf000 == 0x8000 {
        s.reg(low_reg(opcode, 3)).wrapping_add(((op >> 6u32) & 0x1f) << 1u32)
    } else {
        s.reg(SP).wrapping_add((op & 0xff) << 2u32)
    }
}

/// Whether a format 6-11 instruction loads (the others store).
pub open spec fn transfer_is_load(opcode: u16) -> bool {
    if opcode & 0xf800 == 0x4800 {
        true
    } else if opcode & 0xf000 == 0x5000 {
        if !tbit(opcode, 9) {
            tbit(opcode, 11)
        } else {
            tbit(opcode, 11) || tbit(opcode, 10)
        }
    } else {
        tbit(opcode, 11)
    }
}

/// The destination register of a load.
pub open spec fn transfer_rd(opcode: u16) -> u8 {
    if opcode & 0xf800 == 0x4800 || opcode & 0xf000 == 0x9000 {
        low_reg(opcode, 8)
    } else {
        low_reg(opcode, 0)
    }
}

/// The loaded value given what the bus returned (`raw`, zero-extended):
/// words rotate, LDRH rotates odd halfwords, LDSB and LDSH sign-extend
/// (LDSH at an odd address sign-extends the byte), bytes zero-extend.
pub open spec fn transfer_load_value(opcode: u16, address: u32, raw: u32) -> u32 {
    if opcode & 0xf000 == 0x5000 {
        if !tbit(opcode, 9) {
            if tbit(opcode, 10) {
                raw
            } else {
                load_word_spec(raw, address)
            }
        } else if tbit(opcode, 11) && !tbit(opcode, 10) {
            load_halfword_spec(raw as u16, address)
        } else if !tbit(opcode, 11) {
            sign_extend8_spec(raw as u8)
        } else if address & 1 == 0 {
            sign_extend16_spec(raw as u16)
        } else {
            sign_extend8_spec(raw as u8)
        }
    } else if opcode & 0xe000 == 0x6000 && tbit(opcode, 12) {
        raw
    } else if opcode & 0xf000 == 0x8000 {
        load_halfword_spec(raw as u16, address)
    } else {
        load_word_spec(raw, address)
    }
}

/// The effect of a format 6-12 instruction whose bus read (for loads)
/// returned `raw`. Loads take 3 cycles, stores 2, load address 1.
pub open spec fn thumb_transfer_spec(s: CpuView, opcode: u16, fetch_pc: u32, raw: u32) -> (CpuView, ExecutionResult) {
    if opcode & 0xf000 == 0xa000 {
        let base = if tbit(opcode, 11) {
            s.reg(SP)
        } else {
            aligned_visible_pc_spec(fetch_pc)
        };
        (s.with_reg(low_reg(opcode, 8), base.wrapping_add(((opcode as u32) & 0xff) << 2u32)), ExecutionResult::sequential_spec(1))
    } else if transfer_is_load(opcode) {
        let address = transfer_address_spec(s, opcode, fetch_pc);
        let (t, wrote) = write_exec_spec(s, transfer_rd(opcode), transfer_load_value(opcode, address, raw));
        (t, ExecutionResult { cycles: 3, wrote_pc: wrote })
    } else {
        (s, ExecutionResult::sequential_spec(2))
    }
}

/// The bus access of a format 6-11 instruction whose load returned `raw`:
/// a byte, an aligned halfword or an aligned word read at the accessed
/// address, or Rd (or its low byte or halfword) written there; load
/// address makes none.
pub open spec fn thumb_transfer_access(s: CpuView, opcode: u16, fetch_pc: u32, raw: u32) -> Seq<BusAccess> {
    let address = transfer_address_spec(s, opcode, fetch_pc);
    let v = s.reg(transfer_rd(opcode));
    if opcode & 0xf000 == 0xa000 {
        Seq::empty()
    } else if transfer_is_load(opcode) {
        if opcode & 0xf000 == 0x5000 {
            if !tbit(opcode, 9) {
                if tbit(opcode, 10) {
                    seq![BusAccess::Read8(address, raw as u8)]
                } else {
                    seq![BusAccess::Read32(address & !3u32, raw)]
                }
            } else if tbit(opcode, 11) && !tbit(opcode, 10) {
                seq![BusAccess::Read16(address & !1u32, raw as u16)]
            } else if !tbit(opcode, 11) || address & 1 != 0 {
                seq![BusAccess::Read8(address, raw as u8)]
            } else {
                seq![BusAccess::Read16(address & !1u32, raw as u16)]
            }
        } else if opcode & 0xe000 == 0x6000 && tbit(opcode, 12) {
            seq![BusAccess::Read8(address, raw as u8)]
        } else if opcode & 0xf000 == 0x8000 {
            seq![BusAccess::Read16(address & !1u32, raw as u16)]
        } else {
            seq![BusAccess::Read32(address & !3u32, raw)]
        }
    } else if (opcode & 0xf000 == 0x5000 && tbit(opcode, 9)) || opcode & 0xf000 == 0x8000 {
        seq![BusAccess::Write16(address & !1u32, v as u16)]
    } else if (opcode & 0xf000 == 0x5000 && tbit(opcode, 10)) || (opcode & 0xe000 == 0x6000 && tbit(
        opcode,
        12,
    )) {
        seq![BusAccess::Write8(address, v as u8)]
    } else {
        seq![BusAccess::Write32(address & !3u32, v)]
    }
}

/// The bus side of a format 6-12 instruction: its access took the bus from
/// `b` to `b2`, and the load (if any) returned `raw`.
pub open spec fn thumb_transfer_bus<B: BusInterface>(
    s: CpuView,
    opcode: u16,
    fetch_pc: u32,
    raw: u32,
    b: B,
    b2: B,
) -> bool {
    let a = thumb_transfer_access(s, opcode, fetch_pc, raw);
    raw_fits(a, raw) && accesses_done(b, b2, a)
}

pub fn execute<B: BusInterface>(cpu: &mut Arm7tdmi, bus: &mut B, opcode: u16, fetch_pc: u32) -> (r:
    ExecutionResult)
    requires
        old(cpu)@.valid(),
        is_transfer_spec(opcode),
    ensures
        final(cpu)@.valid(),
        exists|raw: u32|
            #[trigger] thumb_transfer_spec(old(cpu)@, opcode, fetch_pc, raw) == (final(cpu)@, r)
                && thumb_transfer_bus(old(cpu)@, opcode, fetch_pc, raw, *old(bus), *final(bus)),
{
    if (opcode & 0xf800) == 0x4800 {
        execute_pc_relative_load(cpu, bus, opcode, fetch_pc)
    } else if (opcode & 0xf000) == 0x5000 {
        execute_register_offset(cpu, bus, opcode, fetch_pc)
    } else if (opcode & 0xe000) == 0x6000 {
        execute_immediate_offset(cpu, bus, opcode, fetch_pc)
    } else if (opcode & 0xf000) == 0x8000 {
        execute_halfword_immediate(cpu, bus, opcode, fetch_pc)
    } else if (opcode & 0xf000) == 0x9000 {
        execute_sp_relative(cpu, bus, opcode, fetch_pc)
    } else {
        let ghost s0 = cpu@;
        let r = execute_load_address(cpu, opcode, fetch_pc);
        proof {
            lemma_accesses_none(*bus);
            assert(thumb_transfer_spec(s0, opcode, fetch_pc, 0) == (cpu@, r));
            assert(thumb_transfer_bus(s0, opcode, fetch_pc, 0, *bus, *bus));
        }
        r
    }
}

proof fn lemma_transfer_formats(opcode: u16)
    by (bit_vector)
    ensures
        opcode & 0xf800 == 0x4800 ==> opcode & 0xf000 != 0xa000 && opcode & 0xf000 != 0x5000,
        opcode & 0xf000 == 0x5000 ==> opcode & 0xf000 != 0xa000 && opcode & 0xf800 != 0x4800,
        opcode & 0xe000 == 0x6000 ==> opcode & 0xf000 != 0xa000 && opcode & 0xf000 != 0x5000
            && opcode & 0xf000 != 0x8000 && opcode & 0xf800 != 0x4800,
        opcode & 0xf000 == 0x8000 ==> opcode & 0xf000 != 0xa000 && opcode & 0xe000 != 0x6000
            && opcode & 0xf800 != 0x4800,
        opcode & 0xf000 == 0x9000 ==> opcode & 0xf000 != 0xa000 && opcode & 0xe000 != 0x6000
            && opcode & 0xf800 != 0x4800,
        ((opcode as u32) >> 6u32) & 0x1f == ((opcode as u32) / 64) % 32,
        (((opcode as u32) >> 6u32) & 0x1f) << 2u32 == (((opcode as u32) >> 6u32) & 0x1f) * 4,
        (((opcode as u32) >> 6u32) & 0x1f) << 1u32 == (((opcode as u32) >> 6u32) & 0x1f) * 2,
        (opcode as u32) & 0xff == (opcode as u32) % 256,
        ((opcode as u32) & 0xff) << 2u32 == ((opcode as u32) & 0xff) * 4,
{
}

/// The bit cleared to word-align the PC a PC-relative load sees.
proof fn lemma_clear_bit1(v: u32)
    by (bit_vector)
    ensures
        (v & !2u32) == v - ((v / 2) % 2) * 2,
{
}

/// Where the Thumb single transfers go (wrapping): a PC-relative load
/// (format 6) to the instruction's address plus 4, rounded down to a word,
/// plus four times its 8-bit field; the register-offset forms (formats 7
/// and 8) to Rb plus Ro; the immediate-offset forms to Rb plus the 5-bit
/// field (bits 6-10) times 4 for words, times 1 for bytes (format 9) and
/// times 2 for halfwords (format 10); an SP-relative transfer (format 11)
/// to SP plus four times its 8-bit field.
#[verifier::spinoff_prover]
#[verifier::rlimit(40)]
pub proof fn lemma_thumb_transfer_address(s: CpuView, opcode: u16, fetch_pc: u32)
    ensures
        ({
            let op = opcode as int;
            let imm5 = (op / 64) % 32;
            let imm8 = op % 256;
            let rb = s.reg(low_reg(opcode, 3)) as int;
            let pcv = (fetch_pc + 4) % 0x1_0000_0000;
            let address = transfer_address_spec(s, opcode, fetch_pc) as int;
            &&& opcode & 0xf800 == 0x4800 ==> address == (pcv - ((pcv / 2) % 2) * 2 + 4 * imm8) % 0x1_0000_0000
            &&& opcode & 0xf000 == 0x5000 ==> address == (rb + s.reg(low_reg(opcode, 6))) % 0x1_0000_0000
            &&& (opcode & 0xe000 == 0x6000 && !tbit(opcode, 12)) ==> address == (rb + 4 * imm5) % 0x1_0000_0000
            &&& (opcode & 0xe000 == 0x6000 && tbit(opcode, 12)) ==> address == (rb + imm5) % 0x1_0000_0000
            &&& opcode & 0xf000 == 0x8000 ==> address == (rb + 2 * imm5) % 0x1_0000_0000
            &&& opcode & 0xf000 == 0x9000 ==> address == (s.reg(SP) + 4 * imm8) % 0x1_0000_0000
        }),
{
    lemma_transfer_formats(opcode);
    lemma_clear_bit1(fetch_pc.wrapping_add(4));
}

/// A format 6-11 instruction whose one access is `a` took the bus from `b0`
/// to `b1`.
proof fn lemma_transfer_bus<B: BusInterface>(
    s: CpuView,
    opcode: u16,
    fetch_pc: u32,
    raw: u32,
    b0: B,
    b1: B,
    a: BusAccess,
)
    requires
        access_done(b0, b1, a),
        thumb_transfer_access(s, opcode, fetch_pc, raw) =~= seq![a],
        raw_fits(seq![a], raw),
    ensures
        thumb_transfer_bus(s, opcode, fetch_pc, raw, b0, b1),
{
    lemma_accesses_one(b0, b1, a);
}

/// Format 6: LDR Rd, [PC, #imm].
fn execute_pc_relative_load<B: BusInterface>(cpu: &mut Arm7tdmi, bus: &mut B, opcode: u16, fetch_pc: u32) -> (r:
    ExecutionResult)
    requires
        old(cpu)@.valid(),
        opcode & 0xf800 == 0x4800,
    ensures
        final(cpu)@.valid(),
        exists|raw: u32|
            #[trigger] thumb_transfer_spec(old(cpu)@, opcode, fetch_pc, raw) == (final(cpu)@, r)
                && thumb_transfer_bus(old(cpu)@, opcode, fetch_pc, raw, *old(bus), *final(bus)),
{
    proof {
        lemma_transfer_formats(opcode);
    }
    let ghost s0 = cpu@;
    let rd = low_reg_at(opcode, 8);
    let address = aligned_visible_pc(fetch_pc).wrapping_add(((opcode as u32) & 0xff) << 2u32);
    let ghost b0 = *bus;
    let (raw, value) = load_word(bus, address);
    proof {
        lemma_accesses_one(b0, *bus, BusAccess::Read32(address & !3u32, raw));
        assert(thumb_transfer_access(s0, opcode, fetch_pc, raw) =~= seq![BusAccess::Read32(address & !3u32, raw)]);
    }
    let wrote_pc = write_exec_reg(cpu, rd, value);
    let r = ExecutionResult { cycles: 3, wrote_pc };
    assert(thumb_transfer_spec(s0, opcode, fetch_pc, raw) == (cpu@, r));
    assert(thumb_transfer_bus(s0, opcode, fetch_pc, raw, b0, *bus));
    r
}

/// Format 7 and 8: loads and stores with a register offset, including the
/// sign-extending forms.
fn execute_register_offset<B: BusInterface>(cpu: &mut Arm7tdmi, bus: &mut B, opcode: u16, fetch_pc: u32) -> (r:
    ExecutionResult)
    requires
        old(cpu)@.valid(),
        opcode & 0xf000 == 0x5000,
    ensures
        final(cpu)@.valid(),
        exists|raw: u32|
            #[trigger] thumb_transfer_spec(old(cpu)@, opcode, fetch_pc, raw) == (final(cpu)@, r)
                && thumb_transfer_bus(old(cpu)@, opcode, fetch_pc, raw, *old(bus), *final(bus)),
{
    proof {
        lemma_transfer_formats(opcode);
    }
    let ghost s0 = cpu@;
    let ghost b0 = *bus;
    let ro = low_reg_at(opcode, 6);
    let rb = low_reg_at(opcode, 3);
    let rd = low_reg_at(opcode, 0);
    let address = cpu.read_reg(rb).wrapping_add(cpu.read_reg(ro));
    if !thumb_bit(opcode, 9) {
        let load = thumb_bit(opcode, 11);
        let byte = thumb_bit(opcode, 10);
        if load {
            let (raw, value): (u32, u32) = if byte {
                let b = bus.read_8(address);
                proof {
                    lemma_transfer_bus(s0, opcode, fetch_pc, b as u32, b0, *bus, BusAccess::Read8(address, b));
                }
                (b as u32, b as u32)
            } else {
                let (w, v) = load_word(bus, address);
                proof {
                    lemma_transfer_bus(s0, opcode, fetch_pc, w, b0, *bus, BusAccess::Read32(address & !3u32, w));
                }
                (w, v)
            };
            let ghost b1 = *bus;
            let wrote_pc = write_exec_reg(cpu, rd, value);
            let r = ExecutionResult { cycles: 3, wrote_pc };
            assert(thumb_transfer_spec(s0, opcode, fetch_pc, raw) == (cpu@, r));
            assert(thumb_transfer_bus(s0, opcode, fetch_pc, raw, b0, b1));
            r
        } else {
            let value = cpu.read_reg(rd);
            if byte {
                bus.write_8(address, value as u8);
                proof {
                    lemma_transfer_bus(s0, opcode, fetch_pc, 0, b0, *bus, BusAccess::Write8(address, value as u8));
                }
            } else {
                store_word(bus, address, value);
                proof {
                    lemma_transfer_bus(s0, opcode, fetch_pc, 0, b0, *bus, BusAccess::Write32(address & !3u32, value));
                }
            }
            let r = ExecutionResult::sequential(2);
            assert(thumb_transfer_spec(s0, opcode, fetch_pc, 0) == (cpu@, r));
            r
        }
    } else {
        let h = thumb_bit(opcode, 11);
        let s = thumb_bit(opcode, 10);
        if !h && !s {
            let value = cpu.read_reg(rd) as u16;
            store_halfword(bus, address, value);
            proof {
                lemma_transfer_bus(s0, opcode, fetch_pc, 0, b0, *bus, BusAccess::Write16(address & !1u32, value));
            }
            let r = ExecutionResult::sequential(2);
            assert(thumb_transfer_spec(s0, opcode, fetch_pc, 0) == (cpu@, r));
            r
        } else {
            let (raw, value): (u32, u32) = if h && !s {
                let (hw, v) = load_halfword(bus, address);
                proof {
                    lemma_transfer_bus(s0, opcode, fetch_pc, hw as u32, b0, *bus, BusAccess::Read16(address & !1u32, hw));
                }
                (hw as u32, v)
            } else if !h {
                let b = bus.read_8(address);
                proof {
                    lemma_transfer_bus(s0, opcode, fetch_pc, b as u32, b0, *bus, BusAccess::Read8(address, b));
                }
                (b as u32, sign_extend8(b))
            } else if (address & 1) == 0 {
                let hw = bus.read_16(address & !1u32);
                proof {
                    lemma_transfer_bus(s0, opcode, fetch_pc, hw as u32, b0, *bus, BusAccess::Read16(address & !1u32, hw));
                }
                (hw as u32, sign_extend16(hw))
            } else {
                let b = bus.read_8(address);
                proof {
                    lemma_transfer_bus(s0, opcode, fetch_pc, b as u32, b0, *bus, BusAccess::Read8(address, b));
                }
                (b as u32, sign_extend8(b))
            };
            let ghost b1 = *bus;
            let wrote_pc = write_exec_reg(cpu, rd, value);
            let r = ExecutionResult { cycles: 3, wrote_pc };
            assert(thumb_transfer_spec(s0, opcode, fetch_pc, raw) == (cpu@, r));
            assert(thumb_transfer_bus(s0, opcode, fetch_pc, raw, b0, b1));
            r
        }
    }
}

/// Format 9: word and byte loads and stores with a 5-bit immediate offset.
fn execute_immediate_offset<B: BusInterface>(cpu: &mut Arm7tdmi, bus: &mut B, opcode: u16, fetch_pc: u32) -> (r:
    ExecutionResult)
    requires
        old(cpu)@.valid(),
        opcode & 0xf800 != 0x4800,
        opcode & 0xf000 != 0x5000,
        opcode & 0xe000 == 0x6000,
    ensures
        final(cpu)@.valid(),
        exists|raw: u32|
            #[trigger] thumb_transfer_spec(old(cpu)@, opcode, fetch_pc, raw) == (final(cpu)@, r)
                && thumb_transfer_bus(old(cpu)@, opcode, fetch_pc, raw, *old(bus), *final(bus)),
{
    proof {
        lemma_transfer_formats(opcode);
    }
    let ghost s0 = cpu@;
    let ghost b0 = *bus;
    let byte = thumb_bit(opcode, 12);
    let load = thumb_bit(opcode, 11);
    let offset5 = ((opcode as u32) >> 6u32) & 0x1f;
    let rb = low_reg_at(opcode, 3);
    let rd = low_reg_at(opcode, 0);
    let offset = if byte {
        offset5
    } else {
        offset5 << 2u32
    };
    let address = cpu.read_reg(rb).wrapping_add(offset);
    if load {
        let (raw, value): (u32, u32) = if byte {
            let b = bus.read_8(address);
            proof {
                lemma_transfer_bus(s0, opcode, fetch_pc, b as u32, b0, *bus, BusAccess::Read8(address, b));
            }
            (b as u32, b as u32)
        } else {
            let (w, v) = load_word(bus, address);
            proof {
                lemma_transfer_bus(s0, opcode, fetch_pc, w, b0, *bus, BusAccess::Read32(address & !3u32, w));
            }
            (w, v)
        };
        let ghost b1 = *bus;
        let wrote_pc = write_exec_reg(cpu, rd, value);
        let r = ExecutionResult { cycles: 3, wrote_pc };
        assert(thumb_transfer_spec(s0, opcode, fetch_pc, raw) == (cpu@, r));
        assert(thumb_transfer_bus(s0, opcode, fetch_pc, raw, b0, b1));
        r
    } else {
        let value = cpu.read_reg(rd);
        if byte {
            bus.write_8(address, value as u8);
            proof {
                lemma_transfer_bus(s0, opcode, fetch_pc, 0, b0, *bus, BusAccess::Write8(address, value as u8));
            }
        } else {
            store_word(bus, address, value);
            proof {
                lemma_transfer_bus(s0, opcode, fetch_pc, 0, b0, *bus, BusAccess::Write32(address & !3u32, value));
            }
        }
        let r = ExecutionResult::sequential(2);
        assert(thumb_transfer_spec(s0, opcode, fetch_pc, 0) == (cpu@, r));
        r
    }
}

/// Format 10: halfword loads and stores with an immediate offset.
fn execute_halfword_immediate<B: BusInterface>(cpu: &mut Arm7tdmi, bus: &mut B, opcode: u16, fetch_pc: u32) -> (r:
    ExecutionResult)
    requires
        old(cpu)@.valid(),
        opcode & 0xf000 == 0x8000,
    ensures
        final(cpu)@.valid(),
        exists|raw: u32|
            #[trigger] thumb_transfer_spec(old(cpu)@, opcode, fetch_pc, raw) == (final(cpu)@, r)
                && thumb_transfer_bus(old(cpu)@, opcode, fetch_pc, raw, *old(bus), *final(bus)),
{
    proof {
        lemma_transfer_formats(opcode);
    }
    let ghost s0 = cpu@;
    let ghost b0 = *bus;
    let load = thumb_bit(opcode, 11);
    let offset = (((opcode as u32) >> 6u32) & 0x1f) << 1u32;
    let rb = low_reg_at(opcode, 3);
    let rd = low_reg_at(opcode, 0);
    let address = cpu.read_reg(rb).wrapping_add(offset);
    if load {
        let (hw, value) = load_halfword(bus, address);
        proof {
            lemma_transfer_bus(s0, opcode, fetch_pc, hw as u32, b0, *bus, BusAccess::Read16(address & !1u32, hw));
        }
        let ghost b1 = *bus;
        let wrote_pc = write_exec_reg(cpu, rd, value);
        let r = ExecutionResult { cycles: 3, wrote_pc };
        assert(thumb_transfer_spec(s0, opcode, fetch_pc, hw as u32) == (cpu@, r));
        assert(thumb_transfer_bus(s0, opcode, fetch_pc, hw as u32, b0, b1));
        r
    } else {
        let value = cpu.read_reg(rd) as u16;
        store_halfword(bus, address, value);
        proof {
            lemma_transfer_bus(s0, opcode, fetch_pc, 0, b0, *bus, BusAccess::Write16(address & !1u32, value));
        }
        let r = ExecutionResult::sequential(2);
        assert(thumb_transfer_spec(s0, opcode, fetch_pc, 0) == (cpu@, r));
        r
    }
}

/// Format 11: word loads and stores relative to SP.
fn execute_sp_relative<B: BusInterface>(cpu: &mut Arm7tdmi, bus: &mut B, opcode: u16, fetch_pc: u32) -> (r:
    ExecutionResult)
    requires
        old(cpu)@.valid(),
        opcode & 0xf000 == 0x9000,
    ensures
        final(cpu)@.valid(),
        exists|raw: u32|
            #[trigger] thumb_transfer_spec(old(cpu)@, opcode, fetch_pc, raw) == (final(cpu)@, r)
                && thumb_transfer_bus(old(cpu)@, opcode, fetch_pc, raw, *old(bus), *final(bus)),
{
    proof {
        lemma_transfer_formats(opcode);
    }
    let ghost s0 = cpu@;
    let ghost b0 = *bus;
    let load = thumb_bit(opcode, 11);
    let rd = low_reg_at(opcode, 8);
    let address = cpu.sp().wrapping_add(((opcode as u32) & 0xff) << 2u32);
    if load {
        let (raw, value) = load_word(bus, address);
        proof {
            lemma_transfer_bus(s0, opcode, fetch_pc, raw, b0, *bus, BusAccess::Read32(address & !3u32, raw));
        }
        let ghost b1 = *bus;
        let wrote_pc = write_exec_reg(cpu, rd, value);
        let r = ExecutionResult { cycles: 3, wrote_pc };
        assert(thumb_transfer_spec(s0, opcode, fetch_pc, raw) == (cpu@, r));
        assert(thumb_transfer_bus(s0, opcode, fetch_pc, raw, b0, b1));
        r
    } else {
        let value = cpu.read_reg(rd);
        store_word(bus, address, value);
        proof {
            lemma_transfer_bus(s0, opcode, fetch_pc, 0, b0, *bus, BusAccess::Write32(address & !3u32, value));
        }
        let r = ExecutionResult::sequential(2);
        assert(thumb_transfer_spec(s0, opcode, fetch_pc, 0) == (cpu@, r));
        r
    }
}

/// Format 12: ADD Rd, PC/SP, #imm.
fn execute_load_address(cpu: &mut Arm7tdmi, opcode: u16, fetch_pc: u32) -> (r: ExecutionResult)
    requires
        old(cpu)@.valid(),
        opcode & 0xf000 == 0xa000,
    ensures
        final(cpu)@.valid(),
        exists|raw: u32| #[trigger] thumb_transfer_spec(old(cpu)@, opcode, fetch_pc, raw) == (final(cpu)@, r),
        thumb_transfer_access(old(cpu)@, opcode, fetch_pc, 0) =~= Seq::<BusAccess>::empty(),
{
    proof {
        lemma_transfer_formats(opcode);
    }
    let ghost s0 = cpu@;
    let use_sp = thumb_bit(opcode, 11);
    let rd = low_reg_at(opcode, 8);
    let offset = ((opcode as u32) & 0xff) << 2u32;
    let base = if use_sp {
        cpu.sp()
    } else {
        aligned_visible_pc(fetch_pc)
    };
    cpu.write_reg(rd, base.wrapping_add(offset));
    let r = ExecutionResult::sequential(1);
    assert(thumb_transfer_spec(s0, opcode, fetch_pc, 0) == (cpu@, r));
    r
}

/// Format 12, load address: Rd (bits 8-10) takes SP (bit 11 set) or the
/// instruction's address plus 4 rounded down to a word (bit 11 clear), plus
/// four times the 8-bit field, wrapping; no other register changes.
#[verifier::spinoff_prover]
#[verifier::rlimit(40)]
pub proof fn lemma_load_address(s: CpuView, opcode: u16, fetch_pc: u32)
    requires
        s.valid(),
        opcode & 0xf000 == 0xa000,
    ensures
        ({
            let rd = low_reg(opcode, 8);
            let pcv = (fetch_pc + 4) % 0x1_0000_0000;
            let base: int = if tbit(opcode, 11) { s.reg(SP) as int } else { pcv - ((pcv / 2) % 2) * 2 };
            let t = thumb_transfer_spec(s, opcode, fetch_pc, 0).0;
            &&& t.reg(rd) == (base + 4 * (opcode as int % 256)) % 0x1_0000_0000
            &&& forall|r: u8| r < 16 && r != rd ==> #[trigger] t.reg(r) == s.reg(r)
        }),
{
    lemma_transfer_formats(opcode);
    lemma_clear_bit1(fetch_pc.wrapping_add(4));
    let rd = low_reg(opcode, 8);
    crate::arm7tdmi::arm::lemma_reg_field(opcode as u32, 8);
    let base = if tbit(opcode, 11) {
        s.reg(SP)
    } else {
        aligned_visible_pc_spec(fetch_pc)
    };
    crate::arm7tdmi::arm::data_proc::lemma_with_reg_effect(s, rd, base.wrapping_add(((opcode as u32) & 0xff) << 2u32));
}

} // verus!
