//! ARM halfword and signed transfers: LDRH, STRH, LDRSB, LDRSH.
use vstd::prelude::*;
use crate::arm7tdmi::psr::bit_of;
use crate::arm7tdmi::arm::{
    exec_reg_spec, load_halfword_spec, opcode_bit, read_exec_reg, reg_at, reg_field,
    rotate_loaded_halfword, sign_extend16, sign_extend16_spec, sign_extend8, sign_extend8_spec,
    write_exec_reg, write_exec_spec, ExecutionResult,
};
use crate::arm7tdmi::{accesses_done, lemma_accesses_one, Arm7tdmi, BusAccess, BusInterface, CpuView, PC};

verus! {

pub open spec fn is_halfword_transfer_spec(opcode: u32) -> bool {
    opcode & 0x0e00_0090 == 0x0000_0090 && (opcode >> 5) & 0x3 != 0
}

pub fn is_halfword_transfer(opcode: u32) -> (r: bool)
    ensures
        r == is_halfword_transfer_spec(opcode),
{
    (opcode & 0x0e00_0090) == 0x0000_0090 && ((opcode >> 5) & 0x3) != 0
}

/// The offset: `(imm_hi << 4) | imm_lo` with bit 22, else Rm.
pub open spec fn halfword_offset_spec(s: CpuView, opcode: u32, fetch_pc: u32) -> u32 {
    if bit_of(opcode, 22) {
        (((opcode >> 8) & 0xf) << 4u32) | (opcode & 0xf)
    } else {
        exec_reg_spec(s, reg_field(opcode, 0), fetch_pc)
    }
}

pub open spec fn halfword_indexed_spec(s: CpuView, opcode: u32, fetch_pc: u32) -> u32 {
    let base = exec_reg_spec(s, reg_field(opcode, 16), fetch_pc);
    let offset = halfword_offset_spec(s, opcode, fetch_pc);
    if bit_of(opcode, 23) {
        base.wrapping_add(offset)
    } else {
        base.wrapping_sub(offset)
    }
}

pub open spec fn halfword_address_spec(s: CpuView, opcode: u32, fetch_pc: u32) -> u32 {
    if bit_of(opcode, 24) {
        halfword_indexed_spec(s, opcode, fetch_pc)
    } else {
        exec_reg_spec(s, reg_field(opcode, 16), fetch_pc)
    }
}

/// The loaded value, given what the bus returned (`raw`, zero-extended):
/// LDRH rotates an odd-address halfword, LDRSB sign-extends a byte, LDRSH
/// sign-extends a halfword, or the byte at an odd address.
pub open spec fn halfword_load_value(opcode: u32, address: u32, raw: u32) -> u32 {
    let signed = bit_of(opcode, 6);
    let halfword = bit_of(opcode, 5);
    if !signed {
        load_halfword_spec(raw as u16, address)
    } else if !halfword {
        sign_extend8_spec(raw as u8)
    } else if address & 1 == 0 {
        sign_extend16_spec(raw as u16)
    } else {
        sign_extend8_spec(raw as u8)
    }
}

/// The state after a halfword transfer whose bus read returned `raw`. The
/// base is written back when post-indexed or with W, except when a load's
/// base is its destination (the loaded value stays).
pub open spec fn halfword_transfer_spec(s: CpuView, opcode: u32, fetch_pc: u32, raw: u32) -> (CpuView, bool) {
    let load = bit_of(opcode, 20);
    let rn = reg_field(opcode, 16);
    let rd = reg_field(opcode, 12);
    let address = halfword_address_spec(s, opcode, fetch_pc);
    let (t, wrote) = if load {
        write_exec_spec(s, rd, halfword_load_value(opcode, address, raw))
    } else {
        (s, false)
    };
    if (!bit_of(opcode, 24) || bit_of(opcode, 21)) && !(load && rn == rd) {
        (t.with_reg(rn, halfword_indexed_spec(s, opcode, fetch_pc)), wrote)
    } else {
        (t, wrote)
    }
}

/// The bus access of a halfword transfer whose load returned `raw`: the
/// aligned halfword read (LDRH, and LDRSH at an even address) or the byte
/// read (LDRSB, and LDRSH at an odd address) at the accessed address, or
/// the low halfword of Rd (R15 reading as the address plus 12) written to
/// the aligned halfword.
pub open spec fn halfword_transfer_access(s: CpuView, opcode: u32, fetch_pc: u32, raw: u32) -> Seq<BusAccess> {
    let address = halfword_address_spec(s, opcode, fetch_pc);
    let rd = reg_field(opcode, 12);
    let v = if rd == PC {
        fetch_pc.wrapping_add(12)
    } else {
        exec_reg_spec(s, rd, fetch_pc)
    };
    if bit_of(opcode, 20) {
        if !bit_of(opcode, 6) || (bit_of(opcode, 5) && address & 1 == 0) {
            seq![BusAccess::Read16(address & !1u32, raw as u16)]
        } else {
            seq![BusAccess::Read8(address, raw as u8)]
        }
    } else {
        seq![BusAccess::Write16(address & !1u32, v as u16)]
    }
}

/// Executes a halfword or signed transfer, making the access
/// `halfword_transfer_access` names. Loads take 3 cycles, stores 2.
pub fn execute<B: BusInterface>(cpu: &mut Arm7tdmi, bus: &mut B, opcode: u32, fetch_pc: u32) -> (r:
    ExecutionResult)
    requires
        old(cpu)@.valid(),
        is_halfword_transfer_spec(opcode),
    ensures
        final(cpu)@.valid(),
        exists|raw: u32|
            raw < 0x1_0000 && #[trigger] halfword_transfer_spec(old(cpu)@, opcode, fetch_pc, raw)
                == (final(cpu)@, r.wrote_pc) && accesses_done(
                *old(bus),
                *final(bus),
                halfword_transfer_access(old(cpu)@, opcode, fetch_pc, raw),
            ),
        r.cycles == (if bit_of(opcode, 20) {
            3u32
        } else {
            2u32
        }),
{
    let pre_index = opcode_bit(opcode, 24);
    let add_offset = opcode_bit(opcode, 23);
    let immediate_offset = opcode_bit(opcode, 22);
    let write_back = opcode_bit(opcode, 21);
    let load = opcode_bit(opcode, 20);
    let rn = reg_at(opcode, 16);
    let rd = reg_at(opcode, 12);
    let signed = opcode_bit(opcode, 6);
    let halfword = opcode_bit(opcode, 5);
    assert(((opcode >> 5) & 0x3 != 0) == (((opcode >> 6) & 1 == 1) || ((opcode >> 5) & 1 == 1)))
        by (bit_vector);

    let base = read_exec_reg(cpu, rn, fetch_pc);
    let offset = if immediate_offset {
        (((opcode >> 8) & 0xf) << 4u32) | (opcode & 0xf)
    } else {
        read_exec_reg(cpu, reg_at(opcode, 0), fetch_pc)
    };
    let indexed = if add_offset {
        base.wrapping_add(offset)
    } else {
        base.wrapping_sub(offset)
    };
    let address = if pre_index {
        indexed
    } else {
        base
    };
    let ghost s0 = cpu@;
    let ghost b0 = *bus;

    let mut wrote_pc = false;
    let mut raw: u32 = 0;
    if load {
        let value = if !signed {
            let h = bus.read_16(address & !1u32);
            proof {
                lemma_accesses_one(b0, *bus, BusAccess::Read16(address & !1u32, h));
            }
            raw = h as u32;
            rotate_loaded_halfword(h, address)
        } else if !halfword {
            let b = bus.read_8(address);
            proof {
                lemma_accesses_one(b0, *bus, BusAccess::Read8(address, b));
            }
            raw = b as u32;
            sign_extend8(b)
        } else if (address & 1) == 0 {
            let h = bus.read_16(address & !1u32);
            proof {
                lemma_accesses_one(b0, *bus, BusAccess::Read16(address & !1u32, h));
            }
            raw = h as u32;
            sign_extend16(h)
        } else {
            let b = bus.read_8(address);
            proof {
                lemma_accesses_one(b0, *bus, BusAccess::Read8(address, b));
            }
            raw = b as u32;
            sign_extend8(b)
        };
        wrote_pc = write_exec_reg(cpu, rd, value);
    } else {
        let value = if rd == PC {
            fetch_pc.wrapping_add(12)
        } else {
            read_exec_reg(cpu, rd, fetch_pc)
        };
        bus.write_16(address & !1u32, value as u16);
        proof {
            lemma_accesses_one(b0, *bus, BusAccess::Write16(address & !1u32, value as u16));
        }
    }

    if (!pre_index || write_back) && !(load && rn == rd) {
        cpu.write_reg(rn, indexed);
    }
    assert(halfword_transfer_spec(s0, opcode, fetch_pc, raw) == (cpu@, wrote_pc));
    assert(accesses_done(b0, *bus, halfword_transfer_access(s0, opcode, fetch_pc, raw)));
    ExecutionResult {
        cycles: if load {
            3
        } else {
            2
        },
        wrote_pc,
    }
}

/// Bit-level facts behind halfword transfers: the split immediate offset,
/// the low bit of an address, and the byte and halfword a read returned.
proof fn lemma_halfword_transfer_bits(opcode: u32, address: u32, raw: u32)
    by (bit_vector)
    ensures
        ((((opcode >> 8) & 0xf) << 4u32) | (opcode & 0xf)) == ((opcode >> 8) & 0xf) * 16 + (opcode & 0xf),
        (opcode >> 8) & 0xf == (opcode / 256) % 16,
        opcode & 0xf == opcode % 16,
        (address & 1 == 0) == (address % 2 == 0),
        raw as u16 == raw % 0x10000,
        raw as u8 == raw % 0x100,
{
}

/// LDRH, STRH, LDRSB and LDRSH with an immediate offset, base Rn and
/// destination Rd distinct and neither the PC: the offset is bits 8-11
/// times 16 plus bits 0-3, added for U (bit 23) and subtracted otherwise
/// (wrapping); the access goes to the offset address when pre-indexed (P,
/// bit 24), else to the base; Rn then holds the offset address when
/// post-indexed or with W (bit 21) and keeps the base otherwise. From an
/// even address LDRH loads the halfword read, zero-extended; LDRSB loads
/// the byte read and LDRSH the halfword read, each read as a signed
/// number; a store changes no register but Rn's write-back.
#[verifier::spinoff_prover]
#[verifier::rlimit(40)]
pub proof fn lemma_halfword_addressing(s: CpuView, opcode: u32, fetch_pc: u32, raw: u32)
    requires
        s.valid(),
        bit_of(opcode, 22),
        reg_field(opcode, 16) != 15,
        reg_field(opcode, 12) != 15,
        reg_field(opcode, 16) != reg_field(opcode, 12),
    ensures
        ({
            let rn = reg_field(opcode, 16);
            let rd = reg_field(opcode, 12);
            let base = s.reg(rn) as int;
            let offset = 16 * ((opcode as int / 256) % 16) + opcode as int % 16;
            let indexed: int = if bit_of(opcode, 23) {
                (base + offset) % 0x1_0000_0000
            } else {
                (base - offset + 0x1_0000_0000) % 0x1_0000_0000
            };
            let address = halfword_address_spec(s, opcode, fetch_pc);
            let byte = raw as int % 0x100;
            let half = raw as int % 0x10000;
            let (t, wrote) = halfword_transfer_spec(s, opcode, fetch_pc, raw);
            &&& address == (if bit_of(opcode, 24) { indexed } else { base })
            &&& !wrote
            &&& (!bit_of(opcode, 24) || bit_of(opcode, 21)) ==> t.reg(rn) == indexed
            &&& (bit_of(opcode, 24) && !bit_of(opcode, 21)) ==> t.reg(rn) == base
            &&& (bit_of(opcode, 20) && !bit_of(opcode, 6) && address % 2 == 0) ==> t.reg(rd) == half
            &&& (bit_of(opcode, 20) && bit_of(opcode, 6) && !bit_of(opcode, 5)) ==> crate::arm7tdmi::alu::signed32(t.reg(rd))
                == (if byte < 0x80 { byte } else { byte - 0x100 })
            &&& (bit_of(opcode, 20) && bit_of(opcode, 6) && bit_of(opcode, 5) && address % 2 == 0)
                ==> crate::arm7tdmi::alu::signed32(t.reg(rd)) == (if half < 0x8000 { half } else { half - 0x10000 })
            &&& !bit_of(opcode, 20) ==> t.reg(rd) == s.reg(rd)
            &&& forall|r: u8| r < 16 && r != rn && r != rd ==> #[trigger] t.reg(r) == s.reg(r)
        }),
{
    let rn = reg_field(opcode, 16);
    let rd = reg_field(opcode, 12);
    crate::arm7tdmi::arm::lemma_reg_field(opcode, 16);
    crate::arm7tdmi::arm::lemma_reg_field(opcode, 12);
    let address = halfword_address_spec(s, opcode, fetch_pc);
    let indexed = halfword_indexed_spec(s, opcode, fetch_pc);
    lemma_halfword_transfer_bits(opcode, address, raw);
    let value = halfword_load_value(opcode, address, raw);
    let t0 = if bit_of(opcode, 20) {
        s.with_reg(rd, value)
    } else {
        s
    };
    crate::arm7tdmi::arm::data_proc::lemma_with_reg_effect(s, rd, value);
    assert(t0.valid());
    crate::arm7tdmi::arm::data_proc::lemma_with_reg_effect(t0, rn, indexed);
}

} // verus!
