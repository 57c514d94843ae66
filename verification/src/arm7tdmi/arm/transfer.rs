//! ARM single data transfers: LDR, STR, LDRB, STRB.
use vstd::prelude::*;
use crate::arm7tdmi::alu::{shift_immediate, shift_immediate_spec};
use crate::arm7tdmi::arm::data_proc::{shift_kind, shift_kind_spec};
use crate::arm7tdmi::psr::bit_of;
use crate::arm7tdmi::arm::{
    exec_reg_spec, load_word_spec, opcode_bit, read_exec_reg, reg_at, reg_field,
    rotate_loaded_word, write_exec_reg, write_exec_spec, ExecutionResult,
};
use crate::arm7tdmi::{accesses_done, lemma_accesses_one, Arm7tdmi, BusAccess, BusInterface, CpuView, PC};

verus! {

pub open spec fn is_single_data_transfer_spec(opcode: u32) -> bool {
    opcode & 0x0c00_0000 == 0x0400_0000
}

pub fn is_single_data_transfer(opcode: u32) -> (r: bool)
    ensures
        r == is_single_data_transfer_spec(opcode),
{
    (opcode & 0x0c00_0000) == 0x0400_0000
}

/// The offset: a 12-bit immediate, or Rm shifted by an immediate amount.
pub open spec fn transfer_offset_spec(s: CpuView, opcode: u32, fetch_pc: u32) -> u32 {
    if !bit_of(opcode, 25) {
        opcode & 0xfff
    } else {
        shift_immediate_spec(
            shift_kind_spec((opcode >> 5) & 0x3),
            exec_reg_spec(s, reg_field(opcode, 0), fetch_pc),
            ((opcode >> 7) & 0x1f) as u8,
            false,
        ).value
    }
}

/// Base plus (bit 23) or minus the offset.
pub open spec fn transfer_indexed_spec(s: CpuView, opcode: u32, fetch_pc: u32) -> u32 {
    let base = exec_reg_spec(s, reg_field(opcode, 16), fetch_pc);
    let offset = transfer_offset_spec(s, opcode, fetch_pc);
    if bit_of(opcode, 23) {
        base.wrapping_add(offset)
    } else {
        base.wrapping_sub(offset)
    }
}

/// The accessed address: the indexed address when pre-indexed, else the base.
pub open spec fn transfer_address_spec(s: CpuView, opcode: u32, fetch_pc: u32) -> u32 {
    if bit_of(opcode, 24) {
        transfer_indexed_spec(s, opcode, fetch_pc)
    } else {
        exec_reg_spec(s, reg_field(opcode, 16), fetch_pc)
    }
}

/// The state after a single data transfer whose bus read (for loads)
/// returned `raw`: loads write Rd with the byte or the rotated word; both
/// write the indexed address back to Rn when post-indexed or with W.
pub open spec fn single_transfer_spec(s: CpuView, opcode: u32, fetch_pc: u32, raw: u32) -> (CpuView, bool) {
    let indexed = transfer_indexed_spec(s, opcode, fetch_pc);
    let address = transfer_address_spec(s, opcode, fetch_pc);
    let rn = reg_field(opcode, 16);
    let writes_back = !bit_of(opcode, 24) || bit_of(opcode, 21);
    let (t, wrote) = if bit_of(opcode, 20) {
        let value = if bit_of(opcode, 22) {
            raw
        } else {
            load_word_spec(raw, address)
        };
        write_exec_spec(s, reg_field(opcode, 12), value)
    } else {
        (s, false)
    };
    if writes_back {
        (t.with_reg(rn, indexed), wrote)
    } else {
        (t, wrote)
    }
}

/// The value a store writes: Rd, with R15 reading as the address plus 12.
pub open spec fn transfer_store_value_spec(s: CpuView, opcode: u32, fetch_pc: u32) -> u32 {
    let rd = reg_field(opcode, 12);
    if rd == PC {
        fetch_pc.wrapping_add(12)
    } else {
        exec_reg_spec(s, rd, fetch_pc)
    }
}

/// The bus access of a single data transfer whose load returned `raw`: a
/// byte, or the aligned word, read or written at the accessed address.
pub open spec fn single_transfer_access(s: CpuView, opcode: u32, fetch_pc: u32, raw: u32) -> Seq<BusAccess> {
    let address = transfer_address_spec(s, opcode, fetch_pc);
    let v = transfer_store_value_spec(s, opcode, fetch_pc);
    if bit_of(opcode, 20) {
        if bit_of(opcode, 22) {
            seq![BusAccess::Read8(address, raw as u8)]
        } else {
            seq![BusAccess::Read32(address & !3u32, raw)]
        }
    } else if bit_of(opcode, 22) {
        seq![BusAccess::Write8(address, v as u8)]
    } else {
        seq![BusAccess::Write32(address & !3u32, v)]
    }
}

/// Executes LDR/STR/LDRB/STRB. Loads take 3 cycles, stores 2. The bus sees
/// exactly the access `single_transfer_access` names, and the new state is
/// the one `single_transfer_spec` gives for what that read returned.
pub fn execute<B: BusInterface>(cpu: &mut Arm7tdmi, bus: &mut B, opcode: u32, fetch_pc: u32) -> (r:
    ExecutionResult)
    requires
        old(cpu)@.valid(),
    ensures
        final(cpu)@.valid(),
        exists|raw: u32|
            (bit_of(opcode, 22) ==> raw < 256) && #[trigger] single_transfer_spec(
                old(cpu)@,
                opcode,
                fetch_pc,
                raw,
            ) == (final(cpu)@, r.wrote_pc) && accesses_done(
                *old(bus),
                *final(bus),
                single_transfer_access(old(cpu)@, opcode, fetch_pc, raw),
            ),
        r.cycles == (if bit_of(opcode, 20) {
            3u32
        } else {
            2u32
        }),
{
    let immediate_offset = !opcode_bit(opcode, 25);
    let pre_index = opcode_bit(opcode, 24);
    let add_offset = opcode_bit(opcode, 23);
    let byte = opcode_bit(opcode, 22);
    let write_back = opcode_bit(opcode, 21);
    let load = opcode_bit(opcode, 20);
    let rn = reg_at(opcode, 16);
    let rd = reg_at(opcode, 12);

    let base = read_exec_reg(cpu, rn, fetch_pc);
    let offset = if immediate_offset {
        opcode & 0xfff
    } else {
        decode_register_offset(cpu, opcode, fetch_pc)
    };
    let indexed = if add_offset {
        base.wrapping_add(offset)
    } else {
        base.wrapping_sub(offset)
    };
    let address = if pre_index {
        indexed
    } else {
        base
    };
    let ghost s0 = cpu@;
    let ghost b0 = *bus;

    let mut wrote_pc = false;
    let mut raw: u32 = 0;
    if load {
        raw = if byte {
            let b = bus.read_8(address);
            proof {
                lemma_accesses_one(b0, *bus, BusAccess::Read8(address, b));
            }
            b as u32
        } else {
            let w = bus.read_32(address & !3u32);
            proof {
                lemma_accesses_one(b0, *bus, BusAccess::Read32(address & !3u32, w));
            }
            w
        };
        let value = if byte {
            raw
        } else {
            rotate_loaded_word(raw, address)
        };
        wrote_pc = write_exec_reg(cpu, rd, value);
    } else {
        let value = if rd == PC {
            fetch_pc.wrapping_add(12)
        } else {
            read_exec_reg(cpu, rd, fetch_pc)
        };
        if byte {
            bus.write_8(address, value as u8);
            proof {
                lemma_accesses_one(b0, *bus, BusAccess::Write8(address, value as u8));
            }
        } else {
            bus.write_32(address & !3u32, value);
            proof {
                lemma_accesses_one(b0, *bus, BusAccess::Write32(address & !3u32, value));
            }
        }
    }

    if !pre_index || write_back {
        cpu.write_reg(rn, indexed);
    }
    assert(single_transfer_spec(s0, opcode, fetch_pc, raw) == (cpu@, wrote_pc));
    assert(accesses_done(b0, *bus, single_transfer_access(s0, opcode, fetch_pc, raw)));
    ExecutionResult {
        cycles: if load {
            3
        } else {
            2
        },
        wrote_pc,
    }
}

fn decode_register_offset(cpu: &Arm7tdmi, opcode: u32, fetch_pc: u32) -> (r: u32)
    requires
        cpu@.valid(),
    ensures
        bit_of(opcode, 25) ==> r == transfer_offset_spec(cpu@, opcode, fetch_pc),
{
    let rm = reg_at(opcode, 0);
    let kind = shift_kind((opcode >> 5) & 0x3);
    let amount = ((opcode >> 7) & 0x1f) as u8;
    shift_immediate(kind, read_exec_reg(cpu, rm, fetch_pc), amount, false).value
}

/// LDR, STR, LDRB and STRB with an immediate offset, base Rn and
/// destination Rd distinct and neither the PC: the offset is the low 12
/// bits, added for U (bit 23) and subtracted otherwise (wrapping); the
/// access goes to the offset address when pre-indexed (P, bit 24) and to
/// the base when post-indexed; Rn then holds the offset address when
/// post-indexed or with W (bit 21) and keeps the base otherwise; a byte load
/// puts the byte read in Rd, a word load from a word-aligned address the
/// word read; a store changes no register but Rn's write-back.
#[verifier::spinoff_prover]
#[verifier::rlimit(40)]
pub proof fn lemma_transfer_addressing(s: CpuView, opcode: u32, fetch_pc: u32, raw: u32)
    requires
        s.valid(),
        !bit_of(opcode, 25),
        reg_field(opcode, 16) != 15,
        reg_field(opcode, 12) != 15,
        reg_field(opcode, 16) != reg_field(opcode, 12),
    ensures
        ({
            let rn = reg_field(opcode, 16);
            let rd = reg_field(opcode, 12);
            let base = s.reg(rn) as int;
            let offset = (opcode & 0xfff) as int;
            let indexed: int = if bit_of(opcode, 23) {
                (base + offset) % 0x1_0000_0000
            } else {
                (base - offset + 0x1_0000_0000) % 0x1_0000_0000
            };
            let address = transfer_address_spec(s, opcode, fetch_pc);
            let (t, wrote) = single_transfer_spec(s, opcode, fetch_pc, raw);
            &&& address == (if bit_of(opcode, 24) { indexed } else { base })
            &&& !wrote
            &&& (!bit_of(opcode, 24) || bit_of(opcode, 21)) ==> t.reg(rn) == indexed
            &&& (bit_of(opcode, 24) && !bit_of(opcode, 21)) ==> t.reg(rn) == base
            &&& bit_of(opcode, 20) && bit_of(opcode, 22) ==> t.reg(rd) == raw
            &&& bit_of(opcode, 20) && !bit_of(opcode, 22) && address % 4 == 0 ==> t.reg(rd) == raw
            &&& !bit_of(opcode, 20) ==> t.reg(rd) == s.reg(rd)
            &&& forall|r: u8| r < 16 && r != rn && r != rd ==> #[trigger] t.reg(r) == s.reg(r)
        }),
{
    let rn = reg_field(opcode, 16);
    let rd = reg_field(opcode, 12);
    crate::arm7tdmi::arm::lemma_reg_field(opcode, 16);
    crate::arm7tdmi::arm::lemma_reg_field(opcode, 12);
    let address = transfer_address_spec(s, opcode, fetch_pc);
    let indexed = transfer_indexed_spec(s, opcode, fetch_pc);
    vstd::bits::lemma_u32_low_bits_mask_is_mod(address, 2);
    vstd::arithmetic::power2::lemma2_to64();
    assert(vstd::bits::low_bits_mask(2) == 3);
    let value = if bit_of(opcode, 22) {
        raw
    } else {
        load_word_spec(raw, address)
    };
    let t0 = if bit_of(opcode, 20) {
        s.with_reg(rd, value)
    } else {
        s
    };
    crate::arm7tdmi::arm::data_proc::lemma_with_reg_effect(s, rd, value);
    assert(t0.valid());
    crate::arm7tdmi::arm::data_proc::lemma_with_reg_effect(t0, rn, indexed);
}

} // verus!
