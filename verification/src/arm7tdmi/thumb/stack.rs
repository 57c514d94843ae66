//! Thumb formats 13-15: SP adjustment, PUSH/POP and STMIA/LDMIA.
use vstd::prelude::*;
use crate::arm7tdmi::arm::{load_word_spec, popcount, popcount_spec, ExecutionResult};
use crate::arm7tdmi::psr::bit_of;
use crate::arm7tdmi::reg::reg_slot;
use crate::arm7tdmi::thumb::{
    visible_pc_spec, load_word, low_reg, low_reg_at, store_word, tbit, thumb_bit, visible_pc, write_exec_reg,
    write_exec_spec,
};
use crate::arm7tdmi::{
    access_address, access_value, access_done, accesses_done, lemma_accesses_none, lemma_accesses_one, lemma_accesses_push,
    word_at, Arm7tdmi, BusAccess, BusInterface, CpuView, LR, PC, SP,
};

verus! {

pub open spec fn is_stack_spec(opcode: u16) -> bool {
    opcode & 0xff00 == 0xb000 || opcode & 0xf600 == 0xb400 || opcode & 0xf000 == 0xc000
}

pub fn is_stack(opcode: u16) -> (r: bool)
    ensures
        r == is_stack_spec(opcode),
{
    (opcode & 0xff00) == 0xb000 || (opcode & 0xf600) == 0xb400 || (opcode & 0xf000) == 0xc000
}

/// Loads into the listed low registers among the first `n`: the k-th listed
/// register takes `vals[k]`.
pub open spec fn low_fold(s: CpuView, reglist: u32, vals: Seq<u32>, n: nat) -> CpuView
    decreases n,
{
    if n == 0 {
        s
    } else {
        let t = low_fold(s, reglist, vals, (n - 1) as nat);
        if bit_of(reglist, (n - 1) as u32) {
            t.with_reg((n - 1) as u8, vals[popcount_spec(reglist, (n - 1) as nat) as int])
        } else {
            t
        }
    }
}

proof fn lemma_low_fold_prefix(s: CpuView, reglist: u32, vals: Seq<u32>, v: u32, n: nat)
    requires
        popcount_spec(reglist, n) <= vals.len(),
    ensures
        low_fold(s, reglist, vals.push(v), n) == low_fold(s, reglist, vals, n),
    decreases n,
{
    if n > 0 {
        lemma_low_fold_prefix(s, reglist, vals, v, (n - 1) as nat);
    }
}

proof fn lemma_low_fold_valid(s: CpuView, reglist: u32, vals: Seq<u32>, n: nat)
    requires
        s.valid(),
        n <= 8,
    ensures
        low_fold(s, reglist, vals, n).valid(),
        low_fold(s, reglist, vals, n).cpsr == s.cpsr,
    decreases n,
{
    if n > 0 {
        lemma_low_fold_valid(s, reglist, vals, (n - 1) as nat);
    }
}

/// Number of words PUSH/POP transfers: the listed low registers, plus LR or
/// PC with bit 8.
pub open spec fn push_pop_count(opcode: u16) -> nat {
    popcount_spec((opcode & 0xff) as u32, 8) + if tbit(opcode, 8) {
        1nat
    } else {
        0nat
    }
}

/// Format 13: ADD SP, #+/-imm.
pub open spec fn add_sp_spec(s: CpuView, opcode: u16) -> CpuView {
    let offset = ((opcode & 0x7f) as u32) << 2u32;
    s.with_reg(
        SP,
        if tbit(opcode, 7) {
            s.reg(SP).wrapping_sub(offset)
        } else {
            s.reg(SP).wrapping_add(offset)
        },
    )
}

/// POP whose successive reads returned `vals`: the listed low registers in
/// ascending order, then PC with bit 8; SP moves up four bytes per word.
pub open spec fn pop_spec(s: CpuView, opcode: u16, vals: Seq<u32>) -> (CpuView, ExecutionResult) {
    let reglist = (opcode & 0xff) as u32;
    let count = push_pop_count(opcode);
    let t = low_fold(s, reglist, vals, 8);
    let (t2, wrote) = if tbit(opcode, 8) {
        write_exec_spec(t, PC, vals[count - 1])
    } else {
        (t, false)
    };
    (
        t2.with_reg(SP, ((s.reg(SP) as int + 4 * count) % 0x1_0000_0000) as u32),
        ExecutionResult { cycles: (count + 1) as u32, wrote_pc: wrote },
    )
}

/// PUSH: SP moves down four bytes per word; no register changes otherwise.
pub open spec fn push_spec(s: CpuView, opcode: u16) -> CpuView {
    s.with_reg(SP, ((s.reg(SP) as int - 4 * push_pop_count(opcode) + 0x1_0000_0000) % 0x1_0000_0000) as u32)
}

/// STMIA/LDMIA with a non-empty list whose loads returned `vals`: the
/// listed registers take them (loads), then the base moves up four bytes
/// per register.
pub open spec fn multiple_spec(s: CpuView, opcode: u16, vals: Seq<u32>) -> CpuView {
    let rb = low_reg(opcode, 8);
    let reglist = (opcode & 0xff) as u32;
    let count = popcount_spec(reglist, 8);
    let t = if tbit(opcode, 11) {
        low_fold(s, reglist, vals, 8)
    } else {
        s
    };
    t.with_reg(rb, ((s.reg(rb) as int + 4 * count) % 0x1_0000_0000) as u32)
}

/// STMIA/LDMIA with an empty list: the base moves up 0x40; a load puts the
/// word read (`raw`) in PC.
pub open spec fn multiple_empty_spec(s: CpuView, opcode: u16, raw: u32) -> (CpuView, ExecutionResult) {
    let rb = low_reg(opcode, 8);
    let t = s.with_reg(rb, s.reg(rb).wrapping_add(0x40));
    if tbit(opcode, 11) {
        let (t2, wrote) = write_exec_spec(t, PC, load_word_spec(raw, s.reg(rb)));
        (t2, ExecutionResult { cycles: 3, wrote_pc: wrote })
    } else {
        (t, ExecutionResult::sequential_spec(2))
    }
}

/// The effect of a format 13-15 instruction, given what its reads returned.
pub open spec fn thumb_stack_spec(s: CpuView, opcode: u16, vals: Seq<u32>) -> (CpuView, ExecutionResult) {
    if opcode & 0xff00 == 0xb000 {
        (add_sp_spec(s, opcode), ExecutionResult::sequential_spec(1))
    } else if opcode & 0xf600 == 0xb400 {
        let count = push_pop_count(opcode);
        if count == 0 {
            (s, ExecutionResult::sequential_spec(1))
        } else if tbit(opcode, 11) {
            pop_spec(s, opcode, vals)
        } else {
            (push_spec(s, opcode), ExecutionResult::sequential_spec((count + 1) as u32))
        }
    } else {
        let count = popcount_spec((opcode & 0xff) as u32, 8);
        if count == 0 {
            multiple_empty_spec(s, opcode, vals[0])
        } else {
            (multiple_spec(s, opcode, vals), ExecutionResult::sequential_spec((count + 1) as u32))
        }
    }
}

/// The reads for the listed low registers among the first `n`: the k-th
/// listed one reads the (aligned) word `k` words above `start`, which
/// returned `raws[k]`.
pub open spec fn low_reads(reglist: u32, start: u32, raws: Seq<u32>, n: nat) -> Seq<BusAccess>
    decreases n,
{
    if n == 0 {
        Seq::empty()
    } else {
        let prev = low_reads(reglist, start, raws, (n - 1) as nat);
        if bit_of(reglist, (n - 1) as u32) {
            let k = popcount_spec(reglist, (n - 1) as nat) as int;
            prev.push(BusAccess::Read32(word_at(start, k) & !3u32, raws[k]))
        } else {
            prev
        }
    }
}

/// The writes for the listed low registers among the first `n`: the k-th
/// listed one goes to the (aligned) word `k` words above `start`; register
/// `base_reg`, when listed but not first, stores `new_base` in place of
/// its value.
pub open spec fn low_writes(
    s: CpuView,
    reglist: u32,
    start: u32,
    base_reg: int,
    new_base: u32,
    n: nat,
) -> Seq<BusAccess>
    decreases n,
{
    if n == 0 {
        Seq::empty()
    } else {
        let prev = low_writes(s, reglist, start, base_reg, new_base, (n - 1) as nat);
        let reg = n - 1;
        if bit_of(reglist, reg as u32) {
            let k = popcount_spec(reglist, reg as nat) as int;
            let v = if reg == base_reg && k != 0 {
                new_base
            } else {
                s.reg(reg as u8)
            };
            prev.push(BusAccess::Write32(word_at(start, k) & !3u32, v))
        } else {
            prev
        }
    }
}

/// Whether loaded words `vals` are the reads `raws`, each rotated for its
/// address `k` words above `start`.
pub open spec fn loaded_words(vals: Seq<u32>, raws: Seq<u32>, start: u32) -> bool {
    &&& vals.len() == raws.len()
    &&& forall|k: int| 0 <= k < vals.len() ==> #[trigger] vals[k] == load_word_spec(raws[k], word_at(start, k))
}

/// The bus accesses of a format 13-15 instruction whose reads returned
/// `raws`: POP reads the listed registers, then PC, upwards from SP; PUSH
/// writes them, then LR, upwards from the new SP; LDMIA/STMIA read or write
/// the listed registers upwards from the base (an empty list moves one word:
/// PC, or the address of the instruction plus 6).
pub open spec fn thumb_stack_access(s: CpuView, opcode: u16, fetch_pc: u32, raws: Seq<u32>) -> Seq<BusAccess> {
    let reglist = (opcode & 0xff) as u32;
    let listed = popcount_spec(reglist, 8) as int;
    if opcode & 0xff00 == 0xb000 {
        Seq::empty()
    } else if opcode & 0xf600 == 0xb400 {
        let count = push_pop_count(opcode);
        let sp = s.reg(SP);
        if count == 0 {
            Seq::empty()
        } else if tbit(opcode, 11) {
            let reads = low_reads(reglist, sp, raws, 8);
            if tbit(opcode, 8) {
                reads.push(BusAccess::Read32(word_at(sp, listed) & !3u32, raws[listed]))
            } else {
                reads
            }
        } else {
            let start = ((sp as int - 4 * count + 0x1_0000_0000) % 0x1_0000_0000) as u32;
            let writes = low_writes(s, reglist, start, 8, 0, 8);
            if tbit(opcode, 8) {
                writes.push(BusAccess::Write32(word_at(start, listed) & !3u32, s.reg(LR)))
            } else {
                writes
            }
        }
    } else {
        let rb = low_reg(opcode, 8);
        let base = s.reg(rb);
        if listed == 0 {
            if tbit(opcode, 11) {
                seq![BusAccess::Read32(base & !3u32, raws[0])]
            } else {
                seq![BusAccess::Write32(base & !3u32, visible_pc_spec(fetch_pc).wrapping_add(2))]
            }
        } else if tbit(opcode, 11) {
            low_reads(reglist, base, raws, 8)
        } else {
            low_writes(s, reglist, base, rb as int, word_at(base, listed), 8)
        }
    }
}

/// The bus side of a format 13-15 instruction: its accesses took the bus
/// from `b` to `b2`, and the loaded words `vals` are its reads `raws`
/// rotated for their addresses.
pub open spec fn thumb_stack_bus<B: BusInterface>(
    s: CpuView,
    opcode: u16,
    fetch_pc: u32,
    vals: Seq<u32>,
    raws: Seq<u32>,
    b: B,
    b2: B,
) -> bool {
    let reglist = (opcode & 0xff) as u32;
    &&& accesses_done(b, b2, thumb_stack_access(s, opcode, fetch_pc, raws))
    &&& opcode & 0xf600 == 0xb400 && tbit(opcode, 11) ==> loaded_words(vals, raws, s.reg(SP))
    &&& opcode & 0xf000 == 0xc000 && tbit(opcode, 11) ==> if popcount_spec(reglist, 8) == 0 {
        vals == raws && vals.len() == 1
    } else {
        loaded_words(vals, raws, s.reg(low_reg(opcode, 8)))
    }
}

/// The three format groups are told apart by their top bits; the SP
/// offset field moved into place is four times the field.
proof fn lemma_stack_formats(opcode: u16)
    by (bit_vector)
    ensures
        opcode & 0xff00 == 0xb000 ==> opcode & 0xf600 != 0xb400 && opcode & 0xf000 != 0xc000,
        opcode & 0xf600 == 0xb400 ==> opcode & 0xff00 != 0xb000 && opcode & 0xf000 != 0xc000,
        opcode & 0xf000 == 0xc000 ==> opcode & 0xf600 != 0xb400 && opcode & 0xff00 != 0xb000,
        (((opcode & 0x7f) as u32) << 2u32) == ((opcode as u32) % 128) * 4,
{
}

/// The reads and writes for the listed registers among the first `n`
/// number as many as those registers.
proof fn lemma_low_lens(s: CpuView, reglist: u32, start: u32, raws: Seq<u32>, n: nat)
    ensures
        low_writes(s, reglist, start, 8, 0, n).len() == popcount_spec(reglist, n),
        low_reads(reglist, start, raws, n).len() == popcount_spec(reglist, n),
    decreases n,
{
    if n > 0 {
        lemma_low_lens(s, reglist, start, raws, (n - 1) as nat);
    }
}

/// Within the low registers, a PUSH followed by a POP of the same list
/// reads the words back from where they were written, in the same order;
/// when each word read is the word written, every listed register gets its
/// value back. Registers outside the list, SP and the CPSR are as before the
/// POP's loads.
proof fn lemma_low_round_trip(
    s: CpuView,
    t1: CpuView,
    reglist: u32,
    start: u32,
    raws: Seq<u32>,
    vals: Seq<u32>,
    n: nat,
)
    requires
        s.valid(),
        t1.valid(),
        t1.cpsr == s.cpsr,
        forall|r: u8| r < 8 ==> #[trigger] t1.reg(r) == s.reg(r),
        n <= 8,
        vals.len() >= popcount_spec(reglist, n),
        forall|k: int|
            0 <= k < popcount_spec(reglist, n) ==> vals[k] == access_value(
                #[trigger] low_writes(s, reglist, start, 8, 0, n)[k],
            ),
    ensures
        low_writes(s, reglist, start, 8, 0, n).len() == popcount_spec(reglist, n),
        low_reads(reglist, start, raws, n).len() == popcount_spec(reglist, n),
        forall|k: int|
            0 <= k < popcount_spec(reglist, n) ==> access_address(
                #[trigger] low_reads(reglist, start, raws, n)[k],
            ) == access_address(low_writes(s, reglist, start, 8, 0, n)[k]),
        forall|r: u8| r < 8 ==> #[trigger] low_fold(t1, reglist, vals, n).reg(r) == s.reg(r),
        low_fold(t1, reglist, vals, n).reg(SP) == t1.reg(SP),
        low_fold(t1, reglist, vals, n).cpsr == t1.cpsr,
    decreases n,
{
    lemma_low_lens(s, reglist, start, raws, n);
    if n > 0 {
        let m = (n - 1) as nat;
        let w = low_writes(s, reglist, start, 8, 0, m);
        crate::arm7tdmi::arm::lemma_popcount_bound(reglist, m);
        lemma_low_lens(s, reglist, start, raws, m);
        assert forall|k: int| 0 <= k < popcount_spec(reglist, m) implies vals[k] == access_value(
            #[trigger] low_writes(s, reglist, start, 8, 0, m)[k],
        ) by {
            assert(low_writes(s, reglist, start, 8, 0, n)[k] == w[k]);
        }
        lemma_low_round_trip(s, t1, reglist, start, raws, vals, m);
        let prev = low_fold(t1, reglist, vals, m);
        lemma_low_fold_valid(t1, reglist, vals, m);
        assert(prev.reg(SP) == t1.reg(SP) && prev.cpsr == t1.cpsr && prev.valid());
        crate::arm7tdmi::reg::lemma_reg_slot_in_range(prev.mode(), SP);
        if bit_of(reglist, m as u32) {
            let k = popcount_spec(reglist, m) as int;
            assert(reg_slot(prev.mode(), SP) != reg_slot(prev.mode(), m as u8));
            assert(low_writes(s, reglist, start, 8, 0, n)[k] == BusAccess::Write32(
                word_at(start, k) & !3u32,
                s.reg(m as u8),
            ));
            assert(vals[k] == s.reg(m as u8));
            assert forall|r: u8| r < 8 implies #[trigger] low_fold(t1, reglist, vals, n).reg(r) == s.reg(r) by {
                assert(prev.reg(r) == s.reg(r));
                assert(r != m ==> reg_slot(prev.mode(), r) != reg_slot(prev.mode(), m as u8));
                crate::arm7tdmi::reg::lemma_reg_slot_in_range(prev.mode(), r);
            }
            assert forall|j: int| 0 <= j < popcount_spec(reglist, n) implies access_address(
                #[trigger] low_reads(reglist, start, raws, n)[j],
            ) == access_address(low_writes(s, reglist, start, 8, 0, n)[j]) by {
                if j < k {
                    assert(low_reads(reglist, start, raws, n)[j] == low_reads(reglist, start, raws, m)[j]);
                    assert(low_writes(s, reglist, start, 8, 0, n)[j] == w[j]);
                }
            }
        } else {
            assert forall|r: u8| r < 8 implies #[trigger] low_fold(t1, reglist, vals, n).reg(r) == s.reg(r) by {
                assert(prev.reg(r) == s.reg(r));
            }
        }
    }
}

/// The words a run of accesses reads or writes, in order.
pub open spec fn access_values(a: Seq<BusAccess>) -> Seq<u32> {
    a.map_values(|x: BusAccess| access_value(x))
}

/// PUSH {R, LR} then POP {R, PC} with the same low-register list R, from a
/// word-aligned SP: POP reads its words from exactly the addresses PUSH
/// wrote them to, in the same order; when each word read is the word PUSH
/// wrote there (the stack untouched in between), every register of R gets
/// its value back, SP returns where it was, the PC takes the old LR with bit
/// 0 cleared, POP reports that it wrote the PC, and the CPSR is unchanged.
pub proof fn lemma_push_pop_round_trip<B: BusInterface>(
    s: CpuView,
    push: u16,
    fetch_pc: u32,
    push_vals: Seq<u32>,
    push_raws: Seq<u32>,
    b0: B,
    b1: B,
    pop_vals: Seq<u32>,
    pop_raws: Seq<u32>,
    b2: B,
)
    requires
        s.valid(),
        push & 0xf600 == 0xb400,
        !tbit(push, 11),
        tbit(push, 8),
        s.reg(SP) % 4 == 0,
        thumb_stack_bus(s, push, fetch_pc, push_vals, push_raws, b0, b1),
        thumb_stack_bus(
            thumb_stack_spec(s, push, push_vals).0,
            push | 0x0800,
            fetch_pc,
            pop_vals,
            pop_raws,
            b1,
            b2,
        ),
        pop_raws == access_values(thumb_stack_access(s, push, fetch_pc, push_raws)),
    ensures
        ({
            let (t1, _) = thumb_stack_spec(s, push, push_vals);
            let (t2, r2) = thumb_stack_spec(t1, push | 0x0800, pop_vals);
            let written = thumb_stack_access(s, push, fetch_pc, push_raws);
            let read = thumb_stack_access(t1, push | 0x0800, fetch_pc, pop_raws);
            &&& read.len() == written.len()
            &&& forall|k: int|
                0 <= k < read.len() ==> access_address(#[trigger] read[k]) == access_address(written[k])
            &&& forall|r: u8| r < 8 && bit_of((push & 0xff) as u32, r as u32) ==> #[trigger] t2.reg(r) == s.reg(r)
            &&& t2.reg(SP) == s.reg(SP)
            &&& t2.reg(PC) == s.reg(LR) & !1u32
            &&& r2.wrote_pc
            &&& t2.cpsr == s.cpsr
        }),
{
    let pop = push | 0x0800;
    lemma_round_trip_bits(push, pop, s.reg(SP));
    lemma_stack_formats(push);
    lemma_stack_formats(pop);
    let reglist = (push & 0xff) as u32;
    let listed = popcount_spec(reglist, 8);
    crate::arm7tdmi::arm::lemma_popcount_bound(reglist, 8);
    let count = push_pop_count(push);
    assert(count == listed + 1);
    let sp = s.reg(SP);
    let start = ((sp as int - 4 * count + 0x1_0000_0000) % 0x1_0000_0000) as u32;
    let t1 = push_spec(s, push);
    assert(thumb_stack_spec(s, push, push_vals).0 == t1);
    assert(t1 == s.with_reg(SP, start));
    assert(t1.reg(SP) == start);
    assert(start % 4 == 0);
    lemma_round_trip_bits(push, pop, start);
    let writes = low_writes(s, reglist, start, 8, 0, 8);
    lemma_low_lens(s, reglist, start, pop_raws, 8);
    let written = thumb_stack_access(s, push, fetch_pc, push_raws);
    assert(written == writes.push(BusAccess::Write32(word_at(start, listed as int) & !3u32, s.reg(LR))));
    // the loaded words are the words read, every address being aligned
    assert(loaded_words(pop_vals, pop_raws, start));
    assert forall|k: int| 0 <= k < pop_vals.len() implies #[trigger] pop_vals[k] == pop_raws[k] by {
        lemma_word_at_aligned(start, k);
        assert(pop_vals[k] == load_word_spec(pop_raws[k], word_at(start, k)));
    }
    assert(t1.valid());
    assert forall|r: u8| r < 8 implies #[trigger] t1.reg(r) == s.reg(r) by {}
    lemma_low_round_trip(s, t1, reglist, start, pop_raws, pop_vals, 8);
    let reads = low_reads(reglist, start, pop_raws, 8);
    let read = thumb_stack_access(t1, pop, fetch_pc, pop_raws);
    assert(read == reads.push(BusAccess::Read32(word_at(start, listed as int) & !3u32, pop_raws[listed as int])));
    assert(pop_raws.len() == written.len());
    assert(pop_vals[listed as int] == s.reg(LR)) by {
        assert(written[listed as int] == BusAccess::Write32(word_at(start, listed as int) & !3u32, s.reg(LR)));
    }
    let t = low_fold(t1, reglist, pop_vals, 8);
    lemma_low_fold_valid(t1, reglist, pop_vals, 8);
    assert(pop_spec(t1, pop, pop_vals).0 == t.with_reg(PC, s.reg(LR) & !1u32).with_reg(
        SP,
        ((start as int + 4 * count) % 0x1_0000_0000) as u32,
    ));
    assert(((start as int + 4 * count) % 0x1_0000_0000) as u32 == sp);
    let t2 = pop_spec(t1, pop, pop_vals).0;
    assert forall|r: u8| r < 8 implies #[trigger] t2.reg(r) == s.reg(r) by {
        assert(t.reg(r) == s.reg(r));
        crate::arm7tdmi::reg::lemma_reg_slot_in_range(t.mode(), r);
        crate::arm7tdmi::reg::lemma_reg_slot_in_range(t.mode(), PC);
        crate::arm7tdmi::reg::lemma_reg_slot_in_range(t.mode(), SP);
        assert(reg_slot(t.mode(), r) != reg_slot(t.mode(), PC));
        assert(reg_slot(t.mode(), r) != reg_slot(t.mode(), SP));
    }
    assert forall|k: int| 0 <= k < read.len() implies access_address(#[trigger] read[k]) == access_address(
        written[k],
    ) by {
        if k < listed {
            assert(read[k] == reads[k]);
            assert(written[k] == writes[k]);
        }
    }
}

/// Bit facts the PUSH/POP round trip needs: the POP encoding of a PUSH
/// keeps its list and LR/PC bit, and a word-aligned address has its low two
/// bits clear.
proof fn lemma_round_trip_bits(push: u16, pop: u16, x: u32)
    by (bit_vector)
    ensures
        push & 0xf600 == 0xb400 && pop == push | 0x0800 ==> pop & 0xf600 == 0xb400 && pop & 0xff
            == push & 0xff && (pop >> 8u16) & 1 == (push >> 8u16) & 1 && (pop >> 11u16) & 1 == 1,
        x % 4 == 0 ==> x & 3 == 0,
{
}

/// Every word `k` words above a word-aligned address is word-aligned.
proof fn lemma_word_at_aligned(start: u32, k: int)
    requires
        start % 4 == 0,
    ensures
        word_at(start, k) % 4 == 0,
        word_at(start, k) & 3 == 0,
{
    let x = start as int + 4 * k;
    assert(x % 4 == 0) by {
        vstd::arithmetic::div_mod::lemma_mod_multiples_basic(k, 4);
        vstd::arithmetic::div_mod::lemma_add_mod_noop(start as int, 4 * k, 4);
    }
    vstd::arithmetic::div_mod::lemma_mod_mod(x, 4, 0x4000_0000);
    assert(0x1_0000_0000int == 4 * 0x4000_0000);
    lemma_round_trip_bits(0, 0, word_at(start, k));
}

proof fn lemma_low_reads_prefix(reglist: u32, start: u32, raws: Seq<u32>, v: u32, n: nat)
    requires
        popcount_spec(reglist, n) <= raws.len(),
    ensures
        low_reads(reglist, start, raws.push(v), n) == low_reads(reglist, start, raws, n),
    decreases n,
{
    if n > 0 {
        crate::arm7tdmi::arm::lemma_popcount_bound(reglist, (n - 1) as nat);
        lemma_low_reads_prefix(reglist, start, raws, v, (n - 1) as nat);
    }
}

/// No listed register lies below the first one, and every later listed
/// register has one below it.
proof fn lemma_popcount_first(reglist: u32, first: nat, n: nat)
    requires
        forall|j: u32| j < first ==> !bit_of(reglist, j),
        first < 8,
        bit_of(reglist, first as u32),
        n <= 8,
    ensures
        n <= first ==> popcount_spec(reglist, n) == 0,
        n > first ==> popcount_spec(reglist, n) >= 1,
    decreases n,
{
    if n > 0 {
        lemma_popcount_first(reglist, first, (n - 1) as nat);
        if n - 1 < first {
            assert(!bit_of(reglist, (n - 1) as u32));
        }
    }
}

pub fn execute<B: BusInterface>(cpu: &mut Arm7tdmi, bus: &mut B, opcode: u16, fetch_pc: u32) -> (r:
    ExecutionResult)
    requires
        old(cpu)@.valid(),
        is_stack_spec(opcode),
    ensures
        final(cpu)@.valid(),
        exists|vals: Seq<u32>, raws: Seq<u32>|
            #[trigger] thumb_stack_spec(old(cpu)@, opcode, vals) == (final(cpu)@, r) && #[trigger] thumb_stack_bus(
                old(cpu)@,
                opcode,
                fetch_pc,
                vals,
                raws,
                *old(bus),
                *final(bus),
            ),
        r.cycles >= 1,
{
    if (opcode & 0xff00) == 0xb000 {
        let r = execute_add_sp(cpu, opcode);
        proof {
            lemma_stack_formats(opcode);
            lemma_accesses_none(*bus);
            assert(thumb_stack_spec(old(cpu)@, opcode, Seq::empty()) == (cpu@, r));
            assert(thumb_stack_bus(old(cpu)@, opcode, fetch_pc, Seq::empty(), Seq::empty(), *bus, *bus));
        }
        r
    } else if (opcode & 0xf600) == 0xb400 {
        proof {
            lemma_stack_formats(opcode);
        }
        let ghost s0 = cpu@;
        let ghost b0 = *bus;
        let r = execute_push_pop(cpu, bus, opcode);
        proof {
            let (vals, raws) = choose|vals: Seq<u32>, raws: Seq<u32>|
                #[trigger] thumb_stack_spec(s0, opcode, vals) == (cpu@, r) && #[trigger] thumb_stack_bus(
                    s0,
                    opcode,
                    0,
                    vals,
                    raws,
                    b0,
                    *bus,
                );
            assert(thumb_stack_access(s0, opcode, 0, raws) == thumb_stack_access(s0, opcode, fetch_pc, raws));
            assert(thumb_stack_bus(s0, opcode, fetch_pc, vals, raws, b0, *bus));
        }
        r
    } else {
        proof {
            lemma_stack_formats(opcode);
        }
        execute_multiple(cpu, bus, opcode, fetch_pc)
    }
}

fn execute_add_sp(cpu: &mut Arm7tdmi, opcode: u16) -> (r: ExecutionResult)
    requires
        old(cpu)@.valid(),
    ensures
        final(cpu)@.valid(),
        final(cpu)@ == add_sp_spec(old(cpu)@, opcode),
        r == ExecutionResult::sequential_spec(1),
{
    let subtract = thumb_bit(opcode, 7);
    let offset = ((opcode & 0x7f) as u32) << 2u32;
    let sp = cpu.sp();
    cpu.set_sp(
        if subtract {
            sp.wrapping_sub(offset)
        } else {
            sp.wrapping_add(offset)
        },
    );
    ExecutionResult::sequential(1)
}

fn execute_push_pop<B: BusInterface>(cpu: &mut Arm7tdmi, bus: &mut B, opcode: u16) -> (r: ExecutionResult)
    requires
        old(cpu)@.valid(),
        opcode & 0xf600 == 0xb400,
    ensures
        final(cpu)@.valid(),
        exists|vals: Seq<u32>, raws: Seq<u32>|
            #[trigger] thumb_stack_spec(old(cpu)@, opcode, vals) == (final(cpu)@, r) && #[trigger] thumb_stack_bus(
                old(cpu)@,
                opcode,
                0,
                vals,
                raws,
                *old(bus),
                *final(bus),
            ),
        r.cycles >= 1,
{
    proof {
        lemma_stack_formats(opcode);
    }
    let ghost s0 = cpu@;
    let ghost b0 = *bus;
    let pop = thumb_bit(opcode, 11);
    let include_special = thumb_bit(opcode, 8);
    let reglist = (opcode & 0xff) as u32;
    let listed = popcount(reglist, 8);
    proof {
        crate::arm7tdmi::arm::lemma_popcount_bound(reglist, 8);
    }
    let count = listed + if include_special {
        1u32
    } else {
        0u32
    };
    if count == 0 {
        let r = ExecutionResult::sequential(1);
        proof {
            lemma_accesses_none(b0);
            assert(thumb_stack_spec(s0, opcode, Seq::empty()) == (cpu@, r));
            assert(thumb_stack_bus(s0, opcode, 0, Seq::empty(), Seq::empty(), b0, *bus));
        }
        return r;
    }
    if pop {
        let sp = cpu.sp();
        let mut address = sp;
        let mut wrote_pc = false;
        let ghost mut vals: Seq<u32> = Seq::empty();
        let ghost mut raws: Seq<u32> = Seq::empty();
        proof {
            lemma_accesses_none(b0);
        }
        let mut reg: u8 = 0;
        while reg < 8
            invariant
                0 <= reg <= 8,
                s0.valid(),
                sp == s0.reg(SP),
                reglist == (opcode & 0xff) as u32,
                vals.len() == popcount_spec(reglist, reg as nat),
                address == word_at(sp, vals.len() as int),
                cpu@ == low_fold(s0, reglist, vals, reg as nat),
                cpu@.valid(),
                loaded_words(vals, raws, sp),
                accesses_done(b0, *bus, low_reads(reglist, sp, raws, reg as nat)),
            decreases 8 - reg,
        {
            proof {
                crate::arm7tdmi::arm::lemma_popcount_bound(reglist, reg as nat);
            }
            if crate::arm7tdmi::arm::opcode_bit(reglist, reg as u32) {
                let ghost bprev = *bus;
                let ghost old_raws = raws;
                let (raw, value) = load_word(bus, address);
                proof {
                    lemma_low_fold_prefix(s0, reglist, vals, value, reg as nat);
                    lemma_low_reads_prefix(reglist, sp, raws, raw, reg as nat);
                    let k = vals.len() as int;
                    lemma_accesses_push(
                        b0,
                        bprev,
                        *bus,
                        low_reads(reglist, sp, raws, reg as nat),
                        BusAccess::Read32(word_at(sp, k) & !3u32, raw),
                    );
                    vals = vals.push(value);
                    raws = raws.push(raw);
                    assert(raws[k] == raw);
                    assert(low_reads(reglist, sp, raws, (reg + 1) as nat) == low_reads(
                        reglist,
                        sp,
                        old_raws,
                        reg as nat,
                    ).push(BusAccess::Read32(word_at(sp, k) & !3u32, raw)));
                    assert forall|m: int| 0 <= m < vals.len() implies #[trigger] vals[m] == load_word_spec(
                        raws[m],
                        word_at(sp, m),
                    ) by {}
                }
                cpu.write_reg(reg, value);
                address = address.wrapping_add(4);
            }
            reg = reg + 1;
        }
        if include_special {
            let ghost bprev = *bus;
            let (raw, value) = load_word(bus, address);
            proof {
                lemma_low_fold_prefix(s0, reglist, vals, value, 8);
                let k = vals.len() as int;
                lemma_accesses_push(
                    b0,
                    bprev,
                    *bus,
                    low_reads(reglist, sp, raws, 8),
                    BusAccess::Read32(word_at(sp, k) & !3u32, raw),
                );
                lemma_low_reads_prefix(reglist, sp, raws, raw, 8);
                vals = vals.push(value);
                raws = raws.push(raw);
                assert forall|m: int| 0 <= m < vals.len() implies #[trigger] vals[m] == load_word_spec(
                    raws[m],
                    word_at(sp, m),
                ) by {}
            }
            wrote_pc = write_exec_reg(cpu, PC, value);
            address = address.wrapping_add(4);
        }
        cpu.set_sp(address);
        let r = ExecutionResult { cycles: count + 1, wrote_pc };
        assert(thumb_stack_spec(s0, opcode, vals) == (cpu@, r));
        assert(thumb_stack_bus(s0, opcode, 0, vals, raws, b0, *bus));
        r
    } else {
        let start = cpu.sp().wrapping_sub(count * 4);
        let mut address = start;
        let ghost mut k: int = 0;
        proof {
            lemma_accesses_none(b0);
        }
        let mut reg: u8 = 0;
        while reg < 8
            invariant
                0 <= reg <= 8,
                cpu@ == s0,
                s0.valid(),
                reglist == (opcode & 0xff) as u32,
                k == popcount_spec(reglist, reg as nat),
                address == word_at(start, k),
                accesses_done(b0, *bus, low_writes(s0, reglist, start, 8, 0, reg as nat)),
            decreases 8 - reg,
        {
            if crate::arm7tdmi::arm::opcode_bit(reglist, reg as u32) {
                let ghost bprev = *bus;
                let value = cpu.read_reg(reg);
                store_word(bus, address, value);
                proof {
                    lemma_accesses_push(
                        b0,
                        bprev,
                        *bus,
                        low_writes(s0, reglist, start, 8, 0, reg as nat),
                        BusAccess::Write32(word_at(start, k) & !3u32, value),
                    );
                    k = k + 1;
                }
                address = address.wrapping_add(4);
            }
            reg = reg + 1;
        }
        if include_special {
            let ghost bprev = *bus;
            let value = cpu.read_reg(LR);
            store_word(bus, address, value);
            proof {
                lemma_accesses_push(
                    b0,
                    bprev,
                    *bus,
                    low_writes(s0, reglist, start, 8, 0, 8),
                    BusAccess::Write32(word_at(start, k) & !3u32, value),
                );
            }
        }
        cpu.set_sp(start);
        let r = ExecutionResult::sequential(count + 1);
        assert(thumb_stack_spec(s0, opcode, Seq::empty()) == (cpu@, r));
        assert(thumb_stack_bus(s0, opcode, 0, Seq::empty(), Seq::empty(), b0, *bus));
        r
    }
}

/// The lowest listed register of a non-empty 8-bit list (8 when empty).
fn first_listed(reglist: u32) -> (r: u8)
    ensures
        r <= 8,
        r < 8 ==> bit_of(reglist, r as u32),
        forall|j: u32| j < r ==> !bit_of(reglist, j),
{
    let mut i: u8 = 0;
    while i < 8
        invariant
            i <= 8,
            forall|j: u32| j < i ==> !bit_of(reglist, j),
        decreases 8 - i,
    {
        if crate::arm7tdmi::arm::opcode_bit(reglist, i as u32) {
            return i;
        }
        i = i + 1;
    }
    8
}

fn execute_multiple<B: BusInterface>(cpu: &mut Arm7tdmi, bus: &mut B, opcode: u16, fetch_pc: u32) -> (r:
    ExecutionResult)
    requires
        old(cpu)@.valid(),
        opcode & 0xf000 == 0xc000,
        opcode & 0xf600 != 0xb400,
        opcode & 0xff00 != 0xb000,
    ensures
        final(cpu)@.valid(),
        exists|vals: Seq<u32>, raws: Seq<u32>|
            #[trigger] thumb_stack_spec(old(cpu)@, opcode, vals) == (final(cpu)@, r) && #[trigger] thumb_stack_bus(
                old(cpu)@,
                opcode,
                fetch_pc,
                vals,
                raws,
                *old(bus),
                *final(bus),
            ),
        r.cycles >= 1,
{
    let ghost s0 = cpu@;
    let ghost b0 = *bus;
    let load = thumb_bit(opcode, 11);
    let rb = low_reg_at(opcode, 8);
    let reglist = (opcode & 0xff) as u32;
    let count = popcount(reglist, 8);
    let base = cpu.read_reg(rb);

    if count == 0 {
        let final_base = base.wrapping_add(0x40);
        if load {
            let (raw, value) = load_word(bus, base);
            proof {
                lemma_accesses_one(b0, *bus, BusAccess::Read32(base & !3u32, raw));
                assert(thumb_stack_access(s0, opcode, fetch_pc, seq![raw]) =~= seq![
                    BusAccess::Read32(base & !3u32, raw),
                ]);
            }
            cpu.write_reg(rb, final_base);
            let wrote_pc = write_exec_reg(cpu, PC, value);
            let r = ExecutionResult { cycles: 3, wrote_pc };
            assert(thumb_stack_spec(s0, opcode, seq![raw]) == (cpu@, r));
            assert(thumb_stack_bus(s0, opcode, fetch_pc, seq![raw], seq![raw], b0, *bus));
            return r;
        }
        let value = visible_pc(fetch_pc).wrapping_add(2);
        store_word(bus, base, value);
        proof {
            lemma_accesses_one(b0, *bus, BusAccess::Write32(base & !3u32, value));
            assert(thumb_stack_access(s0, opcode, fetch_pc, seq![0u32]) =~= seq![
                BusAccess::Write32(base & !3u32, value),
            ]);
        }
        cpu.write_reg(rb, final_base);
        let r = ExecutionResult::sequential(2);
        assert(thumb_stack_spec(s0, opcode, seq![0u32]) == (cpu@, r));
        assert(thumb_stack_bus(s0, opcode, fetch_pc, seq![0u32], seq![0u32], b0, *bus));
        return r;
    }

    let mut address = base;
    let final_base = base.wrapping_add(count * 4);
    let ghost mut vals: Seq<u32> = Seq::empty();
    let ghost mut raws: Seq<u32> = Seq::empty();
    proof {
        lemma_accesses_none(b0);
        crate::arm7tdmi::arm::lemma_popcount_bound(reglist, 8);
        assert(final_base == word_at(base, count as int));
    }
    if load {
        let mut reg: u8 = 0;
        while reg < 8
            invariant
                0 <= reg <= 8,
                s0.valid(),
                base == s0.reg(rb),
                reglist == (opcode & 0xff) as u32,
                vals.len() == popcount_spec(reglist, reg as nat),
                address == word_at(base, vals.len() as int),
                cpu@ == low_fold(s0, reglist, vals, reg as nat),
                cpu@.valid(),
                loaded_words(vals, raws, base),
                accesses_done(b0, *bus, low_reads(reglist, base, raws, reg as nat)),
            decreases 8 - reg,
        {
            proof {
                crate::arm7tdmi::arm::lemma_popcount_bound(reglist, reg as nat);
            }
            if crate::arm7tdmi::arm::opcode_bit(reglist, reg as u32) {
                let ghost bprev = *bus;
                let ghost old_raws = raws;
                let (raw, value) = load_word(bus, address);
                proof {
                    lemma_low_fold_prefix(s0, reglist, vals, value, reg as nat);
                    lemma_low_reads_prefix(reglist, base, raws, raw, reg as nat);
                    let k = vals.len() as int;
                    lemma_accesses_push(
                        b0,
                        bprev,
                        *bus,
                        low_reads(reglist, base, raws, reg as nat),
                        BusAccess::Read32(word_at(base, k) & !3u32, raw),
                    );
                    vals = vals.push(value);
                    raws = raws.push(raw);
                    assert(raws[k] == raw);
                    assert(low_reads(reglist, base, raws, (reg + 1) as nat) == low_reads(
                        reglist,
                        base,
                        old_raws,
                        reg as nat,
                    ).push(BusAccess::Read32(word_at(base, k) & !3u32, raw)));
                    assert forall|m: int| 0 <= m < vals.len() implies #[trigger] vals[m] == load_word_spec(
                        raws[m],
                        word_at(base, m),
                    ) by {}
                }
                cpu.write_reg(reg, value);
                address = address.wrapping_add(4);
            }
            reg = reg + 1;
        }
    } else {
        let first_reg = first_listed(reglist);
        let ghost mut k: int = 0;
        let mut reg: u8 = 0;
        while reg < 8
            invariant
                0 <= reg <= 8,
                cpu@ == s0,
                s0.valid(),
                base == s0.reg(rb),
                rb < 8,
                reglist == (opcode & 0xff) as u32,
                first_reg <= 8,
                first_reg < 8 ==> bit_of(reglist, first_reg as u32),
                forall|j: u32| j < first_reg ==> !bit_of(reglist, j),
                final_base == word_at(base, popcount_spec(reglist, 8) as int),
                k == popcount_spec(reglist, reg as nat),
                address == word_at(base, k),
                accesses_done(b0, *bus, low_writes(s0, reglist, base, rb as int, final_base, reg as nat)),
            decreases 8 - reg,
        {
            if crate::arm7tdmi::arm::opcode_bit(reglist, reg as u32) {
                let ghost bprev = *bus;
                proof {
                    if first_reg == 8 {
                        assert(!bit_of(reglist, reg as u32));
                    }
                    lemma_popcount_first(reglist, first_reg as nat, reg as nat);
                }
                let value = if reg == rb && reg != first_reg {
                    final_base
                } else {
                    cpu.read_reg(reg)
                };
                store_word(bus, address, value);
                proof {
                    lemma_accesses_push(
                        b0,
                        bprev,
                        *bus,
                        low_writes(s0, reglist, base, rb as int, final_base, reg as nat),
                        BusAccess::Write32(word_at(base, k) & !3u32, value),
                    );
                    k = k + 1;
                }
                address = address.wrapping_add(4);
            }
            reg = reg + 1;
        }
    }
    cpu.write_reg(rb, final_base);
    let r = ExecutionResult::sequential(count + 1);
    assert(thumb_stack_spec(s0, opcode, vals) == (cpu@, r));
    assert(thumb_stack_bus(s0, opcode, fetch_pc, vals, raws, b0, *bus));
    r
}

/// Format 13, ADD SP: SP moves by four times the 7-bit field (bits 0-6),
/// down when bit 7 is set and up otherwise, wrapping; no other register
/// changes.
#[verifier::spinoff_prover]
#[verifier::rlimit(40)]
pub proof fn lemma_add_sp(s: CpuView, opcode: u16)
    requires
        s.valid(),
    ensures
        ({
            let step = 4 * (opcode as int % 128);
            let sp = s.reg(SP) as int;
            let t = add_sp_spec(s, opcode);
            &&& t.reg(SP) == (if tbit(opcode, 7) { (sp - step + 0x1_0000_0000) % 0x1_0000_0000 } else { (sp + step) % 0x1_0000_0000 })
            &&& forall|r: u8| r < 16 && r != SP ==> #[trigger] t.reg(r) == s.reg(r)
        }),
{
    lemma_stack_formats(opcode);
    let offset = ((opcode & 0x7f) as u32) << 2u32;
    let v = if tbit(opcode, 7) {
        s.reg(SP).wrapping_sub(offset)
    } else {
        s.reg(SP).wrapping_add(offset)
    };
    crate::arm7tdmi::arm::data_proc::lemma_with_reg_effect(s, SP, v);
}

} // verus!
