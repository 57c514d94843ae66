//! The four DMA channels: block copies over the bus, started immediately
//! when enabled or at the start of V-blank or H-blank.
use vstd::prelude::*;

use crate::bus::{lemma_ram_write_read, region, Bus, BusView};
use crate::io::{lemma_halfword_bits, lemma_writes_keep_valid, IoView, IRQ_DMA0, IRQ_DMA1, IRQ_DMA2, IRQ_DMA3};

verus! {

/// The start timing of a control value: 0 immediate, 1 V-blank, 2 H-blank,
/// 3 special (not started here).
pub open spec fn timing_spec(control: u16) -> int {
    (control as int / 0x1000) % 4
}

/// The number of units a channel moves for a count register value; a zero
/// count means the maximum (0x10000 for channel 3, 0x4000 otherwise).
pub open spec fn transfer_units_spec(index: int, count: u16) -> u32 {
    if count != 0 {
        count as u32
    } else if index == 3 {
        0x1_0000
    } else {
        0x4000
    }
}

/// The bytes per unit: four for 32-bit transfers (control bit 10), else two.
pub open spec fn unit_spec(control: u16) -> u32 {
    if control & 0x0400 != 0 {
        4
    } else {
        2
    }
}

/// The source address step (as a two's-complement `u32`): bits 7-8 select
/// increment, decrement, or fixed.
pub open spec fn src_step_spec(control: u16) -> u32 {
    let mode = (control as int / 0x80) % 4;
    let unit = unit_spec(control);
    if mode == 0 {
        unit
    } else if mode == 1 {
        (0x1_0000_0000 - unit) as u32
    } else {
        0
    }
}

/// The destination address step: bits 5-6 select increment (also for
/// increment-and-reload), decrement, or fixed.
pub open spec fn dst_step_spec(control: u16) -> u32 {
    let mode = (control as int / 0x20) % 4;
    let unit = unit_spec(control);
    if mode == 1 {
        (0x1_0000_0000 - unit) as u32
    } else if mode == 2 {
        0
    } else {
        unit
    }
}

/// The interrupt flag of channel `index`.
pub open spec fn dma_irq(index: int) -> u16 {
    if index == 0 {
        IRQ_DMA0
    } else if index == 1 {
        IRQ_DMA1
    } else if index == 2 {
        IRQ_DMA2
    } else {
        IRQ_DMA3
    }
}

/// One unit copied from `src` to `dst`.
pub open spec fn copy_unit(b: BusView, src: u32, dst: u32, word: bool) -> BusView {
    if word {
        b.write32(dst, b.read32(src))
    } else {
        b.write16(dst, b.read16(src))
    }
}

/// `n` units copied one after another, the addresses stepping (wrapping)
/// after each: the bus and the final source and destination addresses.
pub open spec fn copy_units(
    b: BusView,
    src: u32,
    dst: u32,
    src_step: u32,
    dst_step: u32,
    word: bool,
    n: nat,
) -> (BusView, u32, u32)
    decreases n,
{
    if n == 0 {
        (b, src, dst)
    } else {
        copy_units(
            copy_unit(b, src, dst, word),
            src.wrapping_add(src_step),
            dst.wrapping_add(dst_step),
            src_step,
            dst_step,
            word,
            (n - 1) as nat,
        )
    }
}

/// A whole transfer of channel `index`: the units copied from the
/// unit-aligned source and destination, the source register left after the
/// last unit, the destination register likewise unless it reloads, the
/// channel disabled unless it repeats on a blank, and the channel's
/// interrupt requested when enabled.
pub open spec fn run_channel_spec(b: BusView, index: int) -> BusView {
    let control = b.io.dma_control[index];
    let unit = unit_spec(control);
    let source = b.io.dma_source[index];
    let dest = b.io.dma_dest[index];
    let (copied, src, dst) = copy_units(
        b,
        (source - source % unit) as u32,
        (dest - dest % unit) as u32,
        src_step_spec(control),
        dst_step_spec(control),
        unit == 4,
        transfer_units_spec(index, b.io.dma_count[index]) as nat,
    );
    let io1 = IoView { dma_source: copied.io.dma_source.update(index, src), ..copied.io };
    let io2 = if (control as int / 0x20) % 4 == 3 {
        io1
    } else {
        IoView { dma_dest: io1.dma_dest.update(index, dst), ..io1 }
    };
    let io3 = if control & 0x0200 == 0 || timing_spec(control) == 0 {
        IoView { dma_control: io2.dma_control.update(index, (control & !0x8000u16) & 0xf7e0), ..io2 }
    } else {
        io2
    };
    let io4 = if control & 0x4000 != 0 {
        io3.with_interrupt(dma_irq(index))
    } else {
        io3
    };
    BusView { io: io4, ..copied }
}

/// Channel `index` serviced: run if enabled and its start condition holds
/// (just enabled, for immediate timing; the blank just entered, otherwise),
/// then its enable bit remembered.
pub open spec fn service_channel(
    prev: Seq<bool>,
    b: BusView,
    hblank: bool,
    vblank: bool,
    index: int,
) -> (Seq<bool>, BusView) {
    let control = b.io.dma_control[index];
    let timing = timing_spec(control);
    let run = control & 0x8000 != 0 && (if timing == 0 {
        !prev[index]
    } else if timing == 1 {
        vblank
    } else if timing == 2 {
        hblank
    } else {
        false
    });
    let b1 = if run {
        run_channel_spec(b, index)
    } else {
        b
    };
    (prev.update(index, b1.io.dma_control[index] & 0x8000 != 0), b1)
}

/// Channels `index` to 3 serviced in turn.
pub open spec fn service_from(
    prev: Seq<bool>,
    b: BusView,
    hblank: bool,
    vblank: bool,
    index: int,
) -> (Seq<bool>, BusView)
    decreases 4 - index,
{
    if index < 0 || index >= 4 {
        (prev, b)
    } else {
        let (p1, b1) = service_channel(prev, b, hblank, vblank, index);
        service_from(p1, b1, hblank, vblank, index + 1)
    }
}

/// The DMA controller: which channels were enabled when last serviced.
#[derive(Debug, Clone, PartialEq, Eq, Default)]
pub struct DmaController {
    previous_enable: [bool; 4],
}

impl View for DmaController {
    type V = Seq<bool>;

    closed spec fn view(&self) -> Seq<bool> {
        self.previous_enable@
    }
}

pub(crate) fn dma_irq_mask(index: usize) -> (r: u16)
    ensures
        r == dma_irq(index as int),
{
    if index == 0 {
        IRQ_DMA0
    } else if index == 1 {
        IRQ_DMA1
    } else if index == 2 {
        IRQ_DMA2
    } else {
        IRQ_DMA3
    }
}

fn timing(control: u16) -> (r: u16)
    ensures
        r == timing_spec(control),
{
    (control / 0x1000) % 4
}

fn transfer_units(index: usize, count: u16) -> (r: u32)
    ensures
        r == transfer_units_spec(index as int, count),
{
    if count != 0 {
        count as u32
    } else if index == 3 {
        0x1_0000
    } else {
        0x4000
    }
}

/// `addr` rounded down to a multiple of the transfer unit.
fn align_addr(addr: u32, unit: u32) -> (r: u32)
    requires
        unit == 2 || unit == 4,
    ensures
        r == addr - addr % unit,
{
    addr - addr % unit
}

fn src_step(control: u16, unit: u32) -> (r: u32)
    requires
        unit == unit_spec(control),
    ensures
        r == src_step_spec(control),
{
    let mode = (control / 0x80) % 4;
    if mode == 0 {
        unit
    } else if mode == 1 {
        0u32.wrapping_sub(unit)
    } else {
        0
    }
}

fn dst_step(control: u16, unit: u32) -> (r: u32)
    requires
        unit == unit_spec(control),
    ensures
        r == dst_step_spec(control),
{
    let mode = (control / 0x20) % 4;
    if mode == 1 {
        0u32.wrapping_sub(unit)
    } else if mode == 2 {
        0
    } else {
        unit
    }
}

impl DmaController {
    /// No channel seen enabled yet.
    pub fn new() -> (r: Self)
        ensures
            r@ == seq![false; 4],
    {
        DmaController { previous_enable: [false; 4] }
    }

    /// Service all four channels after a CPU step; `entered_hblank` and
    /// `entered_vblank` say which blanks began during it. See `service_from`.
    pub fn service(&mut self, bus: &mut Bus, entered_hblank: bool, entered_vblank: bool)
        ensures
            (final(self)@, final(bus)@) == service_from(
                old(self)@,
                old(bus)@,
                entered_hblank,
                entered_vblank,
                0,
            ),
    {
        let mut index: usize = 0;
        while index < 4
            invariant
                index <= 4,
                self@.len() == 4,
                service_from(self@, bus@, entered_hblank, entered_vblank, index as int)
                    == service_from(old(self)@, old(bus)@, entered_hblank, entered_vblank, 0),
            decreases 4 - index,
        {
            proof {
                bus.lemma_io_valid();
            }
            let ghost p0 = self@;
            let ghost b0 = bus@;
            let control = bus.io().dma_control(index);
            let enabled = (control & 0x8000) != 0;
            let t = timing(control);
            let should_run = enabled && if t == 0 {
                !self.previous_enable[index]
            } else if t == 1 {
                entered_vblank
            } else if t == 2 {
                entered_hblank
            } else {
                false
            };
            if should_run {
                self.run_channel(bus, index);
            }
            proof {
                bus.lemma_io_valid();
            }
            self.previous_enable[index] = (bus.io().dma_control(index) & 0x8000) != 0;
            assert((self@, bus@) == service_channel(
                p0,
                b0,
                entered_hblank,
                entered_vblank,
                index as int,
            ));
            index = index + 1;
        }
    }

    /// One whole transfer of channel `index`; see `run_channel_spec`.
    fn run_channel(&self, bus: &mut Bus, index: usize)
        requires
            index < 4,
        ensures
            final(bus)@ == run_channel_spec(old(bus)@, index as int),
    {
        proof {
            bus.lemma_io_valid();
        }
        let source = bus.io().dma_source(index);
        let dest = bus.io().dma_dest(index);
        let count = bus.io().dma_count(index);
        let control = bus.io().dma_control(index);
        let unit: u32 = if (control & 0x0400) != 0 {
            4
        } else {
            2
        };
        let mut src = align_addr(source, unit);
        let mut dst = align_addr(dest, unit);
        let units = transfer_units(index, count);
        let s_step = src_step(control, unit);
        let d_step = dst_step(control, unit);
        let ghost target = copy_units(
            bus@,
            src,
            dst,
            s_step,
            d_step,
            unit == 4,
            units as nat,
        );
        let mut done: u32 = 0;
        while done < units
            invariant
                done <= units,
                unit == 2 || unit == 4,
                copy_units(bus@, src, dst, s_step, d_step, unit == 4, (units - done) as nat)
                    == target,
            decreases units - done,
        {
            if unit == 4 {
                let value = bus.load32(src);
                bus.store32(dst, value);
            } else {
                let value = bus.load16(src);
                bus.store16(dst, value);
            }
            src = src.wrapping_add(s_step);
            dst = dst.wrapping_add(d_step);
            done = done + 1;
        }
        proof {
            bus.lemma_io_valid();
        }
        bus.io_mut().set_dma_source(index, src);
        let reload_dest = bus.io().dma_dest(index);
        if (control / 0x20) % 4 == 3 {
            bus.io_mut().set_dma_dest(index, reload_dest);
        } else {
            bus.io_mut().set_dma_dest(index, dst);
        }
        let repeat = (control & 0x0200) != 0;
        if !repeat || timing(control) == 0 {
            bus.io_mut().set_dma_control(index, control & !0x8000u16);
        }
        if (control & 0x4000) != 0 {
            bus.io_mut().request_interrupt(dma_irq_mask(index));
        }
    }
}

/// Each unit of a transfer goes from the start addresses stepped `k` times
/// (wrapping), in order: the first `n + 1` units are the first `n` then one
/// from `src + n * src_step` to `dst + n * dst_step`; after `n` units the
/// addresses stand `n` steps on.
#[verifier::rlimit(30)]
pub proof fn lemma_copy_units_order(
    b: BusView,
    src: u32,
    dst: u32,
    src_step: u32,
    dst_step: u32,
    word: bool,
    n: nat,
)
    ensures
        copy_units(b, src, dst, src_step, dst_step, word, n).1 == ((src + n * src_step) % 0x1_0000_0000) as u32,
        copy_units(b, src, dst, src_step, dst_step, word, n).2 == ((dst + n * dst_step) % 0x1_0000_0000) as u32,
        copy_units(b, src, dst, src_step, dst_step, word, n + 1).0 == copy_unit(
            copy_units(b, src, dst, src_step, dst_step, word, n).0,
            ((src + n * src_step) % 0x1_0000_0000) as u32,
            ((dst + n * dst_step) % 0x1_0000_0000) as u32,
            word,
        ),
    decreases n,
{
    let M = 0x1_0000_0000int;
    if n == 0 {
        assert(copy_units(copy_unit(b, src, dst, word), src.wrapping_add(src_step), dst.wrapping_add(dst_step), src_step, dst_step, word, 0).0 == copy_unit(b, src, dst, word));
    } else {
        let b1 = copy_unit(b, src, dst, word);
        let s1 = src.wrapping_add(src_step);
        let d1 = dst.wrapping_add(dst_step);
        let m = (n - 1) as nat;
        lemma_copy_units_order(b1, s1, d1, src_step, dst_step, word, m);
        assert(s1 == (src + src_step) % M);
        assert(d1 == (dst + dst_step) % M);
        assert((s1 + m * src_step) % M == (src + n * src_step) % M) by {
            vstd::arithmetic::div_mod::lemma_add_mod_noop(src + src_step, m * src_step, M);
            vstd::arithmetic::div_mod::lemma_mod_twice(src + src_step, M);
            vstd::arithmetic::div_mod::lemma_add_mod_noop(s1 as int, m * src_step, M);
            vstd::arithmetic::mul::lemma_mul_is_distributive_add_other_way(src_step as int, m as int, 1);
        }
        assert((d1 + m * dst_step) % M == (dst + n * dst_step) % M) by {
            vstd::arithmetic::div_mod::lemma_add_mod_noop(dst + dst_step, m * dst_step, M);
            vstd::arithmetic::div_mod::lemma_mod_twice(dst + dst_step, M);
            vstd::arithmetic::div_mod::lemma_add_mod_noop(d1 as int, m * dst_step, M);
            vstd::arithmetic::mul::lemma_mul_is_distributive_add_other_way(dst_step as int, m as int, 1);
        }
    }
}

/// A channel whose source address control (bits 7-8) is 2 reads every
/// unit from the same source address, the source register rounded down to
/// the unit: unit `k` of the transfer copies from there to the destination
/// stepped `k` times, and afterwards the source register holds that same
/// address.
#[verifier::rlimit(60)]
pub proof fn lemma_fixed_source(b: BusView, index: int)
    requires
        b.io.valid(),
        0 <= index < 4,
        (b.io.dma_control[index] as int / 0x80) % 4 == 2,
    ensures
        ({
            let control = b.io.dma_control[index];
            let unit = unit_spec(control);
            let s0 = (b.io.dma_source[index] - b.io.dma_source[index] % unit_spec(control)) as u32;
            let d0 = (b.io.dma_dest[index] - b.io.dma_dest[index] % unit_spec(control)) as u32;
            let ds = dst_step_spec(control);
            let word = unit == 4;
            &&& run_channel_spec(b, index).io.dma_source[index] == s0
            &&& forall|k: nat|
                #![trigger copy_units(b, s0, d0, src_step_spec(control), ds, word, k + 1)]
                copy_units(b, s0, d0, src_step_spec(control), ds, word, k + 1).0 == copy_unit(
                    copy_units(b, s0, d0, src_step_spec(control), ds, word, k).0,
                    s0,
                    ((d0 + k * ds) % 0x1_0000_0000) as u32,
                    word,
                )
        }),
{
    let control = b.io.dma_control[index];
    let unit = unit_spec(control);
    let s0 = (b.io.dma_source[index] - b.io.dma_source[index] % unit_spec(control)) as u32;
    let d0 = (b.io.dma_dest[index] - b.io.dma_dest[index] % unit_spec(control)) as u32;
    let ds = dst_step_spec(control);
    let word = unit == 4;
    let n = transfer_units_spec(index, b.io.dma_count[index]) as nat;
    assert(src_step_spec(control) == 0);
    lemma_copy_units_order(b, s0, d0, 0, ds, word, n);
    assert(copy_units(b, s0, d0, 0, ds, word, n).1 == s0);
    lemma_copy_keeps_io_valid(b, s0, d0, 0, ds, word, n);
    assert(run_channel_spec(b, index).io.dma_source[index] == s0);
    lemma_unit_copies_from(b, s0, d0, 0, ds, word);
}

/// How a channel walks its addresses, by the address-control fields: the
/// unit is 4 bytes with control bit 10 set, else 2; the source (bits 7-8)
/// moves up a unit per transfer for 0, down for 1, not at all for 2 or 3;
/// the destination (bits 5-6) moves up for 0 and 3, down for 1, not at all
/// for 2. Unit `k` of a transfer is copied from the unit-aligned source
/// register moved `k` times to the unit-aligned destination register moved
/// `k` times (wrapping at 2^32), and afterwards the source register, and
/// the destination register unless it reloads (3), stand moved once per
/// unit copied.
#[verifier::spinoff_prover]
#[verifier::rlimit(60)]
pub proof fn lemma_channel_addressing(b: BusView, index: int)
    requires
        b.io.valid(),
        0 <= index < 4,
    ensures
        ({
            let control = b.io.dma_control[index];
            let word = control & 0x0400 != 0;
            let unit: int = if word { 4 } else { 2 };
            let smode = (control as int / 0x80) % 4;
            let dmode = (control as int / 0x20) % 4;
            let sdelta: int = if smode == 0 { unit } else if smode == 1 { -unit } else { 0 };
            let ddelta: int = if dmode == 1 { -unit } else if dmode == 2 { 0 } else { unit };
            let s0 = (b.io.dma_source[index] - b.io.dma_source[index] % unit_spec(control)) as u32;
            let d0 = (b.io.dma_dest[index] - b.io.dma_dest[index] % unit_spec(control)) as u32;
            let ss = src_step_spec(control);
            let ds = dst_step_spec(control);
            let n = transfer_units_spec(index, b.io.dma_count[index]) as nat;
            &&& forall|k: nat|
                #![trigger copy_units(b, s0, d0, ss, ds, word, k + 1)]
                copy_units(b, s0, d0, ss, ds, word, k + 1).0 == copy_unit(
                    copy_units(b, s0, d0, ss, ds, word, k).0,
                    ((s0 + k * sdelta) % 0x1_0000_0000) as u32,
                    ((d0 + k * ddelta) % 0x1_0000_0000) as u32,
                    word,
                )
            &&& run_channel_spec(b, index).io.dma_source[index] == ((s0 + n * sdelta) % 0x1_0000_0000) as u32
            &&& dmode != 3 ==> run_channel_spec(b, index).io.dma_dest[index] == ((d0 + n * ddelta) % 0x1_0000_0000) as u32
        }),
{
    let control = b.io.dma_control[index];
    let word = control & 0x0400 != 0;
    let unit: int = if word { 4 } else { 2 };
    let smode = (control as int / 0x80) % 4;
    let dmode = (control as int / 0x20) % 4;
    let sdelta: int = if smode == 0 { unit } else if smode == 1 { -unit } else { 0 };
    let ddelta: int = if dmode == 1 { -unit } else if dmode == 2 { 0 } else { unit };
    let s0 = (b.io.dma_source[index] - b.io.dma_source[index] % unit_spec(control)) as u32;
    let d0 = (b.io.dma_dest[index] - b.io.dma_dest[index] % unit_spec(control)) as u32;
    let ss = src_step_spec(control);
    let ds = dst_step_spec(control);
    let n = transfer_units_spec(index, b.io.dma_count[index]) as nat;
    assert(unit_spec(control) == unit);
    assert(ss == sdelta || ss == sdelta + 0x1_0000_0000);
    assert(ds == ddelta || ds == ddelta + 0x1_0000_0000);
    lemma_units_walk(b, s0, d0, ss, ds, sdelta, ddelta, word);
    lemma_copy_units_order(b, s0, d0, ss, ds, word, n);
    lemma_copy_keeps_io_valid(b, s0, d0, ss, ds, word, n);
    lemma_step_congruent(s0 as int, n, ss as int, sdelta);
    lemma_step_congruent(d0 as int, n, ds as int, ddelta);
}

/// Copies whose wrapped steps stand for the signed steps `sdelta` and
/// `ddelta` copy unit `k` between the start addresses moved `k` signed
/// steps.
proof fn lemma_units_walk(
    b: BusView,
    s0: u32,
    d0: u32,
    ss: u32,
    ds: u32,
    sdelta: int,
    ddelta: int,
    word: bool,
)
    requires
        ss == sdelta || ss == sdelta + 0x1_0000_0000,
        ds == ddelta || ds == ddelta + 0x1_0000_0000,
    ensures
        forall|k: nat|
            #![trigger copy_units(b, s0, d0, ss, ds, word, k + 1)]
            copy_units(b, s0, d0, ss, ds, word, k + 1).0 == copy_unit(
                copy_units(b, s0, d0, ss, ds, word, k).0,
                ((s0 + k * sdelta) % 0x1_0000_0000) as u32,
                ((d0 + k * ddelta) % 0x1_0000_0000) as u32,
                word,
            ),
{
    assert forall|k: nat|
        #![trigger copy_units(b, s0, d0, ss, ds, word, k + 1)]
        copy_units(b, s0, d0, ss, ds, word, k + 1).0 == copy_unit(
            copy_units(b, s0, d0, ss, ds, word, k).0,
            ((s0 + k * sdelta) % 0x1_0000_0000) as u32,
            ((d0 + k * ddelta) % 0x1_0000_0000) as u32,
            word,
        ) by {
        lemma_copy_units_order(b, s0, d0, ss, ds, word, k);
        lemma_step_congruent(s0 as int, k, ss as int, sdelta);
        lemma_step_congruent(d0 as int, k, ds as int, ddelta);
    }
}

/// A step stored as a wrapped word moves an address as the signed step
/// does: `x + k * step` and `x + k * delta` agree modulo 2^32 when `step`
/// is `delta` taken modulo 2^32.
proof fn lemma_step_congruent(x: int, k: nat, step: int, delta: int)
    requires
        step == delta || step == delta + 0x1_0000_0000,
    ensures
        (x + k * step) % 0x1_0000_0000 == (x + k * delta) % 0x1_0000_0000,
{
    if step != delta {
        vstd::arithmetic::mul::lemma_mul_is_distributive_add(k as int, delta, 0x1_0000_0000);
        vstd::arithmetic::div_mod::lemma_mod_multiples_vanish(k as int, x + k * delta, 0x1_0000_0000);
    }
}

/// With no source step, every unit of a run of copies reads from the start
/// address.
proof fn lemma_unit_copies_from(b: BusView, s0: u32, d0: u32, ss: u32, ds: u32, word: bool)
    requires
        ss == 0,
    ensures
        forall|k: nat|
            #![trigger copy_units(b, s0, d0, ss, ds, word, k + 1)]
            copy_units(b, s0, d0, ss, ds, word, k + 1).0 == copy_unit(
                copy_units(b, s0, d0, ss, ds, word, k).0,
                s0,
                ((d0 + k * ds) % 0x1_0000_0000) as u32,
                word,
            ),
{
    assert forall|k: nat|
        #![trigger copy_units(b, s0, d0, ss, ds, word, k + 1)]
        copy_units(b, s0, d0, ss, ds, word, k + 1).0 == copy_unit(
            copy_units(b, s0, d0, ss, ds, word, k).0,
            s0,
            ((d0 + k * ds) % 0x1_0000_0000) as u32,
            word,
        ) by {
        lemma_copy_units_order(b, s0, d0, ss, ds, word, k);
        assert((s0 + k * ss) % 0x1_0000_0000 == s0);
    }
}

/// When a channel starts, given the enable bits of the last service: an
/// enabled immediate channel (timing 0) runs once, when just enabled; a
/// V-blank channel (timing 1) runs on the V-blank edge, an H-blank channel
/// (timing 2) on the H-blank edge; a special channel (timing 3) never runs
/// here. A channel that does not run leaves the bus as it was.
pub proof fn lemma_dma_start_timing(prev: Seq<bool>, b: BusView, hblank: bool, vblank: bool, index: int)
    ensures
        ({
            let control = b.io.dma_control[index];
            let t = timing_spec(control);
            let starts = control & 0x8000 != 0 && ((t == 0 && !prev[index]) || (t == 1 && vblank) || (t
                == 2 && hblank));
            let (p1, b1) = service_channel(prev, b, hblank, vblank, index);
            &&& starts ==> b1 == run_channel_spec(b, index)
            &&& !starts ==> b1 == b && p1 == prev.update(index, control & 0x8000 != 0)
            &&& t == 3 ==> b1 == b
        }),
{
}

/// Copying keeps the register block's shape.
pub proof fn lemma_copy_keeps_io_valid(
    b: BusView,
    src: u32,
    dst: u32,
    src_step: u32,
    dst_step: u32,
    word: bool,
    n: nat,
)
    requires
        b.io.valid(),
    ensures
        copy_units(b, src, dst, src_step, dst_step, word, n).0.io.valid(),
    decreases n,
{
    if n > 0 {
        let v32 = b.read32(src);
        let v16 = b.read16(src);
        lemma_writes_keep_valid(b.io, dst, 0, v16, v32);
        lemma_copy_keeps_io_valid(
            copy_unit(b, src, dst, word),
            src.wrapping_add(src_step),
            dst.wrapping_add(dst_step),
            src_step,
            dst_step,
            word,
            (n - 1) as nat,
        );
    }
}

/// One 32-bit unit copied into RAM leaves the source's word at the
/// destination.
pub proof fn lemma_copy_one_word(b: BusView, src: u32, dst: u32, src_step: u32, dst_step: u32)
    requires
        b.valid(),
        region(dst) == 2 || region(dst) == 3 || region(dst) == 5 || region(dst) == 6 || region(dst)
            == 7 || region(dst) == 0xe || region(dst) == 0xf,
    ensures
        copy_units(b, src, dst, src_step, dst_step, true, 1).0.read32(dst) == b.read32(src),
{
    reveal_with_fuel(copy_units, 2);
    lemma_ram_write_read(b, dst, 0, b.read32(src));
}

/// A transfer that does not repeat, or that starts immediately, leaves its
/// channel disabled.
pub proof fn lemma_transfer_disables_channel(b: BusView, index: int)
    requires
        b.io.valid(),
        0 <= index < 4,
        b.io.dma_control[index] & 0x0200 == 0 || timing_spec(b.io.dma_control[index]) == 0,
    ensures
        run_channel_spec(b, index).io.dma_control[index] & 0x8000 == 0,
{
    let control = b.io.dma_control[index];
    let unit = unit_spec(control);
    let source = b.io.dma_source[index];
    let dest = b.io.dma_dest[index];
    lemma_copy_keeps_io_valid(
        b,
        (source - source % unit) as u32,
        (dest - dest % unit) as u32,
        src_step_spec(control),
        dst_step_spec(control),
        unit == 4,
        transfer_units_spec(index, b.io.dma_count[index]) as nat,
    );
    lemma_halfword_bits(control);
}

} // verus!
