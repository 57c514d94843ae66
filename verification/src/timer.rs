//! The four hardware timers: each counts CPU cycles through a prescaler, or
//! counts the overflows of the timer before it (cascade), reloads on
//! overflow and may request an interrupt.
use vstd::prelude::*;

use crate::io::{IoRegs, IoView, IRQ_TIMER0, IRQ_TIMER1, IRQ_TIMER2, IRQ_TIMER3};

verus! {

/// The interrupt flag of timer `index`.
pub open spec fn timer_irq(index: int) -> u16 {
    if index == 0 {
        IRQ_TIMER0
    } else if index == 1 {
        IRQ_TIMER1
    } else if index == 2 {
        IRQ_TIMER2
    } else {
        IRQ_TIMER3
    }
}

/// The cycles per tick selected by a control value's prescaler bits.
pub open spec fn prescaler_spec(control: u16) -> u32 {
    let sel = control % 4;
    if sel == 0 {
        1
    } else if sel == 1 {
        64
    } else if sel == 2 {
        256
    } else {
        1024
    }
}

/// A 16-bit counter at `counter` advanced by `ticks`, reloading from
/// `reload` each time it passes 0xffff: the final counter and the number of
/// overflows.
pub open spec fn advance_counter(counter: u16, reload: u16, ticks: nat) -> (u16, nat)
    decreases ticks,
{
    if counter + ticks < 0x10000 {
        ((counter + ticks) as u16, 0)
    } else {
        let rest = (ticks - (0x10000 - counter)) as nat;
        let (c, o) = advance_counter(reload, reload, rest);
        (c, o + 1)
    }
}

/// Timer `index` and, through cascade, the timers after it advanced by
/// `ticks`; `enabled` says which timers are running.
pub open spec fn tick_timer(io: IoView, enabled: Seq<bool>, index: int, ticks: nat) -> IoView
    decreases 4 - index,
{
    if index < 0 || index >= 4 || ticks == 0 || !enabled[index] {
        io
    } else {
        let control = io.timer_control[index];
        let (c, o) = advance_counter(io.timer_counter[index], io.timer_reload[index], ticks);
        let counted = IoView { timer_counter: io.timer_counter.update(index, c), ..io };
        let flagged = if o > 0 && control & 0x0040 != 0 {
            counted.with_interrupt(timer_irq(index))
        } else {
            counted
        };
        if o > 0 && index + 1 < 4 && enabled[index + 1] && flagged.timer_control[index + 1] & 0x0004
            != 0 {
            tick_timer(flagged, enabled, index + 1, o)
        } else {
            flagged
        }
    }
}

/// The timers' own state: the cycles each has counted towards its next tick
/// and whether each was running at the last step.
pub struct TimersView {
    pub accumulators: Seq<u32>,
    pub enabled: Seq<bool>,
}

/// One step of timer `index` by `cycles` CPU cycles: a timer just enabled
/// starts from its reload value, a disabled one is reset, a cascade timer
/// waits for overflows, and a counting timer ticks once per prescaler
/// period.
pub open spec fn step_channel(t: TimersView, io: IoView, cycles: u32, index: int) -> (
    TimersView,
    IoView,
) {
    let control = io.timer_control[index];
    let enabled = control & 0x0080 != 0;
    if !enabled {
        (
            TimersView {
                accumulators: t.accumulators.update(index, 0),
                enabled: t.enabled.update(index, false),
            },
            io,
        )
    } else {
        let (t1, io1) = if !t.enabled[index] {
            (
                TimersView {
                    accumulators: t.accumulators.update(index, 0),
                    enabled: t.enabled.update(index, true),
                },
                IoView {
                    timer_counter: io.timer_counter.update(index, io.timer_reload[index]),
                    ..io
                },
            )
        } else {
            (t, io)
        };
        if control & 0x0004 != 0 {
            (t1, io1)
        } else {
            let divisor = prescaler_spec(control);
            let acc = t1.accumulators[index].wrapping_add(cycles);
            let ticks = acc / divisor;
            let t2 = TimersView {
                accumulators: t1.accumulators.update(index, acc % divisor),
                enabled: t1.enabled,
            };
            (t2, tick_timer(io1, t2.enabled, index, ticks as nat))
        }
    }
}

/// Timers `index` to 3 stepped in turn.
pub open spec fn step_from(t: TimersView, io: IoView, cycles: u32, index: int) -> (
    TimersView,
    IoView,
)
    decreases 4 - index,
{
    if index < 0 || index >= 4 {
        (t, io)
    } else {
        let (t1, io1) = step_channel(t, io, cycles, index);
        step_from(t1, io1, cycles, index + 1)
    }
}

/// Four hardware timers that can tick from CPU cycles or from the previous
/// timer's overflow.
#[derive(Debug, Clone, PartialEq, Eq, Default)]
pub struct Timers {
    accumulators: [u32; 4],
    enabled: [bool; 4],
}

impl View for Timers {
    type V = TimersView;

    closed spec fn view(&self) -> TimersView {
        TimersView { accumulators: self.accumulators@, enabled: self.enabled@ }
    }
}

fn prescaler(control: u16) -> (r: u32)
    ensures
        r == prescaler_spec(control),
        r >= 1,
{
    let sel = control % 4;
    if sel == 0 {
        1
    } else if sel == 1 {
        64
    } else if sel == 2 {
        256
    } else {
        1024
    }
}

pub(crate) fn timer_irq_mask(index: usize) -> (r: u16)
    ensures
        r == timer_irq(index as int),
{
    if index == 0 {
        IRQ_TIMER0
    } else if index == 1 {
        IRQ_TIMER1
    } else if index == 2 {
        IRQ_TIMER2
    } else {
        IRQ_TIMER3
    }
}

/// The counter advanced by `ticks` with reloads; see `advance_counter`.
fn count_ticks(counter: u16, reload: u16, ticks: u32) -> (r: (u16, u32))
    ensures
        advance_counter(counter, reload, ticks as nat) == (r.0, r.1 as nat),
        r.1 <= ticks,
{
    let mut current = counter;
    let mut remaining = ticks;
    let mut overflows: u32 = 0;
    while remaining > 0
        invariant
            overflows as int + remaining as int <= ticks as int,
            ({
                let (c, o) = advance_counter(current, reload, remaining as nat);
                advance_counter(counter, reload, ticks as nat) == (c, (o + overflows) as nat)
            }),
        decreases remaining,
    {
        let until_overflow = 0x1_0000u32 - current as u32;
        if remaining < until_overflow {
            current = (current as u32 + remaining) as u16;
            remaining = 0;
        } else {
            remaining = remaining - until_overflow;
            current = reload;
            overflows = overflows + 1;
        }
    }
    (current, overflows)
}

impl Timers {
    pub fn new() -> (r: Self)
        ensures
            r@.accumulators == seq![0u32; 4],
            r@.enabled == seq![false; 4],
    {
        Timers { accumulators: [0; 4], enabled: [false; 4] }
    }

    /// Advance every timer by `cycles` CPU cycles; see `step_from`.
    pub fn step(&mut self, cycles: u32, io: &mut IoRegs)
        ensures
            (final(self)@, final(io)@) == step_from(old(self)@, old(io)@, cycles, 0),
    {
        let mut index: usize = 0;
        while index < 4
            invariant
                index <= 4,
                self@.accumulators.len() == 4,
                self@.enabled.len() == 4,
                step_from(self@, io@, cycles, index as int) == step_from(
                    old(self)@,
                    old(io)@,
                    cycles,
                    0,
                ),
            decreases 4 - index,
        {
            proof {
                io.lemma_valid();
            }
            let ghost t0 = self@;
            let ghost io0 = io@;
            let control = io.timer_control(index);
            let enabled = (control & 0x0080) != 0;
            if !enabled {
                self.enabled[index] = false;
                self.accumulators[index] = 0;
            } else {
                if !self.enabled[index] {
                    self.enabled[index] = true;
                    self.accumulators[index] = 0;
                    let reload = io.timer_reload(index);
                    io.set_timer_counter(index, reload);
                }
                if (control & 0x0004) == 0 {
                    let divisor = prescaler(control);
                    let acc = self.accumulators[index].wrapping_add(cycles);
                    let ticks = acc / divisor;
                    self.accumulators[index] = acc % divisor;
                    if ticks != 0 {
                        self.increment_timer(io, index, ticks);
                    }
                }
            }
            assert((self@, io@) == step_channel(t0, io0, cycles, index as int));
            index = index + 1;
        }
    }

    /// Timer `index` advanced by `ticks`, passing its overflows on to a
    /// cascading next timer; see `tick_timer`.
    fn increment_timer(&mut self, io: &mut IoRegs, index: usize, ticks: u32)
        ensures
            final(self)@ == old(self)@,
            final(io)@ == tick_timer(old(io)@, old(self)@.enabled, index as int, ticks as nat),
        decreases 4 - index, 0int,
    {
        proof {
            io.lemma_valid();
        }
        if ticks == 0 || index >= 4 || !self.enabled[index] {
            return;
        }
        let control = io.timer_control(index);
        let (counter, overflows) = count_ticks(
            io.timer_counter(index),
            io.timer_reload(index),
            ticks,
        );
        io.set_timer_counter(index, counter);
        if overflows > 0 && (control & 0x0040) != 0 {
            io.request_interrupt(timer_irq_mask(index));
        }
        if overflows > 0 {
            self.increment_cascade(io, index + 1, overflows);
        }
    }

    /// A cascading timer `index` advanced by the overflows of the timer
    /// before it; other timers ignore them.
    fn increment_cascade(&mut self, io: &mut IoRegs, index: usize, ticks: u32)
        requires
            1 <= index,
        ensures
            final(self)@ == old(self)@,
            final(io)@ == (if index < 4 && old(self)@.enabled[index as int]
                && old(io)@.timer_control[index as int] & 0x0004 != 0 {
                tick_timer(old(io)@, old(self)@.enabled, index as int, ticks as nat)
            } else {
                old(io)@
            }),
        decreases 4 - index, 1int,
    {
        proof {
            io.lemma_valid();
        }
        if index >= 4 || !self.enabled[index] {
            return;
        }
        let control = io.timer_control(index);
        if (control & 0x0004) == 0 {
            return;
        }
        self.increment_timer(io, index, ticks);
    }
}

/// A running timer that counts cycles (not cascading) ticks once every 1,
/// 64, 256 or 1024 cycles for prescaler selections 0 to 3: stepping it by
/// `cycles` adds `(pending + cycles) / period` to its counter (as long as
/// that does not overflow), `pending` being the cycles it had already
/// counted towards its next tick, and keeps the remainder as pending.
pub proof fn lemma_prescaler_ticks(t: TimersView, io: IoView, cycles: u32, index: int)
    requires
        io.valid(),
        0 <= index < 4,
        t.accumulators.len() == 4,
        t.enabled.len() == 4,
        t.enabled[index],
        io.timer_control[index] & 0x0080 != 0,
        io.timer_control[index] & 0x0004 == 0,
        t.accumulators[index] + cycles < 0x1_0000_0000,
    ensures
        ({
            let control = io.timer_control[index];
            let period: int = if control % 4 == 0 {
                1
            } else if control % 4 == 1 {
                64
            } else if control % 4 == 2 {
                256
            } else {
                1024
            };
            let pending = t.accumulators[index] + cycles;
            let (t2, io2) = step_channel(t, io, cycles, index);
            &&& t2.accumulators[index] == pending % period
            &&& io.timer_counter[index] + pending / period < 0x10000 ==> io2.timer_counter[index]
                == io.timer_counter[index] + pending / period
        }),
{
    let control = io.timer_control[index];
    let acc = t.accumulators[index].wrapping_add(cycles);
    let ticks = acc / prescaler_spec(control);
    lemma_overflow_reloads(io.timer_counter[index], io.timer_reload[index], ticks as nat);
}

/// A counter stepped exactly to its overflow restarts from the reload value,
/// and counting that stays below the overflow neither reloads nor counts an
/// overflow.
pub proof fn lemma_overflow_reloads(counter: u16, reload: u16, ticks: nat)
    ensures
        advance_counter(counter, reload, (0x10000 - counter) as nat) == (reload, 1nat),
        counter + ticks < 0x10000 ==> advance_counter(counter, reload, ticks) == (
            (counter + ticks) as u16,
            0nat,
        ),
{
    reveal_with_fuel(advance_counter, 2);
}

/// Every overflow is counted: the overflows of `ticks` ticks are at most
/// `ticks`, and at least one exactly when the counter passes 0xffff.
pub proof fn lemma_overflow_count(counter: u16, reload: u16, ticks: nat)
    ensures
        advance_counter(counter, reload, ticks).1 <= ticks,
        (advance_counter(counter, reload, ticks).1 >= 1) == (counter + ticks >= 0x10000),
    decreases ticks,
{
    if counter + ticks >= 0x10000 {
        lemma_overflow_count(reload, reload, (ticks - (0x10000 - counter)) as nat);
    }
}

/// A timer ticked exactly up to its overflow restarts from its reload
/// value; with its interrupt enabled (control bit 6) it requests its own
/// interrupt (IF bit 3 plus the timer's number) and nothing else; a running
/// cascade timer after it (control bit 2) counts that one overflow. (Stated
/// where that cascade timer does not overflow in turn.)
#[verifier::spinoff_prover]
#[verifier::rlimit(40)]
pub proof fn lemma_overflow_effects(io: IoView, enabled: Seq<bool>, index: int)
    requires
        io.valid(),
        enabled.len() == 4,
        0 <= index < 4,
        enabled[index],
    ensures
        ({
            let ticks = (0x10000 - io.timer_counter[index]) as nat;
            let r = tick_timer(io, enabled, index, ticks);
            let bit: u16 = if index == 0 { 0x8 } else if index == 1 { 0x10 } else if index == 2 { 0x20 } else { 0x40 };
            let cascade = index + 1 < 4 && enabled[index + 1] && io.timer_control[index + 1] & 0x0004 != 0;
            &&& !cascade || io.timer_counter[index + 1] < 0xffff ==> r.timer_counter[index] == io.timer_reload[index]
            &&& cascade && io.timer_counter[index + 1] < 0xffff ==> r.timer_counter[index + 1]
                == io.timer_counter[index + 1] + 1
            &&& !cascade || io.timer_counter[index + 1] < 0xffff ==> r.if_ == (if io.timer_control[index] & 0x0040 != 0 {
                io.if_ | bit
            } else {
                io.if_
            })
        }),
{
    let ticks = (0x10000 - io.timer_counter[index]) as nat;
    lemma_overflow_reloads(io.timer_counter[index], io.timer_reload[index], ticks);
    assert(timer_irq(index) == (if index == 0 { 0x8u16 } else if index == 1 { 0x10u16 } else if index == 2 { 0x20u16 } else { 0x40u16 }));
    let control = io.timer_control[index];
    let counted = IoView { timer_counter: io.timer_counter.update(index, io.timer_reload[index]), ..io };
    let flagged = if control & 0x0040 != 0 {
        counted.with_interrupt(timer_irq(index))
    } else {
        counted
    };
    assert(tick_timer(io, enabled, index, ticks) == (if index + 1 < 4 && enabled[index + 1]
        && flagged.timer_control[index + 1] & 0x0004 != 0 {
        tick_timer(flagged, enabled, index + 1, 1)
    } else {
        flagged
    }));
    if index + 1 < 4 && enabled[index + 1] && flagged.timer_control[index + 1] & 0x0004 != 0
        && io.timer_counter[index + 1] < 0xffff {
        lemma_overflow_reloads(flagged.timer_counter[index + 1], flagged.timer_reload[index + 1], 1);
        assert(tick_timer(flagged, enabled, index + 1, 1) == IoView {
            timer_counter: flagged.timer_counter.update(index + 1, (flagged.timer_counter[index + 1] + 1) as u16),
            ..flagged
        });
    }
}

} // verus!
