//! The global cycle scheduler: hardware events queued for a future cycle
//! count and handed out, earliest first, once that cycle has been reached.
use vstd::prelude::*;

verus! {

/// Coarsely scheduled hardware events that fire at a future cycle count.
#[derive(Debug, Clone, Copy, PartialEq, Eq, PartialOrd, Ord, Structural)]
pub enum EventKind {
    HBlank,
    VBlank,
    TimerOverflow(usize),
    DmaComplete(usize),
}

/// An event handed out by the scheduler: when it was due and what it is.
#[derive(Debug, Clone, Copy, PartialEq, Eq, Structural)]
pub struct Event {
    pub fire_at: u64,
    pub kind: EventKind,
}

/// A queued event: its due cycle, its place in scheduling order, and its
/// kind.
#[derive(Debug, Clone, Copy, PartialEq, Eq, Structural)]
struct ScheduledEvent {
    fire_at: u64,
    seq: u64,
    kind: EventKind,
}

/// A queued event as (due cycle, scheduling number, kind).
pub type QueuedEvent = (u64, u64, EventKind);

/// `a` is handed out before `b`: it is due earlier, or due at the same cycle
/// and was scheduled first.
pub open spec fn runs_before(a: QueuedEvent, b: QueuedEvent) -> bool {
    a.0 < b.0 || (a.0 == b.0 && a.1 < b.1)
}

/// Index `i` holds the event handed out next: none runs before it, and it
/// runs before every event queued ahead of it.
pub open spec fn is_next(events: Seq<QueuedEvent>, i: int) -> bool {
    &&& 0 <= i < events.len()
    &&& forall|j: int| 0 <= j < events.len() ==> !runs_before(#[trigger] events[j], events[i])
    &&& forall|j: int| 0 <= j < i ==> runs_before(events[i], #[trigger] events[j])
}

/// The scheduler's clock, the next scheduling number and the queue.
pub struct SchedulerView {
    pub timestamp: u64,
    pub next_seq: u64,
    pub events: Seq<QueuedEvent>,
}

impl SchedulerView {
    /// Every queued event was numbered before the next number.
    pub open spec fn valid(self) -> bool {
        forall|i: int| 0 <= i < self.events.len() ==> (#[trigger] self.events[i]).1 < self.next_seq
    }
}

/// Global cycle scheduler used by the GBA core.
#[derive(Debug, Clone)]
pub struct Scheduler {
    timestamp: u64,
    next_seq: u64,
    events: Vec<ScheduledEvent>,
}

spec fn queued(e: ScheduledEvent) -> QueuedEvent {
    (e.fire_at, e.seq, e.kind)
}

impl View for Scheduler {
    type V = SchedulerView;

    closed spec fn view(&self) -> SchedulerView {
        SchedulerView {
            timestamp: self.timestamp,
            next_seq: self.next_seq,
            events: self.events@.map_values(|e: ScheduledEvent| queued(e)),
        }
    }
}

fn before(a: &ScheduledEvent, b: &ScheduledEvent) -> (r: bool)
    ensures
        r == runs_before(queued(*a), queued(*b)),
{
    a.fire_at < b.fire_at || (a.fire_at == b.fire_at && a.seq < b.seq)
}

impl Scheduler {
    /// Time zero, nothing queued.
    pub fn new() -> (r: Self)
        ensures
            r@.timestamp == 0,
            r@.next_seq == 0,
            r@.events == Seq::<QueuedEvent>::empty(),
            r@.valid(),
    {
        let r = Scheduler { timestamp: 0, next_seq: 0, events: Vec::new() };
        assert(r@.events =~= Seq::<QueuedEvent>::empty());
        r
    }

    pub fn timestamp(&self) -> (r: u64)
        ensures
            r == self@.timestamp,
    {
        self.timestamp
    }

    /// Queue `kind` to fire at cycle `fire_at`, numbered after every event
    /// scheduled before it.
    pub fn schedule(&mut self, fire_at: u64, kind: EventKind)
        ensures
            final(self)@.timestamp == old(self)@.timestamp,
            final(self)@.next_seq == old(self)@.next_seq.wrapping_add(1),
            final(self)@.events == old(self)@.events.push((fire_at, old(self)@.next_seq, kind)),
    {
        let event = ScheduledEvent { fire_at, seq: self.next_seq, kind };
        self.next_seq = self.next_seq.wrapping_add(1);
        self.events.push(event);
        assert(self@.events =~= old(self)@.events.push((fire_at, old(self)@.next_seq, kind)));
    }

    /// Queue `kind` to fire `delta` cycles from now.
    pub fn schedule_in(&mut self, delta: u64, kind: EventKind)
        ensures
            final(self)@.timestamp == old(self)@.timestamp,
            final(self)@.next_seq == old(self)@.next_seq.wrapping_add(1),
            final(self)@.events == old(self)@.events.push(
                (old(self)@.timestamp.wrapping_add(delta), old(self)@.next_seq, kind),
            ),
    {
        let at = self.timestamp.wrapping_add(delta);
        self.schedule(at, kind);
    }

    /// Move the clock forward by `cycles`.
    pub fn advance(&mut self, cycles: u32)
        ensures
            final(self)@ == (SchedulerView {
                timestamp: old(self)@.timestamp.wrapping_add(cycles as u64),
                ..old(self)@
            }),
    {
        self.timestamp = self.timestamp.wrapping_add(cycles as u64);
    }

    /// The index of the event handed out next.
    fn next_index(&self) -> (r: usize)
        requires
            self.events@.len() > 0,
        ensures
            is_next(self@.events, r as int),
    {
        let mut best: usize = 0;
        let mut i: usize = 1;
        while i < self.events.len()
            invariant
                1 <= i <= self.events@.len(),
                best < i,
                forall|j: int|
                    0 <= j < i ==> !runs_before(
                        #[trigger] queued(self.events@[j]),
                        queued(self.events@[best as int]),
                    ),
                forall|j: int|
                    0 <= j < best ==> runs_before(
                        queued(self.events@[best as int]),
                        #[trigger] queued(self.events@[j]),
                    ),
            decreases self.events@.len() - i,
        {
            if before(&self.events[i], &self.events[best]) {
                best = i;
            }
            i = i + 1;
        }
        best
    }

    /// The due cycle of the event handed out next, if any is queued.
    pub fn peek_pending_time(&self) -> (r: Option<u64>)
        ensures
            self@.events.len() == 0 ==> r is None,
            self@.events.len() > 0 ==> exists|i: int|
                is_next(self@.events, i) && r == Some(self@.events[i].0),
    {
        if self.events.len() == 0 {
            None
        } else {
            let i = self.next_index();
            Some(self.events[i].fire_at)
        }
    }

    /// Hand out the next event if it is due (its cycle has been reached),
    /// removing it from the queue; otherwise `None` and nothing changes.
    pub fn pop_pending(&mut self) -> (r: Option<Event>)
        ensures
            final(self)@.timestamp == old(self)@.timestamp,
            final(self)@.next_seq == old(self)@.next_seq,
            old(self)@.events.len() == 0 ==> r is None && final(self)@ == old(self)@,
            old(self)@.events.len() > 0 ==> exists|i: int|
                {
                    &&& is_next(old(self)@.events, i)
                    &&& if old(self)@.events[i].0 <= old(self)@.timestamp {
                        &&& r == Some(
                            Event {
                                fire_at: old(self)@.events[i].0,
                                kind: old(self)@.events[i].2,
                            },
                        )
                        &&& final(self)@.events == old(self)@.events.remove(i)
                    } else {
                        r is None && final(self)@ == old(self)@
                    }
                },
    {
        if self.events.len() == 0 {
            return None;
        }
        let i = self.next_index();
        let pending = self.events[i];
        if pending.fire_at > self.timestamp {
            return None;
        }
        let event = self.events.remove(i);
        assert(self@.events =~= old(self)@.events.remove(i as int));
        Some(Event { fire_at: event.fire_at, kind: event.kind })
    }
}

impl Default for Scheduler {
    fn default() -> (r: Self)
        ensures
            r@.timestamp == 0,
            r@.next_seq == 0,
            r@.events == Seq::<QueuedEvent>::empty(),
    {
        Scheduler::new()
    }
}

/// An event scheduled while the numbering has not wrapped runs after every
/// event already queued for the same cycle, and the queue stays numbered
/// below the next number.
pub proof fn lemma_same_cycle_fifo(s: SchedulerView, fire_at: u64, kind: EventKind)
    requires
        s.valid(),
        s.next_seq < u64::MAX,
    ensures
        forall|i: int|
            0 <= i < s.events.len() && (#[trigger] s.events[i]).0 == fire_at ==> runs_before(
                s.events[i],
                (fire_at, s.next_seq, kind),
            ),
        (SchedulerView {
            next_seq: s.next_seq.wrapping_add(1),
            events: s.events.push((fire_at, s.next_seq, kind)),
            ..s
        }).valid(),
{
    let t = SchedulerView {
        next_seq: s.next_seq.wrapping_add(1),
        events: s.events.push((fire_at, s.next_seq, kind)),
        ..s
    };
    assert(s.next_seq.wrapping_add(1) == s.next_seq + 1);
    assert forall|i: int| 0 <= i < t.events.len() implies (#[trigger] t.events[i]).1 < t.next_seq by {
        if i < s.events.len() {
            assert(t.events[i] == s.events[i]);
        }
    }
}

/// The event handed out next is due no later than any other queued event,
/// and runs before every other event queued for the same cycle.
pub proof fn lemma_next_is_earliest(events: Seq<QueuedEvent>, i: int, j: int)
    requires
        is_next(events, i),
        0 <= j < events.len(),
        j != i,
        events[j].1 != events[i].1,
    ensures
        events[i].0 <= events[j].0,
        events[i].0 == events[j].0 ==> events[i].1 < events[j].1,
{
    assert(!runs_before(events[j], events[i]));
}

} // verus!
