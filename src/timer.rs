use std::collections::VecDeque;
use vstd::prelude::*;

verus! {

/// Capacity of the event queue: fired messages not yet taken by the consumer.
pub const QUEUE_CAPACITY: usize = 1024;

/// Granularity of the timing substrate, in milliseconds. An event fires no
/// earlier than twice this slack after its requested delay.
pub const TIMER_RESOLUTION_MS: u64 = 100;

/// A protocol event addressed to one peer. `P` is a non-owning reference to
/// the peer (a weak pointer, an index into a peer table): it is carried, never
/// inspected.
#[derive(Debug)]
pub enum TimerMessage<P> {
    PersistentKeepAlive(P),
    PassiveKeepAlive(P),
    Rekey(P, u32),
    Wipe(P),
}

/// A scheduled event that has not yet made its fire decision.
pub struct Scheduled<P> {
    pub id: u64,
    /// Time (in milliseconds) from which the event may fire.
    pub deadline: u64,
    /// The cancellation token shared with the event's handle.
    pub canceled: bool,
    pub message: TimerMessage<P>,
}

/// What a fire request did.
#[derive(Debug, Clone, Copy, PartialEq, Eq, Structural)]
pub enum FireOutcome {
    /// No scheduled event has this id: it has fired already or never existed.
    NoSuchEvent,
    /// The event's deadline has not been reached; it stays scheduled.
    NotDue,
    /// The event's token was canceled: its message is dropped.
    Discarded,
    /// The message entered the event queue.
    Queued,
    /// The queue is full: the message waits for space, in order.
    Waiting,
}

/// The abstract state of a timer.
pub ghost struct TimerView<P> {
    /// Events not yet fired, in scheduling order.
    pub pending: Seq<Scheduled<P>>,
    /// Fired messages held by the bounded event queue.
    pub queue: Seq<TimerMessage<P>>,
    /// Fired messages whose enqueue is suspended because the queue is full.
    pub waiting: Seq<TimerMessage<P>>,
    /// The id that the next scheduled event receives.
    pub next_id: nat,
}

/// The time from which an event scheduled at `now` with `delay` may fire.
pub open spec fn fire_time(now: u64, delay: u64) -> int {
    now + delay + 2 * TIMER_RESOLUTION_MS
}

/// The position of the pending event with the given id.
pub open spec fn index_of<P>(pending: Seq<Scheduled<P>>, id: u64) -> int {
    choose|i: int| 0 <= i < pending.len() && pending[i].id == id
}

impl<P> TimerView<P> {
    pub open spec fn wf(self) -> bool {
        &&& self.queue.len() <= QUEUE_CAPACITY
        &&& self.waiting.len() > 0 ==> self.queue.len() == QUEUE_CAPACITY
        &&& forall|i: int| 0 <= i < self.pending.len() ==> self.pending[i].id < self.next_id
        &&& forall|i: int, j: int|
            0 <= i < j < self.pending.len() ==> self.pending[i].id != self.pending[j].id
    }

    /// Every fired message, in the order in which the consumer receives it.
    pub open spec fn output(self) -> Seq<TimerMessage<P>> {
        self.queue + self.waiting
    }

    pub open spec fn has(self, id: u64) -> bool {
        exists|i: int| 0 <= i < self.pending.len() && self.pending[i].id == id
    }

    /// The pending event with the given id (meaningful where `has(id)`).
    pub open spec fn entry(self, id: u64) -> Scheduled<P> {
        self.pending[index_of(self.pending, id)]
    }

    pub open spec fn after_send(self, now: u64, delay: u64, message: TimerMessage<P>) -> TimerView<P> {
        TimerView {
            pending: self.pending.push(
                Scheduled {
                    id: self.next_id as u64,
                    deadline: fire_time(now, delay) as u64,
                    canceled: false,
                    message,
                },
            ),
            queue: self.queue,
            waiting: self.waiting,
            next_id: self.next_id + 1,
        }
    }

    pub open spec fn cancel_entry(e: Scheduled<P>, id: u64) -> Scheduled<P> {
        if e.id == id {
            Scheduled { id: e.id, deadline: e.deadline, canceled: true, message: e.message }
        } else {
            e
        }
    }

    pub open spec fn after_cancel(self, id: u64) -> TimerView<P> {
        TimerView {
            pending: Seq::new(
                self.pending.len(),
                |i: int| Self::cancel_entry(self.pending[i], id),
            ),
            queue: self.queue,
            waiting: self.waiting,
            next_id: self.next_id,
        }
    }

    pub open spec fn after_fire(self, id: u64, now: u64) -> (TimerView<P>, FireOutcome) {
        if !self.has(id) {
            (self, FireOutcome::NoSuchEvent)
        } else {
            let i = index_of(self.pending, id);
            let e = self.pending[i];
            let rest = self.pending.remove(i);
            if now < e.deadline {
                (self, FireOutcome::NotDue)
            } else if e.canceled {
                (
                    TimerView {
                        pending: rest,
                        queue: self.queue,
                        waiting: self.waiting,
                        next_id: self.next_id,
                    },
                    FireOutcome::Discarded,
                )
            } else if self.queue.len() < QUEUE_CAPACITY {
                (
                    TimerView {
                        pending: rest,
                        queue: self.queue.push(e.message),
                        waiting: self.waiting,
                        next_id: self.next_id,
                    },
                    FireOutcome::Queued,
                )
            } else {
                (
                    TimerView {
                        pending: rest,
                        queue: self.queue,
                        waiting: self.waiting.push(e.message),
                        next_id: self.next_id,
                    },
                    FireOutcome::Waiting,
                )
            }
        }
    }

    pub open spec fn after_poll(self) -> (TimerView<P>, Option<TimerMessage<P>>) {
        if self.queue.len() == 0 {
            (self, None)
        } else if self.waiting.len() == 0 {
            (
                TimerView {
                    pending: self.pending,
                    queue: self.queue.drop_first(),
                    waiting: self.waiting,
                    next_id: self.next_id,
                },
                Some(self.queue[0]),
            )
        } else {
            (
                TimerView {
                    pending: self.pending,
                    queue: self.queue.drop_first().push(self.waiting[0]),
                    waiting: self.waiting.drop_first(),
                    next_id: self.next_id,
                },
                Some(self.queue[0]),
            )
        }
    }
}

/// The time from which an event scheduled at `now` with `delay` may fire, or
/// `None` where it is past the end of the clock.
pub fn deadline_for(now: u64, delay: u64) -> (r: Option<u64>)
    ensures
        r == (if fire_time(now, delay) <= u64::MAX {
            Some(fire_time(now, delay) as u64)
        } else {
            None::<u64>
        }),
{
    if now > u64::MAX - 2 * TIMER_RESOLUTION_MS || delay > u64::MAX - 2 * TIMER_RESOLUTION_MS - now {
        None
    } else {
        Some(now + delay + 2 * TIMER_RESOLUTION_MS)
    }
}


/// The caller's capability to cancel one scheduled event.
pub struct TimerHandle {
    id: u64,
    canceled: bool,
}

impl View for TimerHandle {
    /// The id of the event and whether this handle has canceled it.
    type V = (u64, bool);

    closed spec fn view(&self) -> (u64, bool) {
        (self.id, self.canceled)
    }
}

impl TimerHandle {
    /// The id of the event that this handle controls.
    pub fn id(&self) -> (r: u64)
        ensures
            r == self@.0,
    {
        self.id
    }

    pub fn is_canceled(&self) -> (r: bool)
        ensures
            r == self@.1,
    {
        self.canceled
    }

    /// Sets the event's cancellation token. It never reverts; once the event
    /// has fired this has no effect on the timer.
    pub fn cancel<P>(&mut self, timer: &mut Timer<P>)
        requires
            old(timer).wf(),
        ensures
            final(self)@ == (old(self)@.0, true),
            final(timer).wf(),
            final(timer)@ == old(timer)@.after_cancel(old(self)@.0),
    {
        self.canceled = true;
        let id = self.id;
        let ghost old_pending = timer.pending@;
        let mut i: usize = 0;
        while i < timer.pending.len()
            invariant
                0 <= i <= timer.pending@.len(),
                timer.pending@.len() == old_pending.len(),
                timer.queue@ == old(timer).queue@,
                timer.waiting@ == old(timer).waiting@,
                timer.next_id == old(timer).next_id,
                old_pending == old(timer).pending@,
                forall|j: int|
                    0 <= j < i ==> timer.pending@[j] == TimerView::<P>::cancel_entry(
                        old_pending[j],
                        id,
                    ),
                forall|j: int| i <= j < timer.pending@.len() ==> timer.pending@[j] == old_pending[j],
            decreases timer.pending@.len() - i,
        {
            if timer.pending[i].id == id {
                timer.pending[i].canceled = true;
            }
            i = i + 1;
        }
        assert(timer@.pending =~= old(timer)@.after_cancel(id).pending);
    }
}

/// Schedules protocol events and holds the messages of those that fired,
/// for a single consumer.
pub struct Timer<P> {
    pending: Vec<Scheduled<P>>,
    queue: VecDeque<TimerMessage<P>>,
    waiting: VecDeque<TimerMessage<P>>,
    next_id: u64,
}

impl<P> View for Timer<P> {
    type V = TimerView<P>;

    closed spec fn view(&self) -> TimerView<P> {
        TimerView {
            pending: self.pending@,
            queue: self.queue@,
            waiting: self.waiting@,
            next_id: self.next_id as nat,
        }
    }
}

impl<P> Timer<P> {
    pub open spec fn wf(&self) -> bool {
        self@.wf()
    }

    /// An empty timer: nothing scheduled, nothing queued.
    pub fn new() -> (r: Self)
        ensures
            r.wf(),
            r@.pending.len() == 0,
            r@.queue.len() == 0,
            r@.waiting.len() == 0,
            r@.next_id == 0,
    {
        Timer { pending: Vec::new(), queue: VecDeque::new(), waiting: VecDeque::new(), next_id: 0 }
    }

    /// The id that the next scheduled event receives.
    pub fn next_id(&self) -> (r: u64)
        ensures
            r == self@.next_id,
    {
        self.next_id
    }

    /// Schedules `message` to fire `delay` milliseconds after `now` (plus the
    /// resolution slack), and returns the handle that can cancel it.
    pub fn send_after(&mut self, now: u64, delay: u64, message: TimerMessage<P>) -> (r: TimerHandle)
        requires
            old(self).wf(),
            fire_time(now, delay) <= u64::MAX,
            old(self)@.next_id < u64::MAX,
        ensures
            final(self).wf(),
            final(self)@ == old(self)@.after_send(now, delay, message),
            r@ == (old(self)@.next_id as u64, false),
    {
        let id = self.next_id;
        let deadline = now + delay + 2 * TIMER_RESOLUTION_MS;
        self.pending.push(Scheduled { id, deadline, canceled: false, message });
        self.next_id = id + 1;
        TimerHandle { id, canceled: false }
    }

    /// The fire decision of event `id`, whose delay has elapsed at `now`.
    /// A canceled event's message is dropped; any other due event's message
    /// joins the output after every message fired before it: in the queue
    /// where it has room, else among the messages waiting for room.
    pub fn fire(&mut self, id: u64, now: u64) -> (r: FireOutcome)
        requires
            old(self).wf(),
        ensures
            final(self).wf(),
            (final(self)@, r) == old(self)@.after_fire(id, now),
    {
        let mut i: usize = 0;
        while i < self.pending.len() && self.pending[i].id != id
            invariant
                0 <= i <= self.pending@.len(),
                forall|j: int| 0 <= j < i ==> self.pending@[j].id != id,
            decreases self.pending@.len() - i,
        {
            i = i + 1;
        }
        if i == self.pending.len() {
            return FireOutcome::NoSuchEvent;
        }
        proof {
            let k = index_of(self.pending@, id);
            assert(self.pending@[i as int].id == id);
            assert(k == i);
        }
        if now < self.pending[i].deadline {
            return FireOutcome::NotDue;
        }
        let e = self.pending.remove(i);
        proof {
            let rest = old(self)@.pending.remove(i as int);
            assert forall|a: int, b: int| 0 <= a < b < rest.len() implies rest[a].id != rest[b].id by {
                let a0 = if a < i { a } else { a + 1 };
                let b0 = if b < i { b } else { b + 1 };
                assert(rest[a] == old(self)@.pending[a0]);
                assert(rest[b] == old(self)@.pending[b0]);
            }
        }
        if e.canceled {
            FireOutcome::Discarded
        } else if self.queue.len() < QUEUE_CAPACITY {
            self.queue.push_back(e.message);
            FireOutcome::Queued
        } else {
            self.waiting.push_back(e.message);
            FireOutcome::Waiting
        }
    }

    /// Takes the next fired message, or `None` when none has fired yet. A
    /// message waiting for room moves into the queue.
    pub fn poll(&mut self) -> (r: Option<TimerMessage<P>>)
        requires
            old(self).wf(),
        ensures
            final(self).wf(),
            (final(self)@, r) == old(self)@.after_poll(),
    {
        match self.queue.pop_front() {
            None => None,
            Some(m) => {
                match self.waiting.pop_front() {
                    Some(w) => self.queue.push_back(w),
                    None => {},
                }
                Some(m)
            },
        }
    }
}

} // verus!
