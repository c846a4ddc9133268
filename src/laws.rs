use vstd::prelude::*;
use crate::timer::{FireOutcome, Scheduled, TimerMessage, TimerView, index_of, fire_time, QUEUE_CAPACITY};

verus! {

/// Where event ids are unique, the pending event with a given id sits at the
/// one position that holds it.
pub proof fn lemma_index_of<P>(t: TimerView<P>, id: u64, i: int)
    requires
        t.wf(),
        0 <= i < t.pending.len(),
        t.pending[i].id == id,
    ensures
        t.has(id),
        index_of(t.pending, id) == i,
        t.entry(id) == t.pending[i],
{
    assert(t.has(id));
    let k = index_of(t.pending, id);
    assert(t.pending[k].id == id);
}

/// Scheduling keeps the timer well formed, adds one uncanceled event due at
/// `fire_time(now, delay)` and fires nothing.
pub proof fn lemma_send<P>(t: TimerView<P>, now: u64, delay: u64, m: TimerMessage<P>)
    requires
        t.wf(),
        t.next_id < u64::MAX,
        fire_time(now, delay) <= u64::MAX,
    ensures
        ({
            let s = t.after_send(now, delay, m);
            let id = t.next_id as u64;
            &&& s.wf()
            &&& !t.has(id)
            &&& s.has(id)
            &&& s.entry(id) == (Scheduled {
                id,
                deadline: fire_time(now, delay) as u64,
                canceled: false,
                message: m,
            })
            &&& s.output() == t.output()
            &&& forall|x: u64| x != id ==> (s.has(x) == t.has(x))
            &&& forall|x: u64| x != id && t.has(x) ==> s.entry(x) == t.entry(x)
        }),
{
    let s = t.after_send(now, delay, m);
    let id = t.next_id as u64;
    lemma_index_of(s, id, t.pending.len() as int);
    assert forall|x: u64| x != id implies (s.has(x) == t.has(x)) by {
        if s.has(x) {
            let i = choose|i: int| 0 <= i < s.pending.len() && s.pending[i].id == x;
            assert(t.pending[i].id == x);
        }
        if t.has(x) {
            let i = choose|i: int| 0 <= i < t.pending.len() && t.pending[i].id == x;
            assert(s.pending[i].id == x);
        }
    }
    assert forall|x: u64| x != id && t.has(x) implies s.entry(x) == t.entry(x) by {
        let i = index_of(t.pending, x);
        lemma_index_of(t, x, i);
        lemma_index_of(s, x, i);
    }
}

/// Firing one event keeps the timer well formed and leaves every other
/// pending event as it was.
pub proof fn lemma_fire_keeps_others<P>(t: TimerView<P>, id: u64, at: u64)
    requires
        t.wf(),
    ensures
        ({
            let f = t.after_fire(id, at).0;
            &&& f.wf()
            &&& forall|x: u64| x != id ==> (f.has(x) == t.has(x))
            &&& forall|x: u64| x != id && t.has(x) ==> f.entry(x) == t.entry(x)
        }),
{
    let f = t.after_fire(id, at).0;
    if t.has(id) && at >= t.entry(id).deadline {
        let k = index_of(t.pending, id);
        assert(t.pending[k].id == id);
        let rest = t.pending.remove(k);
        assert(f.pending == rest);
        assert forall|a: int, b: int| 0 <= a < b < rest.len() implies rest[a].id != rest[b].id by {
            let a0 = if a < k { a } else { a + 1 };
            let b0 = if b < k { b } else { b + 1 };
            assert(rest[a] == t.pending[a0]);
            assert(rest[b] == t.pending[b0]);
        }
        assert forall|i: int| 0 <= i < rest.len() implies rest[i].id < f.next_id by {
            let i0 = if i < k { i } else { i + 1 };
            assert(rest[i] == t.pending[i0]);
        }
        assert forall|x: u64| x != id implies (f.has(x) == t.has(x)) by {
            if f.has(x) {
                let i = choose|i: int| 0 <= i < rest.len() && rest[i].id == x;
                let i0 = if i < k { i } else { i + 1 };
                assert(t.pending[i0].id == x);
            }
            if t.has(x) {
                let i = choose|i: int| 0 <= i < t.pending.len() && t.pending[i].id == x;
                assert(i != k);
                let i1 = if i < k { i } else { i - 1 };
                assert(rest[i1].id == x);
            }
        }
        assert forall|x: u64| x != id && t.has(x) implies f.entry(x) == t.entry(x) by {
            let i = index_of(t.pending, x);
            lemma_index_of(t, x, i);
            assert(i != k);
            let i1 = if i < k { i } else { i - 1 };
            assert(rest[i1] == t.pending[i]);
            lemma_index_of(f, x, i1);
        }
    }
}

/// Taking a message keeps the timer well formed, leaves the pending events
/// alone, and hands out the oldest fired message: the output loses exactly
/// its first element. Nothing is handed out while nothing has fired.
pub proof fn lemma_poll<P>(t: TimerView<P>)
    requires
        t.wf(),
    ensures
        ({
            let (p, r) = t.after_poll();
            &&& p.wf()
            &&& p.pending == t.pending
            &&& p.next_id == t.next_id
            &&& t.output().len() == 0 ==> r == None::<TimerMessage<P>> && p == t
            &&& t.output().len() > 0 ==> r == Some(t.output()[0]) && p.output() == t.output().drop_first()
        }),
{
    let (p, r) = t.after_poll();
    if t.queue.len() > 0 {
        assert(p.output() =~= t.output().drop_first());
    }
}

/// Cancelling keeps the timer well formed, marks the event with that id as
/// canceled, and touches nothing else.
pub proof fn lemma_cancel<P>(t: TimerView<P>, id: u64)
    requires
        t.wf(),
    ensures
        ({
            let c = t.after_cancel(id);
            &&& c.wf()
            &&& c.output() == t.output()
            &&& forall|x: u64| c.has(x) == t.has(x)
            &&& t.has(id) ==> c.entry(id) == TimerView::<P>::cancel_entry(t.entry(id), id)
            &&& t.has(id) ==> c.entry(id).canceled
            &&& forall|x: u64| x != id && t.has(x) ==> c.entry(x) == t.entry(x)
        }),
{
    let c = t.after_cancel(id);
    assert forall|i: int| 0 <= i < c.pending.len() implies c.pending[i].id == t.pending[i].id by {}
    assert forall|x: u64| c.has(x) == t.has(x) by {
        if c.has(x) {
            let i = choose|i: int| 0 <= i < c.pending.len() && c.pending[i].id == x;
            assert(t.pending[i].id == x);
        }
        if t.has(x) {
            let i = choose|i: int| 0 <= i < t.pending.len() && t.pending[i].id == x;
            assert(c.pending[i].id == x);
        }
    }
    assert forall|x: u64| t.has(x) implies c.entry(x) == TimerView::<P>::cancel_entry(t.entry(x), id) by {
        let i = index_of(t.pending, x);
        lemma_index_of(t, x, i);
        lemma_index_of(c, x, i);
    }
}

/// Cancellation before the fire decision wins: after `cancel`, firing the
/// event at any time adds nothing to the output, so its message is never
/// observed.
pub proof fn lemma_cancel_before_fire<P>(t: TimerView<P>, id: u64, at: u64)
    requires
        t.wf(),
        t.has(id),
    ensures
        ({
            let c = t.after_cancel(id);
            let (f, r) = c.after_fire(id, at);
            &&& c.output() == t.output()
            &&& f.output() == t.output()
            &&& r == FireOutcome::NotDue || r == FireOutcome::Discarded
        }),
{
    lemma_cancel(t, id);
}

/// A canceled token never reverts: scheduling, cancelling, firing another
/// event and taking a message all leave a canceled pending event canceled.
pub proof fn lemma_cancel_monotonic<P>(
    t: TimerView<P>,
    id: u64,
    other: u64,
    now: u64,
    delay: u64,
    m: TimerMessage<P>,
    at: u64,
)
    requires
        t.wf(),
        t.next_id < u64::MAX,
        fire_time(now, delay) <= u64::MAX,
        t.has(id),
        t.entry(id).canceled,
        other != id,
    ensures
        t.after_send(now, delay, m).has(id),
        t.after_send(now, delay, m).entry(id).canceled,
        forall|x: u64| #[trigger] t.after_cancel(x).has(id) && t.after_cancel(x).entry(id).canceled,
        t.after_fire(other, at).0.has(id),
        t.after_fire(other, at).0.entry(id).canceled,
        t.after_poll().0.has(id),
        t.after_poll().0.entry(id).canceled,
{
    lemma_send(t, now, delay, m);
    assert forall|x: u64| #[trigger] t.after_cancel(x).has(id) && t.after_cancel(x).entry(id).canceled by {
        lemma_cancel(t, x);
    }
    lemma_fire_keeps_others(t, other, at);
    lemma_poll(t);
}

/// Cancelling twice has the effect of cancelling once.
pub proof fn lemma_cancel_idempotent<P>(t: TimerView<P>, id: u64)
    ensures
        t.after_cancel(id).after_cancel(id) == t.after_cancel(id),
{
    assert(t.after_cancel(id).after_cancel(id).pending =~= t.after_cancel(id).pending);
}

/// An event that was never canceled fires exactly once: before its deadline
/// the timer is unchanged; from its deadline on its message joins the end of
/// the output, the event is gone, and firing it again does nothing.
pub proof fn lemma_fire_uncanceled<P>(t: TimerView<P>, id: u64, at: u64, again: u64)
    requires
        t.wf(),
        t.has(id),
        !t.entry(id).canceled,
    ensures
        ({
            let (f, r) = t.after_fire(id, at);
            &&& at < t.entry(id).deadline ==> f == t && r == FireOutcome::NotDue
            &&& at >= t.entry(id).deadline ==> {
                &&& r == FireOutcome::Queued || r == FireOutcome::Waiting
                &&& f.output() == t.output().push(t.entry(id).message)
                &&& !f.has(id)
                &&& f.after_fire(id, again) == (f, FireOutcome::NoSuchEvent)
            }
        }),
{
    let (f, r) = t.after_fire(id, at);
    if at >= t.entry(id).deadline {
        let k = index_of(t.pending, id);
        assert(t.pending[k].id == id);
        assert(f.output() =~= t.output().push(t.entry(id).message));
        lemma_fire_keeps_others(t, id, at);
        if f.has(id) {
            let i = choose|i: int| 0 <= i < f.pending.len() && f.pending[i].id == id;
            let i0 = if i < k { i } else { i + 1 };
            assert(f.pending[i] == t.pending[i0]);
        }
    }
}

/// Messages leave in the order of their fire decisions, whatever the order
/// in which they were scheduled: firing `a` and then `b` appends `a`'s message
/// and then `b`'s.
pub proof fn lemma_fire_order<P>(t: TimerView<P>, a: u64, b: u64, at: u64)
    requires
        t.wf(),
        a != b,
        t.has(a),
        t.has(b),
        !t.entry(a).canceled,
        !t.entry(b).canceled,
        at >= t.entry(a).deadline,
        at >= t.entry(b).deadline,
    ensures
        t.after_fire(a, at).0.after_fire(b, at).0.output() == t.output().push(
            t.entry(a).message,
        ).push(t.entry(b).message),
{
    lemma_fire_uncanceled(t, a, at, at);
    lemma_fire_keeps_others(t, a, at);
    let f = t.after_fire(a, at).0;
    lemma_fire_uncanceled(f, b, at, at);
}

/// A full queue holds a fired message back instead of dropping it: the
/// message waits behind the others, and when the consumer takes one message
/// the oldest waiting one moves into the queue.
pub proof fn lemma_backpressure<P>(t: TimerView<P>, id: u64, at: u64)
    requires
        t.wf(),
        t.queue.len() == QUEUE_CAPACITY,
        t.has(id),
        !t.entry(id).canceled,
        at >= t.entry(id).deadline,
    ensures
        ({
            let (f, r) = t.after_fire(id, at);
            let (p, x) = f.after_poll();
            &&& r == FireOutcome::Waiting
            &&& f.queue == t.queue
            &&& f.waiting == t.waiting.push(t.entry(id).message)
            &&& x == Some(t.queue[0])
            &&& p.queue == t.queue.drop_first().push(f.waiting[0])
            &&& p.queue.len() == QUEUE_CAPACITY
            &&& t.waiting.len() == 0 ==> p.queue.last() == t.entry(id).message
            &&& p.output() == t.output().push(t.entry(id).message).drop_first()
        }),
{
    lemma_fire_uncanceled(t, id, at, at);
    lemma_fire_keeps_others(t, id, at);
    let f = t.after_fire(id, at).0;
    lemma_poll(f);
}

/// A message scheduled at `now` with `delay` and never canceled stays back
/// until `fire_time(now, delay)`, and from then on joins the output once.
pub proof fn lemma_scheduled_fires_after_delay<P>(
    t: TimerView<P>,
    now: u64,
    delay: u64,
    m: TimerMessage<P>,
    at: u64,
)
    requires
        t.wf(),
        t.next_id < u64::MAX,
        fire_time(now, delay) <= u64::MAX,
    ensures
        ({
            let s = t.after_send(now, delay, m);
            let (f, r) = s.after_fire(t.next_id as u64, at);
            &&& at < fire_time(now, delay) ==> f == s && r == FireOutcome::NotDue
            &&& at >= fire_time(now, delay) ==> f.output() == t.output().push(m) && !f.has(
                t.next_id as u64,
            )
        }),
{
    lemma_send(t, now, delay, m);
    let s = t.after_send(now, delay, m);
    lemma_fire_uncanceled(s, t.next_id as u64, at, at);
}

} // verus!
