use peer_timer::timer::{deadline_for, FireOutcome, Timer, TimerMessage, QUEUE_CAPACITY, TIMER_RESOLUTION_MS};
use std::rc::Rc;

const SLACK: u64 = 2 * TIMER_RESOLUTION_MS;

#[test]
fn deadline_adds_delay_and_slack() {
    assert_eq!(deadline_for(0, 0), Some(200));
    assert_eq!(deadline_for(1_000, 25_000), Some(26_200));
    assert_eq!(deadline_for(u64::MAX - 200, 0), Some(u64::MAX));
    assert_eq!(deadline_for(u64::MAX - 199, 0), None);
    assert_eq!(deadline_for(5, u64::MAX), None);
    assert_eq!(deadline_for(u64::MAX, u64::MAX), None);
}

#[test]
fn new_timer_yields_nothing() {
    let mut t: Timer<u32> = Timer::new();
    assert_eq!(t.next_id(), 0);
    assert!(t.poll().is_none());
    assert_eq!(t.fire(0, 1_000_000), FireOutcome::NoSuchEvent);
}

#[test]
fn handles_get_fresh_ids() {
    let mut t: Timer<u32> = Timer::new();
    let a = t.send_after(0, 10, TimerMessage::Wipe(1));
    let b = t.send_after(0, 10, TimerMessage::Wipe(2));
    assert_eq!(a.id(), 0);
    assert_eq!(b.id(), 1);
    assert_eq!(t.next_id(), 2);
    assert!(!a.is_canceled());
}

#[test]
fn rekey_canceled_before_fire_is_never_observed() {
    let mut t: Timer<u32> = Timer::new();
    let mut h = t.send_after(0, 120_000, TimerMessage::Rekey(7, 1));
    h.cancel(&mut t);
    assert!(h.is_canceled());
    assert_eq!(t.fire(h.id(), 10_000), FireOutcome::NotDue);
    assert_eq!(t.fire(h.id(), 120_000 + SLACK), FireOutcome::Discarded);
    assert!(t.poll().is_none());
    assert_eq!(t.fire(h.id(), 200_000), FireOutcome::NoSuchEvent);
    assert!(t.poll().is_none());
}

#[test]
fn keepalive_fires_once_not_before_slack() {
    let mut t: Timer<u32> = Timer::new();
    let h = t.send_after(0, 25_000, TimerMessage::PersistentKeepAlive(3));
    assert_eq!(t.fire(h.id(), 25_000), FireOutcome::NotDue);
    assert_eq!(t.fire(h.id(), 25_000 + SLACK - 1), FireOutcome::NotDue);
    assert!(t.poll().is_none());
    assert_eq!(t.fire(h.id(), 25_000 + SLACK), FireOutcome::Queued);
    assert!(matches!(t.poll(), Some(TimerMessage::PersistentKeepAlive(3))));
    assert_eq!(t.fire(h.id(), 30_000), FireOutcome::NoSuchEvent);
    assert!(t.poll().is_none());
}

#[test]
fn cancel_twice_same_as_once() {
    let mut t: Timer<u32> = Timer::new();
    let mut h = t.send_after(0, 50, TimerMessage::PassiveKeepAlive(1));
    let keep = t.send_after(0, 50, TimerMessage::PassiveKeepAlive(2));
    h.cancel(&mut t);
    h.cancel(&mut t);
    assert!(h.is_canceled());
    assert_eq!(t.fire(h.id(), 1_000), FireOutcome::Discarded);
    assert_eq!(t.fire(keep.id(), 1_000), FireOutcome::Queued);
    assert!(matches!(t.poll(), Some(TimerMessage::PassiveKeepAlive(2))));
    assert!(t.poll().is_none());
}

#[test]
fn cancel_after_fire_has_no_effect() {
    let mut t: Timer<u32> = Timer::new();
    let mut h = t.send_after(0, 0, TimerMessage::Rekey(4, 2));
    assert_eq!(t.fire(h.id(), SLACK), FireOutcome::Queued);
    h.cancel(&mut t);
    assert!(matches!(t.poll(), Some(TimerMessage::Rekey(4, 2))));
}

#[test]
fn output_follows_fire_order_not_schedule_order() {
    let mut t: Timer<u32> = Timer::new();
    let a = t.send_after(0, 100, TimerMessage::Rekey(1, 1));
    let b = t.send_after(0, 10, TimerMessage::Rekey(2, 1));
    assert_eq!(t.fire(b.id(), 210), FireOutcome::Queued);
    assert_eq!(t.fire(a.id(), 300), FireOutcome::Queued);
    assert!(matches!(t.poll(), Some(TimerMessage::Rekey(2, 1))));
    assert!(matches!(t.poll(), Some(TimerMessage::Rekey(1, 1))));
    assert!(t.poll().is_none());
}

#[test]
fn wipe_delivered_after_peer_dropped() {
    let peer = Rc::new(String::from("peer"));
    let mut t: Timer<std::rc::Weak<String>> = Timer::new();
    let h = t.send_after(0, 180_000, TimerMessage::Wipe(Rc::downgrade(&peer)));
    drop(peer);
    assert_eq!(t.fire(h.id(), 180_000 + SLACK), FireOutcome::Queued);
    match t.poll() {
        Some(TimerMessage::Wipe(w)) => assert!(w.upgrade().is_none()),
        _ => panic!("expected a wipe message"),
    }
}

#[test]
fn full_queue_holds_message_back() {
    let mut t: Timer<usize> = Timer::new();
    for i in 0..QUEUE_CAPACITY {
        let h = t.send_after(0, 0, TimerMessage::Wipe(i));
        assert_eq!(t.fire(h.id(), SLACK), FireOutcome::Queued);
    }
    let extra = t.send_after(0, 0, TimerMessage::Wipe(QUEUE_CAPACITY));
    let extra2 = t.send_after(0, 0, TimerMessage::Wipe(QUEUE_CAPACITY + 1));
    assert_eq!(t.fire(extra.id(), SLACK), FireOutcome::Waiting);
    assert_eq!(t.fire(extra2.id(), SLACK), FireOutcome::Waiting);
    for i in 0..QUEUE_CAPACITY + 2 {
        match t.poll() {
            Some(TimerMessage::Wipe(n)) => assert_eq!(n, i),
            _ => panic!("expected message {}", i),
        }
    }
    assert!(t.poll().is_none());
}

#[test]
fn unknown_id_changes_nothing() {
    let mut t: Timer<u32> = Timer::new();
    let h = t.send_after(0, 0, TimerMessage::Wipe(9));
    assert_eq!(t.fire(h.id() + 1, 10_000), FireOutcome::NoSuchEvent);
    assert!(t.poll().is_none());
    assert_eq!(t.fire(h.id(), 10_000), FireOutcome::Queued);
    assert!(matches!(t.poll(), Some(TimerMessage::Wipe(9))));
}
