//! Logical-clock behaviour: one-shot callbacks fire exactly once, in
//! deadline order, and past deadlines fire on the next tick.

use kcore::clock::{Callback, Clock};

#[test]
fn callback_fires_exactly_once() {
    let mut clock = Clock::new();
    clock.callback_at(1_000, Callback::Event(7));
    // advancing to the deadline fires it once
    let fired = clock.tick(1_000);
    assert_eq!(fired.len(), 1);
    assert_eq!(fired[0], (1_000, Callback::Event(7)));
    // and never again
    let fired = clock.tick(5_000);
    assert_eq!(fired.len(), 0);
    assert_eq!(clock.callbacks.len(), 0);
}

#[test]
fn past_deadline_fires_on_next_tick() {
    let mut clock = Clock::new();
    let _ = clock.tick(10_000);
    // schedule for a deadline already in the past
    clock.callback_at(500, Callback::Event(1));
    let fired = clock.tick(1);
    assert_eq!(fired.len(), 1);
    assert_eq!(fired[0], (500, Callback::Event(1)));
}

#[test]
fn callbacks_fire_in_deadline_order() {
    let mut clock = Clock::new();
    clock.callback_at(3_000, Callback::Event(3));
    clock.callback_at(1_000, Callback::Event(1));
    clock.callback_at(2_000, Callback::Event(2));
    let fired = clock.tick(2_500);
    assert_eq!(fired.len(), 2);
    assert_eq!(fired[0], (1_000, Callback::Event(1)));
    assert_eq!(fired[1], (2_000, Callback::Event(2)));
    // the rest stays queued
    assert_eq!(clock.callbacks.len(), 1);
    assert_eq!(clock.callbacks[0], (3_000, Callback::Event(3)));
}

#[test]
fn equal_deadlines_keep_registration_order() {
    let mut clock = Clock::new();
    clock.callback_at(1_000, Callback::Event(1));
    clock.callback_at(1_000, Callback::Event(2));
    clock.callback_at(1_000, Callback::Event(3));
    let fired = clock.tick(1_000);
    assert_eq!(fired.len(), 3);
    assert_eq!(fired[0].1, Callback::Event(1));
    assert_eq!(fired[1].1, Callback::Event(2));
    assert_eq!(fired[2].1, Callback::Event(3));
}

#[test]
fn tick_accumulates_and_get_tick_syncs() {
    let mut clock = Clock::new();
    let _ = clock.tick(250);
    let _ = clock.tick(750);
    assert_eq!(clock.ticks, 1_000);
    let now = clock.get_tick(1_500);
    assert_eq!(now, 1_500);
    assert_eq!(clock.ticks, 1_500);
}

#[test]
fn sleep_computes_deadline() {
    let mut clock = Clock::new();
    let _ = clock.tick(2_000_000);
    let until = kcore::clock::sleep(&clock, 3);
    assert_eq!(until, 2_000_000 + 3_000_000);
}
