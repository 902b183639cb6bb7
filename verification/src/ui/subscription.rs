//! Timers declared by a component for its current state.

use vstd::prelude::*;
use std::time::Duration;
use crate::ui::handler::Handler;

verus! {

/// The whole number of milliseconds in `d` (`Duration::as_millis`).
pub uninterp spec fn duration_millis(d: Duration) -> u128;

/// `Duration::as_millis`: the total number of whole milliseconds in `d`.
#[verifier::external_body]
fn millis_of(d: Duration) -> (ms: u128)
    ensures
        ms == duration_millis(d),
{
    d.as_millis()
}

/// `b` is a clone of `*a`.
pub open spec fn clone_of<T: Clone>(a: &T, b: T) -> bool {
    cloned(*a, b)
}

/// A running timer: every `interval_ms` milliseconds it produces a message.
/// Build one with [`every`] (a fixed message) or [`every_with`] (a message
/// computed per tick).
#[verifier::reject_recursive_types(Msg)]
pub struct Subscription<Msg> {
    pub interval_ms: u64,
    pub make: Handler<(), Msg>,
}

/// Emits `msg` every `interval`, truncated to whole milliseconds (the native
/// timer's resolution; the count wraps to 64 bits as an `as` cast does).
pub fn every<Msg: Clone + 'static>(interval: Duration, msg: Msg) -> (s: Subscription<Msg>)
    ensures
        s.interval_ms == duration_millis(interval) as u64,
        forall|m: Msg| s.make.yields((), m) ==> cloned(msg, m),
{
    let ms = millis_of(interval);
    let tick = move |_u: ()| -> (m: Msg)
        ensures
            clone_of(&msg, m),
        { msg.clone() };
    Subscription { interval_ms: ms as u64, make: Handler::new(tick) }
}

/// Like [`every`], but calls `f` afresh on each tick for the message.
pub fn every_with<Msg, F: Fn() -> Msg + 'static>(interval: Duration, f: F) -> (s: Subscription<
    Msg,
>)
    ensures
        s.interval_ms == duration_millis(interval) as u64,
        forall|m: Msg| s.make.yields((), m) == (call_requires(f, ()) ==> call_ensures(f, (), m)),
{
    let ms = millis_of(interval);
    Subscription { interval_ms: ms as u64, make: Handler::from_thunk(f) }
}

} // verus!
