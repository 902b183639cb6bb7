//! The message queue between widget events and the component: messages wait
//! in the order they were emitted, and a flush is scheduled on the event loop
//! at most once until it runs, so a burst of events costs one re-render. A
//! re-entrant flush (one delivered while a flush is already running, e.g.
//! from a nested event loop) does nothing; the running flush picks its
//! messages up.

use vstd::prelude::*;
use std::collections::VecDeque;

verus! {

/// What a dispatch queue holds.
pub struct DispatchView<Msg> {
    /// Messages not yet applied, oldest first.
    pub pending: Seq<Msg>,
    /// A flush has been posted to the event loop and has not started a round.
    pub scheduled: bool,
    /// A flush is running.
    pub in_flush: bool,
}

#[verifier::reject_recursive_types(Msg)]
pub struct Dispatch<Msg> {
    queue: VecDeque<Msg>,
    scheduled: bool,
    in_flush: bool,
}

impl<Msg> View for Dispatch<Msg> {
    type V = DispatchView<Msg>;

    closed spec fn view(&self) -> DispatchView<Msg> {
        DispatchView { pending: self.queue@, scheduled: self.scheduled, in_flush: self.in_flush }
    }
}

/// The state after emitting `msg`, and whether the emitter must post a flush.
pub open spec fn emit_spec<Msg>(d: DispatchView<Msg>, msg: Msg) -> (DispatchView<Msg>, bool) {
    (DispatchView { pending: d.pending.push(msg), scheduled: true, in_flush: d.in_flush }, !d.scheduled)
}

impl<Msg> Dispatch<Msg> {
    pub fn new() -> (d: Self)
        ensures
            d@.pending.len() == 0,
            !d@.scheduled,
            !d@.in_flush,
    {
        Dispatch { queue: VecDeque::new(), scheduled: false, in_flush: false }
    }

    /// Queues `msg`. Returns whether a flush must be posted to the event loop:
    /// only when none is already pending.
    pub fn emit(&mut self, msg: Msg) -> (post: bool)
        ensures
            (final(self)@, post) == emit_spec(old(self)@, msg),
    {
        self.queue.push_back(msg);
        let post = !self.scheduled;
        self.scheduled = true;
        post
    }

    /// Enters a flush. Returns `false`, changing nothing, when a flush is
    /// already running.
    pub fn begin_flush(&mut self) -> (go: bool)
        ensures
            go == !old(self)@.in_flush,
            final(self)@ == (DispatchView { in_flush: true, ..old(self)@ }),
    {
        if self.in_flush {
            false
        } else {
            self.in_flush = true;
            true
        }
    }

    /// Starts a round of the running flush: later emits post a fresh one.
    pub fn start_round(&mut self)
        ensures
            final(self)@ == (DispatchView { scheduled: false, ..old(self)@ }),
    {
        self.scheduled = false;
    }

    /// The oldest pending message, removed from the queue.
    pub fn next(&mut self) -> (m: Option<Msg>)
        ensures
            old(self)@.pending.len() == 0 ==> m is None && final(self)@ == old(self)@,
            old(self)@.pending.len() > 0 ==> m == Some(old(self)@.pending[0]) && final(self)@ == (
            DispatchView { pending: old(self)@.pending.drop_first(), ..old(self)@ }),
    {
        let m = self.queue.pop_front();
        proof {
            if old(self)@.pending.len() > 0 {
                assert(self.queue@ =~= old(self)@.pending.drop_first());
            }
        }
        m
    }

    /// Whether a message arrived since the round started, so the flush must
    /// run another round before it ends.
    pub fn again(&self) -> (again: bool)
        ensures
            again == self@.scheduled,
    {
        self.scheduled
    }

    /// Leaves the flush.
    pub fn end_flush(&mut self)
        ensures
            final(self)@ == (DispatchView { in_flush: false, ..old(self)@ }),
    {
        self.in_flush = false;
    }
}

/// Emits coalesce: after one emit, further emits post no flush until the
/// flush starts a round, and the messages wait in the order emitted.
pub proof fn law_emits_coalesce<Msg>(d: DispatchView<Msg>, a: Msg, b: Msg)
    ensures
        !emit_spec(emit_spec(d, a).0, b).1,
        emit_spec(emit_spec(d, a).0, b).0.pending == d.pending + seq![a, b],
        emit_spec(d, a).1 == !d.scheduled,
{
    assert(emit_spec(emit_spec(d, a).0, b).0.pending =~= d.pending + seq![a, b]);
}

} // verus!
