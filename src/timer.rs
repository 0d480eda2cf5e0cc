//! The timer leaf computation: a completion cell that a background source
//! finishes once its delay has elapsed.
use vstd::prelude::*;
use crate::cell::{CellView, Progress, SharedState, initial_cell, polled, fired};
use crate::delay::Delay;

verus! {

/// A single-shot timer. Whoever runs the delay calls `fire` once it has
/// elapsed and invokes the handle it returns; each drive of the timer is a
/// call of `poll` with the current resumption handle.
pub struct TimerFuture<W> {
    shared_state: SharedState<W>,
    duration: Delay,
}

impl<W> View for TimerFuture<W> {
    type V = CellView<W>;

    closed spec fn view(&self) -> CellView<W> {
        self.shared_state@
    }
}

impl<W> TimerFuture<W> {
    /// The delay this timer was made with.
    pub closed spec fn spec_duration(&self) -> Delay {
        self.duration
    }

    /// A timer that is to complete after `duration`: not completed yet,
    /// with no resumption handle parked.
    pub fn new(duration: Delay) -> (t: Self)
        ensures
            t@ == initial_cell::<W>(),
            t.spec_duration() == duration,
    {
        TimerFuture { shared_state: SharedState::new(), duration }
    }

    pub fn duration(&self) -> (d: Delay)
        ensures
            d == self.spec_duration(),
    {
        self.duration
    }

    pub fn is_completed(&self) -> (r: bool)
        ensures
            r == self@.completed,
    {
        self.shared_state.is_completed()
    }

    /// One drive of the timer with resumption handle `waker`.
    pub fn poll(&mut self, waker: W) -> (r: Progress)
        ensures
            (final(self)@, r) == polled(old(self)@, waker),
            final(self).spec_duration() == old(self).spec_duration(),
    {
        self.shared_state.poll(waker)
    }

    /// The delay has elapsed: completes the timer and hands out the parked
    /// resumption handle, if any.
    pub fn fire(&mut self) -> (r: Option<W>)
        ensures
            (final(self)@, r) == fired(old(self)@),
            final(self).spec_duration() == old(self).spec_duration(),
    {
        self.shared_state.fire()
    }
}

} // verus!
