//! The state behind one websocket session: every request carries a number for
//! the session's accumulator, whose batch totals go back to the client.
use vstd::prelude::*;
use crate::accumulator::{Accumulator, accepts_every_total};
use crate::engine::{Tally, step, totals_of};

verus! {

/// The size of the batches a session accumulates.
pub const SESSION_BATCH_SIZE: i32 = 2;

/// A client's request: one number to accumulate.
#[derive(Clone, Copy, Debug, PartialEq, Eq, Structural)]
pub struct Request {
    pub number: i32,
}

/// What the session's input stream delivers next.
#[derive(Clone, Copy, Debug, PartialEq, Eq, Structural)]
pub enum SessionEvent {
    /// A text message whose request carries this number.
    Number(i32),
    /// A message that is not text.
    NotText,
    /// The input stream failed.
    StreamError,
}

/// What the session does after an event.
#[derive(Clone, Copy, Debug, PartialEq, Eq, Structural)]
pub enum SessionAction {
    /// Keep reading the input stream.
    Continue,
    /// Stop reading: the session is over.
    Stop,
}

/// The accumulator of one session.
pub struct State<'a, F: FnMut(i32)> {
    accumulator: Accumulator<'a, F>,
}

impl<'a, F: FnMut(i32)> State<'a, F> {
    /// The session's open batch.
    pub closed spec fn tally(&self) -> Tally {
        self.accumulator.tally()
    }

    /// The callback that receives the session's batch totals, if any.
    pub closed spec fn callback(&self) -> Option<F> {
        self.accumulator.callback()
    }

    /// Every batch total handed to a callback so far, in order.
    pub closed spec fn delivered(&self) -> Seq<i32> {
        self.accumulator.delivered()
    }

    /// Registers the callback that receives the session's batch totals.
    pub fn register_callback(&mut self, cb: &'a mut F)
        requires
            accepts_every_total(*old(cb)),
        ensures
            final(self).tally() == old(self).tally(),
            final(self).callback() == Some(*old(cb)),
            final(self).delivered() == old(self).delivered(),
    {
        self.accumulator.register_callback(cb)
    }

    /// Accumulates the number that `request` carries.
    pub fn handle_request(&mut self, request: Request)
        ensures
            final(self).tally() == step(old(self).tally(), request.number).0,
            final(self).callback() == old(self).callback(),
            old(self).callback() is None ==> final(self).delivered() == old(self).delivered(),
            old(self).callback() matches Some(f) ==> {
                &&& final(self).delivered() == old(self).delivered() + totals_of(
                    step(old(self).tally(), request.number).1,
                )
                &&& crate::engine::reported(step(old(self).tally(), request.number).1) matches Some(
                    total,
                ) ==> call_ensures(f, (total,), ())
            },
    {
        self.accumulator.add(request.number)
    }

    /// Decides what one event of the input stream does: a number is
    /// accumulated, a message that is not text is skipped, and a stream error
    /// ends the session.
    pub fn on_event(&mut self, e: SessionEvent) -> (a: SessionAction)
        ensures
            final(self).callback() == old(self).callback(),
            e matches SessionEvent::Number(n) ==> {
                &&& final(self).tally() == step(old(self).tally(), n).0
                &&& a == SessionAction::Continue
                &&& old(self).callback() is None ==> final(self).delivered() == old(self).delivered()
                &&& old(self).callback() matches Some(f) ==> {
                    &&& final(self).delivered() == old(self).delivered() + totals_of(
                        step(old(self).tally(), n).1,
                    )
                    &&& crate::engine::reported(step(old(self).tally(), n).1) matches Some(total)
                        ==> call_ensures(f, (total,), ())
                }
            },
            e == SessionEvent::NotText ==> final(self).tally() == old(self).tally() && a
                == SessionAction::Continue && final(self).delivered() == old(self).delivered(),
            e == SessionEvent::StreamError ==> final(self).tally() == old(self).tally() && a
                == SessionAction::Stop && final(self).delivered() == old(self).delivered(),
    {
        match e {
            SessionEvent::Number(number) => {
                self.handle_request(Request { number });
                SessionAction::Continue
            },
            SessionEvent::NotText => SessionAction::Continue,
            SessionEvent::StreamError => SessionAction::Stop,
        }
    }
}

impl<'a, F: FnMut(i32)> Default for State<'a, F> {
    /// A session with an empty batch of `SESSION_BATCH_SIZE` and no callback.
    fn default() -> (r: Self)
        ensures
            r.tally() == (Tally { count: 0, sum: 0, max: SESSION_BATCH_SIZE, limit: None }),
            r.callback() is None,
            r.delivered() == Seq::<i32>::empty(),
    {
        State { accumulator: Accumulator::new(SESSION_BATCH_SIZE) }
    }
}

} // verus!
