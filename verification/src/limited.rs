//! The accumulator with a limit: besides handing over the total of every
//! complete batch, it reports when the running total of an open batch reaches
//! the limit.
use vstd::prelude::*;
use crate::engine::{Tally, Notification, step, calls_of};
pub use crate::callbacks::CallbackHolder;
use crate::callbacks::LimitedCallbacks;

verus! {

/// The bare state: the open batch, the batch size and the limit.
#[derive(Clone, Copy)]
pub struct LimitedAccumulatorSys {
    pub accumulated_count: i32,
    pub accumulated_sum: i32,
    pub max_accumulated: i32,
    pub limit: i32,
}

impl View for LimitedAccumulatorSys {
    type V = Tally;

    open spec fn view(&self) -> Tally {
        Tally {
            count: self.accumulated_count as int,
            sum: self.accumulated_sum,
            max: self.max_accumulated,
            limit: Some(self.limit),
        }
    }
}

impl LimitedAccumulatorSys {
    /// The count of the open batch can always grow by one.
    pub open spec fn wf(&self) -> bool {
        self.accumulated_count < i32::MAX
    }

    /// An empty batch that closes after `max_accumulated` numbers, with `limit`.
    pub fn new(max_accumulated: i32, limit: i32) -> (r: Self)
        ensures
            r.wf(),
            r@ == (Tally { count: 0, sum: 0, max: max_accumulated, limit: Some(limit) }),
    {
        LimitedAccumulatorSys { accumulated_count: 0, accumulated_sum: 0, max_accumulated, limit }
    }

    /// Adds `number` to the open batch and says what that announces.
    pub fn accumulate(&mut self, number: i32) -> (r: Notification)
        requires
            old(self).wf(),
        ensures
            final(self).wf(),
            final(self)@ == step(old(self)@, number).0,
            r == step(old(self)@, number).1,
    {
        let sum = self.accumulated_sum.wrapping_add(number);
        let count = self.accumulated_count + 1;
        if count >= self.max_accumulated {
            self.accumulated_count = 0;
            self.accumulated_sum = 0;
            Notification::Accumulated(sum)
        } else {
            self.accumulated_count = count;
            self.accumulated_sum = sum;
            if sum >= self.limit {
                Notification::LimitReached
            } else {
                Notification::Nothing
            }
        }
    }
}

/// An accumulator with a limit, which calls its callbacks as batches close
/// and as open batches reach the limit.
pub struct Accumulator<R: FnMut(i32), L: FnMut()> {
    inner: LimitedAccumulatorSys,
    callback: LimitedCallbacks<R, L>,
}

impl<R: FnMut(i32), L: FnMut()> Accumulator<R, L> {
    #[verifier::type_invariant]
    spec fn well_formed(&self) -> bool {
        self.inner.wf()
    }

    /// The state of the open batch.
    pub closed spec fn tally(&self) -> Tally {
        self.inner@
    }

    /// The registered callbacks, if any.
    pub closed spec fn callbacks(&self) -> Option<CallbackHolder<R, L>> {
        self.callback.holder()
    }

    /// Every call made to a callback so far, in order: `Accumulated(total)`
    /// for the result callback called with `total`, `LimitReached` for the
    /// limit callback.
    pub closed spec fn calls(&self) -> Seq<Notification> {
        self.callback.calls()
    }

    /// An accumulator whose batches hold `max_numbers` numbers and whose limit
    /// is `limit`, with no callbacks yet.
    pub fn new(max_numbers: i32, limit: i32) -> (r: Self)
        ensures
            r.tally() == (Tally { count: 0, sum: 0, max: max_numbers, limit: Some(limit) }),
            r.callbacks() is None,
            r.calls() == Seq::<Notification>::empty(),
    {
        Accumulator {
            inner: LimitedAccumulatorSys::new(max_numbers, limit),
            callback: LimitedCallbacks::new(),
        }
    }

    /// Registers the two callbacks, replacing any earlier ones; the open batch
    /// is kept.
    pub fn register_callbacks(&mut self, on_result: R, on_limit: L)
        requires
            forall|v: i32| call_requires(on_result, (v,)),
            call_requires(on_limit, ()),
        ensures
            final(self).tally() == old(self).tally(),
            final(self).callbacks() matches Some(h) && h.result_callback() == on_result
                && h.limit_callback() == on_limit,
            final(self).calls() == old(self).calls(),
    {
        proof {
            use_type_invariant(&*self);
        }
        let mut callback = LimitedCallbacks::new();
        std::mem::swap(&mut callback, &mut self.callback);
        callback.install(on_result, on_limit);
        self.callback = callback;
    }

    /// Adds `value`. When it completes a batch, the result callback is called
    /// once with the batch's total; when instead the open batch's total reaches
    /// the limit, the limit callback is called once; otherwise no callback is
    /// called. Without callbacks nothing is called, and the batch advances all
    /// the same.
    pub fn add(&mut self, value: i32)
        ensures
            final(self).tally() == step(old(self).tally(), value).0,
            final(self).callbacks() == old(self).callbacks(),
            old(self).callbacks() is None ==> final(self).calls() == old(self).calls(),
            old(self).callbacks() matches Some(h) ==> {
                &&& final(self).calls() == old(self).calls() + calls_of(step(old(self).tally(), value).1)
                &&& match step(old(self).tally(), value).1 {
                    Notification::Accumulated(total) => call_ensures(h.result_callback(), (total,), ()),
                    Notification::LimitReached => call_ensures(h.limit_callback(), (), ()),
                    Notification::Nothing => true,
                }
            },
    {
        proof {
            use_type_invariant(&*self);
        }
        let mut inner = self.inner;
        let notification = inner.accumulate(value);
        self.inner = inner;
        let mut callback = LimitedCallbacks::new();
        std::mem::swap(&mut callback, &mut self.callback);
        callback.dispatch(notification);
        self.callback = callback;
    }
}

} // verus!
