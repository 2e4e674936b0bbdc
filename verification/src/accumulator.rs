//! The plain accumulator: numbers are added in batches of `max_accumulated`,
//! and the total of each complete batch goes to one callback.
use vstd::prelude::*;
use crate::engine::{Tally, step, reported, totals_of};
use crate::callbacks::TotalCallback;

verus! {

/// The bare accumulator state: the open batch and the batch size.
#[derive(Clone, Copy)]
pub struct AccumulatorSys {
    pub accumulated_count: i32,
    pub accumulated_sum: i32,
    pub max_accumulated: i32,
}

impl View for AccumulatorSys {
    type V = Tally;

    open spec fn view(&self) -> Tally {
        Tally {
            count: self.accumulated_count as int,
            sum: self.accumulated_sum,
            max: self.max_accumulated,
            limit: None,
        }
    }
}

impl AccumulatorSys {
    /// The count of the open batch can always grow by one.
    pub open spec fn wf(&self) -> bool {
        self.accumulated_count < i32::MAX
    }

    /// An empty batch that closes after `max_accumulated` numbers.
    pub fn new(max_accumulated: i32) -> (r: Self)
        ensures
            r.wf(),
            r@ == (Tally { count: 0, sum: 0, max: max_accumulated, limit: None }),
    {
        AccumulatorSys { accumulated_count: 0, accumulated_sum: 0, max_accumulated }
    }

    /// Adds `number` to the open batch; returns the batch's total when this
    /// number completes it.
    pub fn accumulate(&mut self, number: i32) -> (r: Option<i32>)
        requires
            old(self).wf(),
        ensures
            final(self).wf(),
            final(self)@ == step(old(self)@, number).0,
            r == reported(step(old(self)@, number).1),
    {
        let sum = self.accumulated_sum.wrapping_add(number);
        let count = self.accumulated_count + 1;
        if count >= self.max_accumulated {
            self.accumulated_count = 0;
            self.accumulated_sum = 0;
            Some(sum)
        } else {
            self.accumulated_count = count;
            self.accumulated_sum = sum;
            None
        }
    }
}

/// The callback can be called with every `i32`.
pub open spec fn accepts_every_total<F: FnMut(i32)>(f: F) -> bool {
    forall|v: i32| call_requires(f, (v,))
}

/// An accumulator that hands the total of every complete batch to a callback
/// borrowed for `'a`.
pub struct Accumulator<'a, F: FnMut(i32)> {
    inner: AccumulatorSys,
    callback: TotalCallback<'a, F>,
}

impl<'a, F: FnMut(i32)> Accumulator<'a, F> {
    #[verifier::type_invariant]
    spec fn well_formed(&self) -> bool {
        self.inner.wf()
    }

    /// The state of the open batch.
    pub closed spec fn tally(&self) -> Tally {
        self.inner@
    }

    /// The registered callback, if any.
    pub closed spec fn callback(&self) -> Option<F> {
        self.callback.callback()
    }

    /// Every batch total handed to a callback so far, in order.
    pub closed spec fn delivered(&self) -> Seq<i32> {
        self.callback.delivered()
    }

    /// An accumulator whose batches hold `max_numbers` numbers, with no
    /// callback yet.
    pub fn new(max_numbers: i32) -> (r: Self)
        ensures
            r.tally() == (Tally { count: 0, sum: 0, max: max_numbers, limit: None }),
            r.callback() is None,
            r.delivered() == Seq::<i32>::empty(),
    {
        Accumulator { inner: AccumulatorSys::new(max_numbers), callback: TotalCallback::new() }
    }

    /// Adds `num`. When it completes a batch, the registered callback, if any,
    /// is called once with the batch's total; otherwise no callback is called.
    pub fn add(&mut self, num: i32)
        ensures
            final(self).tally() == step(old(self).tally(), num).0,
            final(self).callback() == old(self).callback(),
            old(self).callback() is None ==> final(self).delivered() == old(self).delivered(),
            old(self).callback() matches Some(f) ==> {
                &&& final(self).delivered() == old(self).delivered() + totals_of(step(old(self).tally(), num).1)
                &&& reported(step(old(self).tally(), num).1) matches Some(total) ==> call_ensures(f, (total,), ())
            },
    {
        proof {
            use_type_invariant(&*self);
        }
        let mut inner = self.inner;
        let reported_total = inner.accumulate(num);
        self.inner = inner;
        if let Some(total) = reported_total {
            let mut callback = TotalCallback::new();
            std::mem::swap(&mut callback, &mut self.callback);
            callback.deliver(total);
            self.callback = callback;
        }
    }

    /// Registers `cb` as the callback for batch totals, replacing any earlier
    /// one; the open batch is kept.
    pub fn register_callback(&mut self, cb: &'a mut F)
        requires
            accepts_every_total(*old(cb)),
        ensures
            final(self).tally() == old(self).tally(),
            final(self).callback() == Some(*old(cb)),
            final(self).delivered() == old(self).delivered(),
    {
        proof {
            use_type_invariant(&*self);
        }
        let mut callback = TotalCallback::new();
        std::mem::swap(&mut callback, &mut self.callback);
        callback.install(cb);
        self.callback = callback;
    }
}

} // verus!
