//! The callbacks of the accumulators. They can only be reached through the
//! types here, and each of those keeps a log of every call it has made, so
//! that a contract can say exactly which calls an operation makes.
use vstd::prelude::*;
use crate::engine::{Notification, calls_of};
use crate::accumulator::accepts_every_total;

verus! {

/// A callback for batch totals, borrowed for `'a`, with the log of the totals
/// it has been handed.
pub struct TotalCallback<'a, F: FnMut(i32)> {
    callback: Option<&'a mut F>,
    delivered: Ghost<Seq<i32>>,
}

impl<'a, F: FnMut(i32)> TotalCallback<'a, F> {
    #[verifier::type_invariant]
    spec fn well_formed(&self) -> bool {
        self.callback matches Some(f) ==> accepts_every_total(*f)
    }

    /// The installed callback, if any.
    pub closed spec fn callback(&self) -> Option<F> {
        match self.callback {
            Some(f) => Some(*f),
            None => None,
        }
    }

    /// Every total handed to a callback so far, in order.
    pub closed spec fn delivered(&self) -> Seq<i32> {
        self.delivered@
    }

    /// No callback, nothing handed on yet.
    pub fn new() -> (r: Self)
        ensures
            r.callback() is None,
            r.delivered() == Seq::<i32>::empty(),
    {
        TotalCallback { callback: None, delivered: Ghost(Seq::empty()) }
    }

    /// Installs `cb` in place of any earlier callback.
    pub fn install(&mut self, cb: &'a mut F)
        requires
            accepts_every_total(*old(cb)),
        ensures
            final(self).callback() == Some(*old(cb)),
            final(self).delivered() == old(self).delivered(),
    {
        self.callback = Some(cb);
    }

    /// Hands `total` to the installed callback, once; without a callback
    /// nothing is called.
    pub fn deliver(&mut self, total: i32)
        ensures
            final(self).callback() == old(self).callback(),
            old(self).callback() matches Some(f) ==> final(self).delivered() == old(self).delivered().push(total)
                && call_ensures(f, (total,), ()),
            old(self).callback() is None ==> final(self).delivered() == old(self).delivered(),
    {
        proof {
            use_type_invariant(&*self);
        }
        let mut callback = None;
        std::mem::swap(&mut callback, &mut self.callback);
        match callback {
            Some(f) => {
                f(total);
                self.callback = Some(f);
                self.delivered = Ghost(self.delivered@.push(total));
            },
            None => {},
        }
    }
}

/// The two callbacks of an accumulator with a limit: one for batch totals,
/// one for the limit.
pub struct CallbackHolder<R: FnMut(i32), L: FnMut()> {
    on_result: R,
    on_limit: L,
}

impl<R: FnMut(i32), L: FnMut()> CallbackHolder<R, L> {
    /// The callback for batch totals.
    pub closed spec fn result_callback(&self) -> R {
        self.on_result
    }

    /// The callback for the limit.
    pub closed spec fn limit_callback(&self) -> L {
        self.on_limit
    }

    spec fn callable(&self) -> bool {
        &&& forall|v: i32| call_requires(self.on_result, (v,))
        &&& call_requires(self.on_limit, ())
    }
}

/// The callbacks of an accumulator with a limit, if registered, with the log
/// of every call made to them: `Accumulated(total)` for a call of the result
/// callback with `total`, `LimitReached` for a call of the limit callback.
pub struct LimitedCallbacks<R: FnMut(i32), L: FnMut()> {
    holder: Option<CallbackHolder<R, L>>,
    calls: Ghost<Seq<Notification>>,
}

impl<R: FnMut(i32), L: FnMut()> LimitedCallbacks<R, L> {
    #[verifier::type_invariant]
    spec fn well_formed(&self) -> bool {
        self.holder matches Some(h) ==> h.callable()
    }

    /// The registered callbacks, if any.
    pub closed spec fn holder(&self) -> Option<CallbackHolder<R, L>> {
        self.holder
    }

    /// Every call made so far, in order.
    pub closed spec fn calls(&self) -> Seq<Notification> {
        self.calls@
    }

    /// No callbacks, no calls yet.
    pub fn new() -> (r: Self)
        ensures
            r.holder() is None,
            r.calls() == Seq::<Notification>::empty(),
    {
        LimitedCallbacks { holder: None, calls: Ghost(Seq::empty()) }
    }

    /// Installs the two callbacks in place of any earlier ones.
    pub fn install(&mut self, on_result: R, on_limit: L)
        requires
            forall|v: i32| call_requires(on_result, (v,)),
            call_requires(on_limit, ()),
        ensures
            final(self).holder() matches Some(h) && h.result_callback() == on_result
                && h.limit_callback() == on_limit,
            final(self).calls() == old(self).calls(),
    {
        self.holder = Some(CallbackHolder { on_result, on_limit });
    }

    /// Makes the calls that announcing `n` asks for: the result callback with
    /// the total, or the limit callback, each once; nothing for `Nothing`, and
    /// nothing at all without callbacks.
    pub fn dispatch(&mut self, n: Notification)
        ensures
            final(self).holder() == old(self).holder(),
            old(self).holder() is None ==> final(self).calls() == old(self).calls(),
            old(self).holder() matches Some(h) ==> {
                &&& final(self).calls() == old(self).calls() + calls_of(n)
                &&& n matches Notification::Accumulated(total) ==> call_ensures(
                    h.result_callback(),
                    (total,),
                    (),
                )
                &&& n == Notification::LimitReached ==> call_ensures(h.limit_callback(), (), ())
            },
    {
        proof {
            use_type_invariant(&*self);
        }
        let mut holder = None;
        std::mem::swap(&mut holder, &mut self.holder);
        match &mut holder {
            Some(h) => match n {
                Notification::Accumulated(total) => {
                    (h.on_result)(total);
                    self.calls = Ghost(self.calls@.push(n));
                },
                Notification::LimitReached => {
                    (h.on_limit)();
                    self.calls = Ghost(self.calls@.push(n));
                },
                Notification::Nothing => {},
            },
            None => {},
        }
        self.holder = holder;
    }
}

} // verus!
