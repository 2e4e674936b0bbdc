//! The arithmetic heart shared by both accumulators: how one number changes the
//! running batch, and what is announced when it does.
use vstd::prelude::*;
use vstd::wrapping::i32_specs;

verus! {

/// What a single `accumulate` step announces.
#[derive(Clone, Copy, Debug, PartialEq, Eq, Structural)]
pub enum Notification {
    /// The batch is still open and under the limit.
    Nothing,
    /// The batch is complete; the value is its (wrapping) total.
    Accumulated(i32),
    /// The batch is still open, and its running total has reached the limit.
    LimitReached,
}

/// The calls that announcing `n` makes: one for a batch total or for the
/// limit, none for `Nothing`.
pub open spec fn calls_of(n: Notification) -> Seq<Notification> {
    match n {
        Notification::Nothing => Seq::empty(),
        _ => seq![n],
    }
}

/// The batch totals that announcing `n` hands on: the total of a closed batch,
/// nothing otherwise.
pub open spec fn totals_of(n: Notification) -> Seq<i32> {
    match n {
        Notification::Accumulated(total) => seq![total],
        _ => Seq::empty(),
    }
}

/// Mathematical state of an accumulator: how many numbers the open batch holds,
/// their running total, the batch size and the optional limit.
pub struct Tally {
    pub count: int,
    pub sum: i32,
    pub max: i32,
    pub limit: Option<i32>,
}

impl Tally {
    /// A batch with no number in it yet.
    pub open spec fn is_empty_batch(self) -> bool {
        self.count == 0 && self.sum == 0
    }

    /// The same settings, with an empty batch.
    pub open spec fn cleared(self) -> Tally {
        Tally { count: 0, sum: 0, ..self }
    }
}

/// The value that `Notification::Accumulated` carries, if any.
pub open spec fn reported(n: Notification) -> Option<i32> {
    match n {
        Notification::Accumulated(v) => Some(v),
        _ => None,
    }
}

/// One number enters the batch. The batch closes as soon as it holds `max`
/// numbers (every number closes it when `max` is not positive); otherwise the
/// limit, if there is one, is reported once the running total reaches it.
pub open spec fn step(s: Tally, value: i32) -> (Tally, Notification) {
    let sum = i32_specs::wrapping_add(s.sum, value);
    let count = s.count + 1;
    if count >= s.max {
        (s.cleared(), Notification::Accumulated(sum))
    } else if s.limit matches Some(l) && sum >= l {
        (Tally { count, sum, ..s }, Notification::LimitReached)
    } else {
        (Tally { count, sum, ..s }, Notification::Nothing)
    }
}

/// Feeding a whole sequence of numbers, one `step` after another.
pub open spec fn run(s: Tally, values: Seq<i32>) -> (Tally, Seq<Notification>)
    decreases values.len(),
{
    if values.len() == 0 {
        (s, Seq::empty())
    } else {
        let before = run(s, values.drop_last());
        let last = step(before.0, values.last());
        (last.0, before.1.push(last.1))
    }
}

/// Sum of a sequence in two's complement `i32` arithmetic, left to right.
pub open spec fn wrapping_total(values: Seq<i32>) -> i32
    decreases values.len(),
{
    if values.len() == 0 {
        0
    } else {
        i32_specs::wrapping_add(wrapping_total(values.drop_last()), values.last())
    }
}

/// Mathematical sum of a sequence.
pub open spec fn exact_total(values: Seq<i32>) -> int
    decreases values.len(),
{
    if values.len() == 0 {
        0
    } else {
        exact_total(values.drop_last()) + values.last()
    }
}

/// What the `i`-th number of a batch that starts empty announces.
pub open spec fn batch_notification(s: Tally, values: Seq<i32>, i: int) -> Notification {
    let total = wrapping_total(values.take(i + 1));
    if i + 1 >= s.max {
        Notification::Accumulated(total)
    } else if s.limit matches Some(l) && total >= l {
        Notification::LimitReached
    } else {
        Notification::Nothing
    }
}

/// The size a batch reaches before it closes.
pub open spec fn batch_size(s: Tally) -> int {
    if s.max >= 1 { s.max as int } else { 1 }
}

/// Law of a batch: starting from an empty batch, the `i`-th of at most
/// `batch_size` numbers announces exactly `batch_notification`; the last of a
/// full batch announces the wrapping total of the batch and leaves the batch
/// empty again, while a partial batch is left holding its count and total.
pub proof fn lemma_batch(s: Tally, values: Seq<i32>)
    requires
        s.is_empty_batch(),
        values.len() <= batch_size(s),
    ensures
        run(s, values).1.len() == values.len(),
        forall|i: int| 0 <= i < values.len() ==> #[trigger] run(s, values).1[i] == batch_notification(s, values, i),
        values.len() < batch_size(s) ==> run(s, values).0 == (Tally { count: values.len() as int, sum: wrapping_total(values), ..s }),
        values.len() == batch_size(s) ==> run(s, values).0 == s,
    decreases values.len(),
{
    if values.len() > 0 {
        let prefix = values.drop_last();
        lemma_batch(s, prefix);
        assert(values.take(values.len() as int) =~= values);
        assert forall|i: int| 0 <= i < values.len() implies #[trigger] run(s, values).1[i] == batch_notification(s, values, i) by {
            if i < prefix.len() {
                assert(values.take(i + 1) =~= prefix.take(i + 1));
            }
        }
    }
}

/// Law of the open batch: a step keeps the batch size and the limit, and a
/// batch never holds a full `batch_size` of numbers, nor a negative count.
pub proof fn lemma_step_invariant(s: Tally, value: i32)
    requires
        0 <= s.count < batch_size(s),
    ensures
        0 <= step(s, value).0.count < batch_size(step(s, value).0),
        step(s, value).0.max == s.max,
        step(s, value).0.limit == s.limit,
{
}

/// Law of exactness: when no running total of `values` leaves the `i32` range,
/// the wrapping total is the mathematical sum.
pub proof fn lemma_total_exact(values: Seq<i32>)
    requires
        forall|k: int| 0 <= k <= values.len() ==> i32::MIN <= #[trigger] exact_total(values.take(k)) <= i32::MAX,
    ensures
        wrapping_total(values) == exact_total(values),
    decreases values.len(),
{
    if values.len() > 0 {
        let prefix = values.drop_last();
        assert forall|k: int| 0 <= k <= prefix.len() implies i32::MIN <= #[trigger] exact_total(prefix.take(k)) <= i32::MAX by {
            assert(prefix.take(k) =~= values.take(k));
        }
        lemma_total_exact(prefix);
        assert(values.take(values.len() as int) =~= values);
        assert(values.take(prefix.len() as int) =~= prefix);
    }
}

/// Feeding `a` and then `b` is feeding `a + b`.
pub proof fn lemma_run_append(s: Tally, a: Seq<i32>, b: Seq<i32>)
    ensures
        run(s, a + b).0 == run(run(s, a).0, b).0,
        run(s, a + b).1 == run(s, a).1 + run(run(s, a).0, b).1,
    decreases b.len(),
{
    if b.len() == 0 {
        assert(a + b =~= a);
        assert(run(s, a).1 + run(run(s, a).0, b).1 =~= run(s, a).1);
    } else {
        lemma_run_append(s, a, b.drop_last());
        assert((a + b).drop_last() =~= a + b.drop_last());
        assert((a + b).last() == b.last());
        let mid = run(s, a).0;
        assert(run(s, a).1 + run(mid, b).1 =~= (run(s, a).1 + run(mid, b.drop_last()).1).push(
            step(run(mid, b.drop_last()).0, b.last()).1,
        ));
    }
}

/// What the first `n` numbers announce does not depend on the numbers after them.
pub proof fn lemma_run_prefix(s: Tally, values: Seq<i32>, n: int)
    requires
        0 <= n <= values.len(),
    ensures
        run(s, values).1.len() == values.len(),
        run(s, values.take(n)).1 == run(s, values).1.take(n),
    decreases values.len(),
{
    if values.len() > 0 {
        if n == values.len() {
            assert(values.take(n) =~= values);
            lemma_run_prefix(s, values.drop_last(), 0);
            assert(run(s, values).1.take(n) =~= run(s, values).1);
        } else {
            lemma_run_prefix(s, values.drop_last(), n);
            assert(values.drop_last().take(n) =~= values.take(n));
            assert(run(s, values).1.take(n) =~= run(s, values.drop_last()).1.take(n));
        }
    }
}

/// Law of batches: starting from an empty batch, numbers are grouped into
/// consecutive batches of `batch_size`; the last number of the `j`-th batch
/// announces the wrapping total of exactly that batch, and after any number of
/// whole batches the accumulator is back where it started.
pub proof fn lemma_batches(s: Tally, values: Seq<i32>, j: int)
    requires
        s.is_empty_batch(),
        0 <= j,
        (j + 1) * batch_size(s) <= values.len(),
    ensures
        run(s, values.take(j * batch_size(s))).0 == s,
        run(s, values.take((j + 1) * batch_size(s))).0 == s,
        run(s, values).1[(j + 1) * batch_size(s) - 1] == Notification::Accumulated(
            wrapping_total(values.subrange(j * batch_size(s), (j + 1) * batch_size(s))),
        ),
    decreases j,
{
    let bs = batch_size(s);
    assert((j + 1) * bs == j * bs + bs) by (nonlinear_arith);
    assert(0 <= j * bs) by (nonlinear_arith)
        requires
            0 <= j,
            1 <= bs,
    ;
    if j == 0 {
        assert(j * bs == 0) by (nonlinear_arith)
            requires
                j == 0,
        ;
        assert(values.take(0) =~= Seq::<i32>::empty());
    } else {
        assert(j * bs == (j - 1) * bs + bs) by (nonlinear_arith);
        lemma_batches(s, values, j - 1);
        assert((j - 1 + 1) * bs == j * bs);
        assert(run(s, values.take(j * bs)).0 == s);
    }
    let head = values.take(j * bs);
    let chunk = values.subrange(j * bs, j * bs + bs);
    assert(values.take(j * bs + bs) =~= head + chunk);
    lemma_run_append(s, head, chunk);
    lemma_batch(s, chunk);
    assert(chunk.take(bs) =~= chunk);
    lemma_run_prefix(s, values, j * bs + bs);
    assert(run(s, head).0 == s);
    lemma_run_prefix(s, head, 0);
    assert(head.len() == j * bs);
    let idx = j * bs + bs - 1;
    assert(run(s, chunk).1[bs - 1] == Notification::Accumulated(wrapping_total(chunk)));
    assert(run(s, head + chunk).1[idx] == run(s, chunk).1[bs - 1]);
    assert(run(s, values).1.take(j * bs + bs)[idx] == run(s, values).1[idx]);
}

/// What the `i`-th number of a run that starts from an empty batch announces,
/// in closed form: the numbers are cut into consecutive batches of
/// `batch_size`; the last number of a batch announces the batch's wrapping
/// total; any other number announces the limit exactly when the wrapping total
/// of its open batch, up to and including it, is at or above the limit.
pub open spec fn announced_at(s: Tally, values: Seq<i32>, i: int) -> Notification {
    let open = values.subrange(i - i % batch_size(s), i + 1);
    if (i + 1) % batch_size(s) == 0 {
        Notification::Accumulated(wrapping_total(open))
    } else if s.limit matches Some(l) && wrapping_total(open) >= l {
        Notification::LimitReached
    } else {
        Notification::Nothing
    }
}

/// Law of announcements: from an empty batch, every number announces exactly
/// `announced_at`. In particular a batch total is announced only by the last
/// number of a complete batch, and the limit only while the open batch's total
/// is at or above it.
pub proof fn lemma_run_closed_form(s: Tally, values: Seq<i32>, i: int)
    requires
        s.is_empty_batch(),
        0 <= i < values.len(),
    ensures
        run(s, values).1[i] == announced_at(s, values, i),
{
    let bs = batch_size(s);
    let j = i / bs;
    let r = i % bs;
    vstd::arithmetic::div_mod::lemma_fundamental_div_mod(i, bs);
    vstd::arithmetic::div_mod::lemma_mod_bound(i, bs);
    assert(bs * j == j * bs) by (nonlinear_arith);
    assert(i == j * bs + r);
    assert(0 <= j) by (nonlinear_arith)
        requires
            i == j * bs + r,
            0 <= i,
            r < bs,
            1 <= bs,
    ;
    assert(0 <= j * bs) by (nonlinear_arith)
        requires
            0 <= j,
            1 <= bs,
    ;
    if r + 1 < bs {
        vstd::arithmetic::div_mod::lemma_fundamental_div_mod_converse(i + 1, bs, j, r + 1);
    } else {
        assert((j + 1) * bs == j * bs + bs) by (nonlinear_arith);
        vstd::arithmetic::div_mod::lemma_fundamental_div_mod_converse(i + 1, bs, j + 1, 0);
    }
    let head = values.take(j * bs);
    if j == 0 {
        assert(head =~= Seq::<i32>::empty());
    } else {
        assert((j - 1 + 1) * bs == j * bs);
        lemma_batches(s, values, j - 1);
    }
    assert(run(s, head).0 == s);
    let part = values.subrange(j * bs, i + 1);
    lemma_batch(s, part);
    assert(part.take(r + 1) =~= part);
    assert(values.take(i + 1) =~= head + part);
    lemma_run_append(s, head, part);
    lemma_run_prefix(s, head, 0);
    lemma_run_prefix(s, values, i + 1);
    assert(run(s, values).1.take(i + 1)[i] == run(s, values).1[i]);
    assert(run(s, head + part).1[i] == run(s, part).1[r]);
}

/// The batch totals handed on by a sequence of announcements, in order.
pub open spec fn handed_totals(ns: Seq<Notification>) -> Seq<i32>
    decreases ns.len(),
{
    if ns.len() == 0 {
        Seq::empty()
    } else {
        handed_totals(ns.drop_last()) + totals_of(ns.last())
    }
}

/// The wrapping totals of the complete batches of `batch_size` numbers that
/// `values` splits into, in order; a trailing partial batch has none.
pub open spec fn complete_batch_totals(s: Tally, values: Seq<i32>) -> Seq<i32> {
    Seq::new(
        (values.len() as int / batch_size(s)) as nat,
        |j: int| wrapping_total(values.subrange(j * batch_size(s), (j + 1) * batch_size(s))),
    )
}

/// Law of handed-on totals: from an empty batch, the totals a run hands on
/// are exactly the totals of its complete batches, one for each, in order,
/// and nothing for a partial batch.
pub proof fn lemma_handed_totals(s: Tally, values: Seq<i32>)
    requires
        s.is_empty_batch(),
    ensures
        handed_totals(run(s, values).1) == complete_batch_totals(s, values),
    decreases values.len(),
{
    let bs = batch_size(s);
    let n = values.len() as int;
    if n == 0 {
        assert(complete_batch_totals(s, values) =~= Seq::<i32>::empty());
    } else {
        let prefix = values.drop_last();
        lemma_handed_totals(s, prefix);
        lemma_run_prefix(s, prefix, 0);
        let ns = run(s, values).1;
        assert(ns.drop_last() =~= run(s, prefix).1);
        lemma_run_closed_form(s, values, n - 1);
        let q = (n - 1) / bs;
        let r = (n - 1) % bs;
        vstd::arithmetic::div_mod::lemma_fundamental_div_mod(n - 1, bs);
        vstd::arithmetic::div_mod::lemma_mod_bound(n - 1, bs);
        assert(bs * q == q * bs) by (nonlinear_arith);
        assert(0 <= q) by (nonlinear_arith)
            requires
                n - 1 == q * bs + r,
                0 <= n - 1,
                r < bs,
                1 <= bs,
        ;
        if r + 1 < bs {
            vstd::arithmetic::div_mod::lemma_fundamental_div_mod_converse(n, bs, q, r + 1);
        } else {
            assert((q + 1) * bs == q * bs + bs) by (nonlinear_arith);
            vstd::arithmetic::div_mod::lemma_fundamental_div_mod_converse(n, bs, q + 1, 0);
        }
        assert(q * bs <= n - 1);
        assert forall|j: int| 0 <= j < q implies #[trigger] complete_batch_totals(s, values)[j]
            == complete_batch_totals(s, prefix)[j] by {
            assert((j + 1) * bs <= q * bs) by (nonlinear_arith)
                requires
                    j + 1 <= q,
                    1 <= bs,
            ;
            assert(0 <= j * bs) by (nonlinear_arith)
                requires
                    0 <= j,
                    1 <= bs,
            ;
            assert((j + 1) * bs <= prefix.len());
            assert((j + 1) * bs == j * bs + bs) by (nonlinear_arith);
            assert(values.subrange(j * bs, (j + 1) * bs) =~= prefix.subrange(j * bs, (j + 1) * bs));
        }
        if r + 1 < bs {
            assert(complete_batch_totals(s, values) =~= complete_batch_totals(s, prefix));
        } else {
            assert(n - 1 - r == q * bs);
            assert(complete_batch_totals(s, values) =~= complete_batch_totals(s, prefix).push(
                wrapping_total(values.subrange(q * bs, (q + 1) * bs)),
            ));
        }
    }
}

/// The callback calls that a sequence of announcements makes, in order.
pub open spec fn made_calls(ns: Seq<Notification>) -> Seq<Notification>
    decreases ns.len(),
{
    if ns.len() == 0 {
        Seq::empty()
    } else {
        made_calls(ns.drop_last()) + calls_of(ns.last())
    }
}

/// Handing on the totals of two sequences in turn.
pub proof fn lemma_handed_totals_append(a: Seq<Notification>, b: Seq<Notification>)
    ensures
        handed_totals(a + b) == handed_totals(a) + handed_totals(b),
    decreases b.len(),
{
    if b.len() == 0 {
        assert(a + b =~= a);
        assert(handed_totals(a) + handed_totals(b) =~= handed_totals(a));
    } else {
        lemma_handed_totals_append(a, b.drop_last());
        assert((a + b).drop_last() =~= a + b.drop_last());
        assert(handed_totals(a) + handed_totals(b) =~= handed_totals(a) + handed_totals(b.drop_last())
            + totals_of(b.last()));
    }
}

/// Law of result calls: among the calls a run makes, the calls of the result
/// callback carry exactly the totals the run hands on; so, from an empty
/// batch, they are the totals of the complete batches (`lemma_handed_totals`),
/// and every other call is a call of the limit callback.
pub proof fn lemma_made_calls(ns: Seq<Notification>)
    ensures
        handed_totals(made_calls(ns)) == handed_totals(ns),
        forall|k: int| 0 <= k < made_calls(ns).len() ==> #[trigger] made_calls(ns)[k] != Notification::Nothing,
    decreases ns.len(),
{
    if ns.len() > 0 {
        lemma_made_calls(ns.drop_last());
        lemma_handed_totals_append(made_calls(ns.drop_last()), calls_of(ns.last()));
        let one = calls_of(ns.last());
        if ns.last() != Notification::Nothing {
            assert(one.drop_last() =~= Seq::<Notification>::empty());
            assert(handed_totals(one.drop_last()) =~= Seq::<i32>::empty());
            assert(handed_totals(one) =~= totals_of(ns.last()));
        } else {
            assert(handed_totals(one) =~= totals_of(ns.last()));
        }
    }
}

} // verus!
