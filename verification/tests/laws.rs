use ffi_callback::accumulator::{Accumulator as PlainAccumulator, AccumulatorSys};
use ffi_callback::limited::LimitedAccumulatorSys;
use ffi_callback::ws::{Request, SessionAction, SessionEvent, State, SESSION_BATCH_SIZE};
use ffi_callback::{Accumulator, Notification};
use std::cell::RefCell;

#[test]
fn each_batch_reports_its_own_total() {
    let totals = RefCell::new(Vec::new());
    let mut cb = |v: i32| totals.borrow_mut().push(v);
    let mut acc = PlainAccumulator::new(3);
    acc.register_callback(&mut cb);
    for n in 1..=9 {
        acc.add(n);
    }
    assert_eq!(*totals.borrow(), vec![6, 15, 24]);
}

#[test]
fn partial_batch_reports_nothing() {
    let totals = RefCell::new(Vec::new());
    let mut cb = |v: i32| totals.borrow_mut().push(v);
    let mut acc = PlainAccumulator::new(3);
    acc.register_callback(&mut cb);
    acc.add(10);
    acc.add(20);
    assert!(totals.borrow().is_empty());
    acc.add(30);
    assert_eq!(*totals.borrow(), vec![60]);
}

#[test]
fn negative_numbers_sum_exactly() {
    let totals = RefCell::new(Vec::new());
    let mut cb = |v: i32| totals.borrow_mut().push(v);
    let mut acc = PlainAccumulator::new(3);
    acc.register_callback(&mut cb);
    acc.add(-5);
    acc.add(10);
    acc.add(-20);
    assert_eq!(*totals.borrow(), vec![-15]);
}

#[test]
fn total_wraps_around_in_two_complement() {
    let totals = RefCell::new(Vec::new());
    let mut cb = |v: i32| totals.borrow_mut().push(v);
    let mut acc = PlainAccumulator::new(2);
    acc.register_callback(&mut cb);
    acc.add(i32::MAX);
    acc.add(1);
    acc.add(i32::MIN);
    acc.add(-1);
    assert_eq!(*totals.borrow(), vec![i32::MIN, i32::MAX]);
}

#[test]
fn batch_size_below_one_reports_every_number() {
    let totals = RefCell::new(Vec::new());
    let mut cb = |v: i32| totals.borrow_mut().push(v);
    let mut zero = PlainAccumulator::new(0);
    zero.register_callback(&mut cb);
    zero.add(4);
    zero.add(7);
    let mut negative = PlainAccumulator::new(-5);
    negative.register_callback(&mut cb);
    negative.add(-2);
    assert_eq!(*totals.borrow(), vec![4, 7, -2]);
}

#[test]
fn registering_keeps_the_open_batch() {
    let totals = RefCell::new(Vec::new());
    let mut cb = |v: i32| totals.borrow_mut().push(v);
    let mut acc = PlainAccumulator::new(2);
    acc.add(5);
    acc.register_callback(&mut cb);
    acc.add(6);
    assert_eq!(*totals.borrow(), vec![11]);
}

#[test]
fn batches_close_without_a_callback() {
    let totals = RefCell::new(Vec::new());
    let mut cb = |v: i32| totals.borrow_mut().push(v);
    let mut acc = PlainAccumulator::new(2);
    acc.add(1);
    acc.add(2);
    acc.add(3);
    acc.register_callback(&mut cb);
    acc.add(4);
    assert_eq!(*totals.borrow(), vec![7]);
}

fn no_limit() {}

fn recorder(log: &RefCell<Vec<i32>>) -> impl FnMut(i32) + '_ {
    move |v: i32| log.borrow_mut().push(v)
}

#[test]
fn a_new_callback_replaces_the_old_one() {
    let first = RefCell::new(Vec::new());
    let second = RefCell::new(Vec::new());
    let mut cb_first = recorder(&first);
    let mut cb_second = recorder(&second);
    let mut acc = PlainAccumulator::new(2);
    acc.register_callback(&mut cb_first);
    acc.add(1);
    acc.add(1);
    acc.add(3);
    acc.register_callback(&mut cb_second);
    acc.add(4);
    assert_eq!(*first.borrow(), vec![2]);
    assert_eq!(*second.borrow(), vec![7]);
}

#[test]
fn new_callbacks_replace_the_old_ones() {
    let first = RefCell::new(Vec::new());
    let second = RefCell::new(Vec::new());
    let mut acc = Accumulator::new(2, 100);
    acc.register_callbacks(recorder(&first), no_limit);
    acc.add(1);
    acc.add(1);
    acc.add(3);
    acc.register_callbacks(recorder(&second), no_limit);
    acc.add(4);
    assert_eq!(*first.borrow(), vec![2]);
    assert_eq!(*second.borrow(), vec![7]);
}

#[test]
fn limit_is_reported_while_the_open_total_is_at_or_above_it() {
    let events = RefCell::new(Vec::new());
    let on_result = |v: i32| events.borrow_mut().push(Some(v));
    let on_limit = || events.borrow_mut().push(None);
    let mut acc = Accumulator::new(4, 3);
    acc.register_callbacks(on_result, on_limit);
    acc.add(1);
    acc.add(2);
    acc.add(5);
    acc.add(1);
    assert_eq!(*events.borrow(), vec![None, None, Some(9)]);
}

#[test]
fn limit_is_not_reported_below_it() {
    let events = RefCell::new(Vec::new());
    let on_result = |v: i32| events.borrow_mut().push(Some(v));
    let on_limit = || events.borrow_mut().push(None);
    let mut acc = Accumulator::new(3, 0);
    acc.register_callbacks(on_result, on_limit);
    acc.add(-1);
    acc.add(-2);
    acc.add(10);
    assert_eq!(*events.borrow(), vec![Some(7)]);
}

#[test]
fn closing_a_batch_is_reported_instead_of_the_limit() {
    let events = RefCell::new(Vec::new());
    let on_result = |v: i32| events.borrow_mut().push(Some(v));
    let on_limit = || events.borrow_mut().push(None);
    let mut acc = Accumulator::new(2, 3);
    acc.register_callbacks(on_result, on_limit);
    acc.add(2);
    acc.add(3);
    acc.add(4);
    acc.add(4);
    assert_eq!(*events.borrow(), vec![Some(5), None, Some(8)]);
}

#[test]
fn limited_accumulator_advances_without_callbacks() {
    let events = RefCell::new(Vec::new());
    let on_result = |v: i32| events.borrow_mut().push(Some(v));
    let on_limit = || events.borrow_mut().push(None);
    let mut acc = Accumulator::new(3, 100);
    acc.add(1);
    acc.add(2);
    acc.register_callbacks(on_result, on_limit);
    acc.add(3);
    assert_eq!(*events.borrow(), vec![Some(6)]);
}

#[test]
fn bare_accumulator_steps() {
    let mut sys = AccumulatorSys::new(3);
    assert_eq!(sys.accumulate(1), None);
    assert_eq!((sys.accumulated_count, sys.accumulated_sum), (1, 1));
    assert_eq!(sys.accumulate(2), None);
    assert_eq!((sys.accumulated_count, sys.accumulated_sum), (2, 3));
    assert_eq!(sys.accumulate(3), Some(6));
    assert_eq!((sys.accumulated_count, sys.accumulated_sum), (0, 0));
    assert_eq!(sys.max_accumulated, 3);
}

#[test]
fn bare_limited_accumulator_steps() {
    let mut sys = LimitedAccumulatorSys::new(3, 4);
    assert_eq!(sys.accumulate(1), Notification::Nothing);
    assert_eq!(sys.accumulate(3), Notification::LimitReached);
    assert_eq!((sys.accumulated_count, sys.accumulated_sum), (2, 4));
    assert_eq!(sys.accumulate(1), Notification::Accumulated(5));
    assert_eq!((sys.accumulated_count, sys.accumulated_sum), (0, 0));
    assert_eq!(sys.accumulate(-9), Notification::Nothing);
}

#[test]
fn session_accumulates_requests_in_pairs() {
    let totals = RefCell::new(Vec::new());
    let mut cb = |v: i32| totals.borrow_mut().push(v);
    let mut state = State::default();
    state.register_callback(&mut cb);
    state.handle_request(Request { number: 4 });
    state.handle_request(Request { number: 6 });
    state.handle_request(Request { number: 1 });
    assert_eq!(SESSION_BATCH_SIZE, 2);
    assert_eq!(*totals.borrow(), vec![10]);
}

#[test]
fn session_events_decide_what_happens() {
    let totals = RefCell::new(Vec::new());
    let mut cb = |v: i32| totals.borrow_mut().push(v);
    let mut state = State::default();
    state.register_callback(&mut cb);
    assert_eq!(state.on_event(SessionEvent::Number(3)), SessionAction::Continue);
    assert_eq!(state.on_event(SessionEvent::NotText), SessionAction::Continue);
    assert_eq!(state.on_event(SessionEvent::Number(8)), SessionAction::Continue);
    assert_eq!(*totals.borrow(), vec![11]);
    assert_eq!(state.on_event(SessionEvent::Number(1)), SessionAction::Continue);
    assert_eq!(state.on_event(SessionEvent::StreamError), SessionAction::Stop);
    assert_eq!(state.on_event(SessionEvent::Number(2)), SessionAction::Continue);
    assert_eq!(*totals.borrow(), vec![11, 3]);
}

#[test]
fn callbacks_may_mutate_what_they_capture() {
    let mut totals = Vec::new();
    let mut limits = 0;
    {
        let mut acc = Accumulator::new(2, 5);
        acc.register_callbacks(|v: i32| totals.push(v), || limits += 1);
        acc.add(2);
        acc.add(3);
        acc.add(6);
        acc.add(1);
    }
    assert_eq!(totals, vec![5, 7]);
    assert_eq!(limits, 1);

    let mut seen = Vec::new();
    {
        let mut cb = |v: i32| seen.push(v);
        let mut plain = PlainAccumulator::new(1);
        plain.register_callback(&mut cb);
        plain.add(8);
        plain.add(-8);
    }
    assert_eq!(seen, vec![8, -8]);
}

#[test]
fn bare_accumulator_accepts_a_negative_count() {
    let mut sys = AccumulatorSys { accumulated_count: -2, accumulated_sum: 0, max_accumulated: 2 };
    assert_eq!(sys.accumulate(1), None);
    assert_eq!(sys.accumulate(1), None);
    assert_eq!(sys.accumulate(1), None);
    assert_eq!(sys.accumulate(1), Some(4));
    assert_eq!((sys.accumulated_count, sys.accumulated_sum), (0, 0));
}
