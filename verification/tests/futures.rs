use async_exercises::countdown::{countdown, CountdownFuture};
use async_exercises::join::Join;
use async_exercises::poll::{block_on, poll_to_ready, Poll, Pollable, Ready42};

#[test]
fn ready42_is_ready_at_once() {
    let mut f = Ready42;
    assert_eq!(f.poll(), Poll::Ready(42));
}

#[test]
fn countdown_future_counts_down_then_is_done() {
    let mut f = CountdownFuture::new(2);
    assert_eq!(f.poll(), Poll::Pending);
    assert_eq!(f.count(), 1);
    assert_eq!(f.poll(), Poll::Pending);
    assert_eq!(f.count(), 0);
    assert_eq!(f.poll(), Poll::Ready("完成"));
}

#[test]
fn join_of_countdowns_gives_both_starting_numbers() {
    let join = Join::new(countdown(6), countdown(2));
    assert_eq!(block_on(join), (6, 2));
}

#[test]
fn ready42_stays_ready() {
    let mut f = Ready42;
    assert_eq!(f.poll(), Poll::Ready(42));
    assert_eq!(f.poll(), Poll::Ready(42));
    assert_eq!(block_on(Ready42), 42);
}

#[test]
fn countdown_future_from_zero_is_done_at_once() {
    let mut f = CountdownFuture::new(0);
    assert_eq!(f.poll(), Poll::Ready("完成"));
    assert_eq!(f.poll(), Poll::Ready("完成"));
    assert_eq!(block_on(CountdownFuture::new(10)), "完成");
}

#[test]
fn countdown_counts_its_polls_and_reports_where_it_started() {
    let mut c = countdown(2);
    assert_eq!((c.from(), c.left()), (2, 2));
    assert_eq!(c.poll(), Poll::Pending);
    assert_eq!(c.left(), 1);
    assert_eq!(c.poll(), Poll::Pending);
    assert_eq!(c.left(), 0);
    assert_eq!(c.poll(), Poll::Ready(2));
    assert_eq!(c.poll(), Poll::Ready(2));
    assert_eq!(c.from(), 2);
}

#[test]
fn join_is_ready_on_the_later_childs_first_ready_poll_then_pending() {
    let mut join = Join::new(countdown(1), countdown(3));
    assert_eq!(join.poll(), Poll::Pending);
    assert_eq!(join.poll(), Poll::Pending);
    assert_eq!(join.poll(), Poll::Pending);
    assert_eq!(join.poll(), Poll::Ready((1, 3)));
    assert_eq!(join.poll(), Poll::Pending);
    assert_eq!(join.poll(), Poll::Pending);
}

#[test]
fn join_of_ready_futures_is_ready_at_once() {
    let mut join = Join::new(Ready42, countdown(0));
    assert_eq!(join.poll(), Poll::Ready((42, 0)));
    assert_eq!(join.poll(), Poll::Pending);
}

#[test]
fn nested_joins_pair_their_outputs() {
    let inner = Join::new(countdown(4), CountdownFuture::new(1));
    let outer = Join::new(inner, countdown(2));
    assert_eq!(block_on(outer), ((4, "完成"), 2));
}

#[test]
fn finished_countdowns_stay_ready() {
    let mut c = countdown(1);
    assert_eq!(c.poll(), Poll::Pending);
    for _ in 0..3 {
        assert_eq!(c.poll(), Poll::Ready(1));
    }
    let mut f = CountdownFuture::new(1);
    assert_eq!(f.poll(), Poll::Pending);
    for _ in 0..3 {
        assert_eq!(f.poll(), Poll::Ready("完成"));
    }
}

#[test]
fn poll_to_ready_stops_at_the_first_ready_poll() {
    let mut c = countdown(3);
    assert_eq!(poll_to_ready(&mut c), 3);
    assert_eq!(c.left(), 0);
    let mut join = Join::new(countdown(1), countdown(2));
    assert_eq!(poll_to_ready(&mut join), (1, 2));
    // The join was polled exactly up to its ready poll: the next one is pending.
    assert_eq!(join.poll(), Poll::Pending);
}
