use std::time::Duration;

use async_exercises::delay::{Delay, DelayAction};
use async_exercises::flag::{FlagAction, FlagFuture};
use async_exercises::poll::Poll;

#[test]
fn delay_starts_its_timer_on_the_first_pending_poll_only() {
    let mut d = Delay::new(Duration::from_secs(20));
    assert_eq!(d.duration(), Duration::from_secs(20));
    assert_eq!(d.begin_poll(false), DelayAction::Register { start_timer: true });
    assert_eq!(d.finish_poll(false), Poll::Pending);
    assert_eq!(d.begin_poll(false), DelayAction::Register { start_timer: false });
    assert_eq!(d.finish_poll(true), Poll::Ready(()));
    assert_eq!(d.begin_poll(true), DelayAction::Ready);
    assert_eq!(d.begin_poll(false), DelayAction::Register { start_timer: false });
}

#[test]
fn delay_completed_before_any_poll_never_starts_its_timer() {
    let mut d = Delay::new(Duration::from_millis(5));
    assert_eq!(d.begin_poll(true), DelayAction::Ready);
    assert_eq!(d.begin_poll(true), DelayAction::Ready);
    assert_eq!(d.begin_poll(false), DelayAction::Register { start_timer: true });
}

#[test]
fn flag_future_is_ready_only_when_a_look_sees_the_flag() {
    let f = FlagFuture::new();
    assert_eq!(f.check(true), FlagAction::Ready);
    assert_eq!(f.check(false), FlagAction::RegisterWaker);
    assert_eq!(f.recheck(true), Poll::Ready(()));
    assert_eq!(f.recheck(false), Poll::Pending);
}

/// Runs one poll against one setter in every order of their steps and
/// checks that the poll either reports ready or has its waker taken by the
/// setter, and that it reports ready only after the flag is set.
#[test]
fn flag_future_loses_no_wakeup_in_any_order() {
    // The poll's steps: first look, register, second look; the setter's:
    // set the flag, take the waker.
    for set_at in 0..5usize {
        for take_at in (set_at + 1)..5usize {
            let poll_steps: Vec<usize> = (0..5).filter(|t| *t != set_at && *t != take_at).collect();
            let (first, register, second) = (poll_steps[0], poll_steps[1], poll_steps[2]);
            let f = FlagFuture::new();
            let outcome = match f.check(set_at < first) {
                FlagAction::Ready => Poll::Ready(()),
                FlagAction::RegisterWaker => f.recheck(set_at < second),
            };
            match outcome {
                Poll::Ready(()) => assert!(set_at < second),
                Poll::Pending => assert!(register < take_at),
            }
        }
    }
}

/// Runs one delay poll against its timer thread in every order of their
/// steps: a pending poll has stored its waker before the thread takes it,
/// and a poll that starts after the timer completes is ready.
#[test]
fn delay_loses_no_wakeup_in_any_order() {
    for done_at in 0..5usize {
        for take_at in (done_at + 1)..5usize {
            let steps: Vec<usize> = (0..5).filter(|t| *t != done_at && *t != take_at).collect();
            let (first, register, second) = (steps[0], steps[1], steps[2]);
            let mut d = Delay::new(Duration::from_secs(1));
            let outcome = match d.begin_poll(done_at < first) {
                DelayAction::Ready => Poll::Ready(()),
                DelayAction::Register { .. } => d.finish_poll(done_at < second),
            };
            match outcome {
                Poll::Ready(()) => assert!(done_at < second),
                Poll::Pending => assert!(register < take_at),
            }
            if done_at < first {
                assert_eq!(outcome, Poll::Ready(()));
            }
        }
    }
}
