use vstd::prelude::*;

use crate::poll::Poll;

use std::time::Duration;

verus! {

/// The decisions of a future that completes once a timer, started on its
/// first pending poll, has run for `duration`.
///
/// Each poll has two stages. `begin_poll` is handed whether the timer has
/// completed and says what to do: report ready, or register the waker and,
/// on the first such poll only, start the timer. `finish_poll` is handed
/// whether the timer has completed by the time the waker is registered.
pub struct Delay {
    duration: Duration,
    started: bool,
}

/// What a poll of a `Delay` does after its first look at the timer.
#[derive(Debug, PartialEq, Eq)]
pub enum DelayAction {
    /// The timer has completed: the poll reports ready.
    Ready,
    /// Register the waker, start the timer when `start_timer` holds, and
    /// look at the timer again.
    Register { start_timer: bool },
}

impl Delay {
    /// A delay of `duration` whose timer has not been started.
    pub fn new(duration: Duration) -> (r: Self)
        ensures
            r.spec_duration() == duration,
            !r.timer_started(),
    {
        Delay { duration, started: false }
    }

    pub closed spec fn spec_duration(&self) -> Duration {
        self.duration
    }

    /// Whether a poll has already asked for the timer to be started.
    pub closed spec fn timer_started(&self) -> bool {
        self.started
    }

    /// How long the timer runs.
    pub fn duration(&self) -> (r: Duration)
        ensures
            r == self.spec_duration(),
    {
        self.duration
    }

    /// The first stage of a poll, given whether the timer has completed.
    pub fn begin_poll(&mut self, completed: bool) -> (r: DelayAction)
        ensures
            final(self).spec_duration() == old(self).spec_duration(),
            completed <==> r == DelayAction::Ready,
            (starts_timer(r), final(self).timer_started()) == delay_begin(
                old(self).timer_started(),
                completed,
            ),
    {
        if completed {
            return DelayAction::Ready;
        }
        let start_timer = !self.started;
        self.started = true;
        DelayAction::Register { start_timer }
    }

    /// The second stage of a poll, given whether the timer has completed
    /// once the waker is registered: ready exactly when it has.
    pub fn finish_poll(&self, completed: bool) -> (r: Poll<()>)
        ensures
            r == (if completed {
                Poll::Ready(())
            } else {
                Poll::Pending
            }),
    {
        if completed {
            Poll::Ready(())
        } else {
            Poll::Pending
        }
    }
}

/// Whether the action asks for the timer to be started.
pub open spec fn starts_timer(a: DelayAction) -> bool {
    match a {
        DelayAction::Ready => false,
        DelayAction::Register { start_timer } => start_timer,
    }
}

/// Whether a delay, whose timer is started or not as `started` says, starts
/// the timer on a first look that sees `completed`; and its state after.
pub open spec fn delay_begin(started: bool, completed: bool) -> (bool, bool) {
    if completed {
        (false, started)
    } else {
        (!started, true)
    }
}

/// How many times the timer is started over first looks `looks`, from a
/// delay whose timer is started or not as `started` says.
pub open spec fn timer_starts(started: bool, looks: Seq<bool>) -> nat
    decreases looks.len(),
{
    if looks.len() == 0 {
        0
    } else {
        let (start, next) = delay_begin(started, looks[0]);
        (if start { 1nat } else { 0nat }) + timer_starts(next, looks.drop_first())
    }
}

/// Over any run of polls, the timer is started at most once: exactly once
/// when it had not been started and some poll found it not completed, and
/// never otherwise.
pub proof fn lemma_timer_started_at_most_once(started: bool, looks: Seq<bool>)
    ensures
        timer_starts(started, looks) == (if !started && looks.contains(false) {
            1nat
        } else {
            0nat
        }),
    decreases looks.len(),
{
    if looks.len() > 0 {
        let (start, next) = delay_begin(started, looks[0]);
        lemma_timer_started_at_most_once(next, looks.drop_first());
        if looks.drop_first().contains(false) {
            let w = choose|x: int| 0 <= x < looks.drop_first().len() && looks.drop_first()[x] == false;
            assert(looks[w + 1] == false);
        }
        if looks.contains(false) && looks[0] {
            let w = choose|x: int| 0 <= x < looks.len() && looks[x] == false;
            assert(looks.drop_first()[w - 1] == false);
        }
        if !looks[0] {
            assert(looks.contains(false)) by {
                assert(looks[0] == false);
            }
        }
    }
}

/// What one poll of a delay reports, given whether its first look sees the
/// timer completed (`begin_poll` then reports ready) and, if it gets that
/// far, whether its second look does (`finish_poll`).
pub open spec fn delay_poll(first_sees_done: bool, second_sees_done: bool) -> Poll<()> {
    if first_sees_done {
        Poll::Ready(())
    } else if second_sees_done {
        Poll::Ready(())
    } else {
        Poll::Pending
    }
}

/// What one poll of a delay reports when its looks at the timer come at
/// `first_look` and `second_look`, and the timer thread marks it completed
/// at `done_at`; each a point in one order of events, a look seeing the
/// timer completed when it comes after `done_at`.
pub open spec fn delay_poll_outcome(first_look: int, second_look: int, done_at: int) -> Poll<()> {
    delay_poll(done_at < first_look, done_at < second_look)
}

/// A poll of a delay that races its timer thread, the poll storing its
/// waker at `register` between its two looks, and the thread taking the
/// stored waker at `take` after it marks the timer completed at `done_at`:
/// a poll that reports pending has stored its waker before the thread takes
/// it, so the thread wakes it, and no wake-up is lost; a poll that reports
/// ready saw the timer completed. And once the timer is completed, every poll
/// that starts after it reports ready, since nothing marks it not completed.
pub proof fn lemma_delay_no_lost_wakeup(
    first_look: int,
    register: int,
    second_look: int,
    done_at: int,
    take: int,
)
    requires
        first_look < register < second_look,
        done_at < take,
        done_at != first_look,
        done_at != second_look,
    ensures
        delay_poll_outcome(first_look, second_look, done_at) is Pending ==> register < take,
        delay_poll_outcome(first_look, second_look, done_at) is Ready ==> done_at < second_look,
        done_at < first_look ==> delay_poll_outcome(first_look, second_look, done_at) is Ready,
{
}

} // verus!
