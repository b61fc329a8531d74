use vstd::prelude::*;

use crate::poll::Poll;

verus! {

/// The decisions of a future that completes once a shared flag is set, and
/// that never takes a wake-up as proof that the flag is set.
///
/// A poll looks at the flag; if it is not set, the poll registers its waker
/// and looks at the flag again, since the flag may have been set between the
/// first look and the registration. The setter sets the flag and then takes
/// the registered waker, if any, and wakes it.
pub struct FlagFuture;

/// What a poll does after its first look at the flag.
#[derive(Debug, PartialEq, Eq)]
pub enum FlagAction {
    /// The flag is set: the poll reports ready.
    Ready,
    /// Register the waker and look at the flag again.
    RegisterWaker,
}

/// The first look: ready when the flag is set, else register the waker.
pub open spec fn flag_first_look(flag_set: bool) -> FlagAction {
    if flag_set {
        FlagAction::Ready
    } else {
        FlagAction::RegisterWaker
    }
}

/// The second look, after the waker is registered: ready when the flag is
/// set, else pending.
pub open spec fn flag_second_look(flag_set: bool) -> Poll<()> {
    if flag_set {
        Poll::Ready(())
    } else {
        Poll::Pending
    }
}

impl FlagFuture {
    pub fn new() -> (r: Self) {
        FlagFuture
    }

    /// The first look at the flag.
    pub fn check(&self, flag_set: bool) -> (r: FlagAction)
        ensures
            r == flag_first_look(flag_set),
    {
        if flag_set {
            FlagAction::Ready
        } else {
            FlagAction::RegisterWaker
        }
    }

    /// The look at the flag after the waker is registered.
    pub fn recheck(&self, flag_set: bool) -> (r: Poll<()>)
        ensures
            r == flag_second_look(flag_set),
    {
        if flag_set {
            Poll::Ready(())
        } else {
            Poll::Pending
        }
    }
}

/// What one poll reports, given what its first look and, if it gets that
/// far, its second look see of the flag.
pub open spec fn flag_poll(first_sees_set: bool, second_sees_set: bool) -> Poll<()> {
    match flag_first_look(first_sees_set) {
        FlagAction::Ready => Poll::Ready(()),
        FlagAction::RegisterWaker => flag_second_look(second_sees_set),
    }
}

/// A poll is ready exactly when one of its own looks sees the flag set,
/// never because it was woken: while the flag stays unset, every poll, woken
/// or not, is pending.
pub proof fn lemma_ready_only_on_a_set_flag(first_sees_set: bool, second_sees_set: bool)
    ensures
        flag_poll(first_sees_set, second_sees_set) is Ready <==> (first_sees_set || second_sees_set),
        flag_poll(false, false) is Pending,
{
}

/// What one poll reports when its looks at the flag come at `first_look`
/// and, if it registers its waker, at `second_look`, and the flag is set at
/// `set_at`; each a point in one order of events, the flag being seen set by
/// a look that comes after it is set.
pub open spec fn poll_outcome(first_look: int, second_look: int, set_at: int) -> Poll<()> {
    flag_poll(set_at < first_look, set_at < second_look)
}

/// A poll that races a setter, the poll registering its waker at `register`
/// between its two looks, and the setter taking the registered waker at
/// `take` after it sets the flag at `set_at`: a poll that reports ready saw
/// the flag set, and a poll that reports pending has its waker registered
/// before the setter takes it, so the setter wakes it. No wake-up is lost,
/// and none is taken for the flag.
pub proof fn lemma_no_lost_wakeup(
    first_look: int,
    register: int,
    second_look: int,
    set_at: int,
    take: int,
)
    requires
        first_look < register < second_look,
        set_at < take,
        set_at != first_look,
        set_at != second_look,
    ensures
        poll_outcome(first_look, second_look, set_at) is Ready ==> set_at < second_look,
        poll_outcome(first_look, second_look, set_at) is Pending ==> register < take,
{
}

} // verus!
