use vstd::prelude::*;

verus! {

/// The outcome of polling a state machine once.
#[derive(Debug, PartialEq, Eq)]
pub enum Poll<T> {
    Ready(T),
    Pending,
}

/// A state machine that is polled, step by step, until it is ready.
///
/// `step` states what one poll does: the state after the poll and what the
/// poll reports.
pub trait Pollable: Sized {
    type Output;

    spec fn step(self) -> (Self, Poll<Self::Output>);

    fn poll(&mut self) -> (r: Poll<Self::Output>)
        ensures
            (*final(self), r) == old(self).step(),
    ;
}

/// The state of `f` after `k` polls.
pub open spec fn iterate<F: Pollable>(f: F, k: nat) -> F
    decreases k,
{
    if k == 0 {
        f
    } else {
        iterate(f, (k - 1) as nat).step().0
    }
}

/// What the poll numbered `k` (counting from zero) of `f` reports.
pub open spec fn result_at<F: Pollable>(f: F, k: nat) -> Poll<F::Output> {
    iterate(f, k).step().1
}

/// The poll numbered `k` is the first one of `f` that reports `Ready`.
pub open spec fn first_ready_at<F: Pollable>(f: F, k: nat) -> bool {
    &&& result_at(f, k) is Ready
    &&& forall|j: nat| j < k ==> #[trigger] result_at(f, j) is Pending
}

/// Polling after `k` polls is the same as polling `f` `k + 1` times.
pub proof fn lemma_iterate_succ<F: Pollable>(f: F, k: nat)
    ensures
        iterate(f, k + 1) == iterate(f, k).step().0,
{
}

/// A future has at most one first ready poll.
pub proof fn lemma_first_ready_unique<F: Pollable>(f: F, i: nat, j: nat)
    requires
        first_ready_at(f, i),
        first_ready_at(f, j),
    ensures
        i == j,
{
    if i < j {
        assert(result_at(f, i) is Pending);
    } else if j < i {
        assert(result_at(f, j) is Pending);
    }
}

/// Polls `fut` until a poll reports `Ready`, and no further, and returns
/// that poll's output: when its first ready poll is the one numbered `k`, it
/// is polled exactly `k + 1` times and is left as those polls leave it.
pub fn poll_to_ready<F: Pollable>(fut: &mut F) -> (r: F::Output)
    requires
        exists|k: nat| #[trigger] result_at(*old(fut), k) is Ready,
    ensures
        exists|k: nat|
            first_ready_at(*old(fut), k) && result_at(*old(fut), k) == Poll::Ready(r) && *final(fut)
                == iterate(*old(fut), k + 1),
{
    let ghost start = *fut;
    let ghost bound: nat = choose|k: nat| #[trigger] result_at(start, k) is Ready;
    let ghost mut i: nat = 0;
    loop
        invariant
            start == *old(fut),
            *fut == iterate(start, i),
            i <= bound,
            result_at(start, bound) is Ready,
            forall|j: nat| j < i ==> #[trigger] result_at(start, j) is Pending,
        decreases bound - i,
    {
        let r = fut.poll();
        proof {
            lemma_iterate_succ(start, i);
        }
        match r {
            Poll::Ready(v) => {
                assert(first_ready_at(start, i) && result_at(start, i) == Poll::Ready(v) && *fut
                    == iterate(start, i + 1));
                return v;
            },
            Poll::Pending => {
                proof {
                    assert(result_at(start, i) is Pending);
                    i = i + 1;
                }
            },
        }
    }
}

/// Drives `fut` by polling it until it is ready and returns its output: the
/// output of the first poll that reports `Ready`. It polls it exactly as
/// `poll_to_ready` does, up to that poll and no further.
pub fn block_on<F: Pollable>(fut: F) -> (r: F::Output)
    requires
        exists|k: nat| #[trigger] result_at(fut, k) is Ready,
    ensures
        exists|k: nat| first_ready_at(fut, k) && result_at(fut, k) == Poll::Ready(r),
{
    let mut cur = fut;
    poll_to_ready(&mut cur)
}

/// A future that is ready at once with `42`, on every poll.
pub struct Ready42;

impl Pollable for Ready42 {
    type Output = i32;

    open spec fn step(self) -> (Self, Poll<i32>) {
        (self, Poll::Ready(42))
    }

    fn poll(&mut self) -> (r: Poll<i32>) {
        Poll::Ready(42)
    }
}

} // verus!
