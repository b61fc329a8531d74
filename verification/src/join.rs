use vstd::prelude::*;

use crate::countdown::{lemma_countdown_polls, Countdown};
use crate::poll::{first_ready_at, iterate, lemma_iterate_succ, result_at, Poll, Pollable};

verus! {

/// Where one of the two futures of a `Join` stands.
pub enum MaybeDone<F: Pollable> {
    /// Still running.
    Pending(F),
    /// Finished, with its output kept until both are finished.
    Done(F::Output),
    /// Its output has been handed out.
    Taken,
}

/// Polls two futures side by side and is ready, with both outputs, once
/// both have finished.
pub struct Join<A: Pollable, B: Pollable> {
    a: MaybeDone<A>,
    b: MaybeDone<B>,
}

/// Where a child stands after this poll of the join: a pending child is
/// polled once and kept if still pending, or its output is kept.
pub open spec fn advance<F: Pollable>(m: MaybeDone<F>) -> MaybeDone<F> {
    match m {
        MaybeDone::Pending(f) => match f.step() {
            (g, Poll::Pending) => MaybeDone::Pending(g),
            (_, Poll::Ready(v)) => MaybeDone::Done(v),
        },
        other => other,
    }
}

/// Polls a child once if it is still running.
fn poll_child<F: Pollable>(m: &mut MaybeDone<F>)
    ensures
        *final(m) == advance(*old(m)),
{
    let mut cur = MaybeDone::Taken;
    std::mem::swap(&mut cur, m);
    *m = match cur {
        MaybeDone::Pending(mut f) => {
            let r = f.poll();
            match r {
                Poll::Ready(v) => MaybeDone::Done(v),
                Poll::Pending => MaybeDone::Pending(f),
            }
        },
        other => other,
    };
}

impl<A: Pollable, B: Pollable> Join<A, B> {
    /// A join of `a` and `b`, both still running.
    pub fn new(a: A, b: B) -> (r: Self)
        ensures
            r == Self::with_children(MaybeDone::Pending(a), MaybeDone::Pending(b)),
    {
        Join { a: MaybeDone::Pending(a), b: MaybeDone::Pending(b) }
    }

    /// Where the first future stands.
    pub closed spec fn first(self) -> MaybeDone<A> {
        self.a
    }

    /// Where the second future stands.
    pub closed spec fn second(self) -> MaybeDone<B> {
        self.b
    }

    /// The join whose futures stand at `a` and `b`.
    pub closed spec fn with_children(a: MaybeDone<A>, b: MaybeDone<B>) -> Self {
        Join { a, b }
    }

    pub proof fn lemma_with_children(a: MaybeDone<A>, b: MaybeDone<B>)
        ensures
            Self::with_children(a, b).first() == a,
            Self::with_children(a, b).second() == b,
    {
    }

    /// One poll of the join: each child still running is polled once; when
    /// both have then finished, their outputs are handed out together and
    /// both are marked taken; otherwise the join is pending.
    pub proof fn lemma_step(self)
        ensures
            ({
                let a1 = advance(self.first());
                let b1 = advance(self.second());
                self.step() == match (a1, b1) {
                    (MaybeDone::Done(va), MaybeDone::Done(vb)) => (
                        Self::with_children(MaybeDone::Taken, MaybeDone::Taken),
                        Poll::Ready((va, vb)),
                    ),
                    _ => (Self::with_children(a1, b1), Poll::Pending),
                }
            }),
    {
    }
}

impl<A: Pollable, B: Pollable> Pollable for Join<A, B> {
    type Output = (A::Output, B::Output);

    closed spec fn step(self) -> (Self, Poll<(A::Output, B::Output)>) {
        let a1 = advance(self.a);
        let b1 = advance(self.b);
        match (a1, b1) {
            (MaybeDone::Done(va), MaybeDone::Done(vb)) => (
                Join { a: MaybeDone::Taken, b: MaybeDone::Taken },
                Poll::Ready((va, vb)),
            ),
            _ => (Join { a: a1, b: b1 }, Poll::Pending),
        }
    }

    fn poll(&mut self) -> (r: Poll<(A::Output, B::Output)>) {
        poll_child(&mut self.a);
        poll_child(&mut self.b);
        let mut a = MaybeDone::Taken;
        let mut b = MaybeDone::Taken;
        std::mem::swap(&mut a, &mut self.a);
        std::mem::swap(&mut b, &mut self.b);
        match (a, b) {
            (MaybeDone::Done(va), MaybeDone::Done(vb)) => Poll::Ready((va, vb)),
            (a, b) => {
                self.a = a;
                self.b = b;
                Poll::Pending
            },
        }
    }
}

/// Where a child that is first ready on its poll numbered `i`, with `v`,
/// stands after `k` polls of a join, as long as the join has not finished.
pub open spec fn child_after<F: Pollable>(f: F, i: nat, v: F::Output, k: nat) -> MaybeDone<F> {
    if k <= i {
        MaybeDone::Pending(iterate(f, k))
    } else {
        MaybeDone::Done(v)
    }
}

/// The output of the poll numbered `k` of `f`, when that poll is ready.
pub open spec fn output_at<F: Pollable>(f: F, k: nat) -> F::Output
    recommends
        result_at(f, k) is Ready,
{
    result_at(f, k)->Ready_0
}

/// The later of two poll numbers.
pub open spec fn later(i: nat, j: nat) -> nat {
    if i < j {
        j
    } else {
        i
    }
}

proof fn lemma_child_advances<F: Pollable>(f: F, i: nat, k: nat)
    requires
        first_ready_at(f, i),
    ensures
        advance(child_after(f, i, output_at(f, i), k)) == child_after(f, i, output_at(f, i), k + 1),
{
    let v = output_at(f, i);
    lemma_iterate_succ(f, k);
    if k < i {
        assert(result_at(f, k) is Pending);
    } else if k == i {
        assert(result_at(f, k) == Poll::Ready(v));
    }
}

proof fn lemma_join_before_done<A: Pollable, B: Pollable>(a: A, b: B, i: nat, j: nat, k: nat)
    requires
        first_ready_at(a, i),
        first_ready_at(b, j),
        k <= later(i, j),
    ensures
        iterate(Join::with_children(MaybeDone::Pending(a), MaybeDone::Pending(b)), k)
            == Join::with_children(
            child_after(a, i, output_at(a, i), k),
            child_after(b, j, output_at(b, j), k),
        ),
        k < later(i, j) ==> result_at(
            Join::with_children(MaybeDone::Pending(a), MaybeDone::Pending(b)),
            k,
        ) is Pending,
    decreases k,
{
    let start = Join::with_children(MaybeDone::Pending(a), MaybeDone::<B>::Pending(b));
    let sa = child_after(a, i, output_at(a, i), k);
    let sb = child_after(b, j, output_at(b, j), k);
    if k > 0 {
        lemma_join_before_done(a, b, i, j, (k - 1) as nat);
        lemma_iterate_succ(start, (k - 1) as nat);
        let pa = child_after(a, i, output_at(a, i), (k - 1) as nat);
        let pb = child_after(b, j, output_at(b, j), (k - 1) as nat);
        lemma_child_advances(a, i, (k - 1) as nat);
        lemma_child_advances(b, j, (k - 1) as nat);
        Join::<A, B>::with_children(pa, pb).lemma_step();
        Join::<A, B>::lemma_with_children(pa, pb);
    }
    if k < later(i, j) {
        lemma_child_advances(a, i, k);
        lemma_child_advances(b, j, k);
        Join::<A, B>::with_children(sa, sb).lemma_step();
        Join::<A, B>::lemma_with_children(sa, sb);
    }
}

proof fn lemma_join_after_done<A: Pollable, B: Pollable>(a: A, b: B, i: nat, j: nat, m: nat)
    requires
        first_ready_at(a, i),
        first_ready_at(b, j),
    ensures
        iterate(Join::with_children(MaybeDone::Pending(a), MaybeDone::Pending(b)), later(i, j) + 1 + m)
            == Join::<A, B>::with_children(MaybeDone::Taken, MaybeDone::Taken),
        result_at(
            Join::with_children(MaybeDone::Pending(a), MaybeDone::Pending(b)),
            later(i, j) + 1 + m,
        ) is Pending,
    decreases m,
{
    let start = Join::with_children(MaybeDone::Pending(a), MaybeDone::<B>::Pending(b));
    let n = later(i, j);
    let done = Join::<A, B>::with_children(MaybeDone::Taken, MaybeDone::Taken);
    Join::<A, B>::lemma_with_children(MaybeDone::Taken, MaybeDone::Taken);
    done.lemma_step();
    if m == 0 {
        lemma_join_before_done(a, b, i, j, n);
        lemma_iterate_succ(start, n);
        lemma_child_advances(a, i, n);
        lemma_child_advances(b, j, n);
        let sa = child_after(a, i, output_at(a, i), n);
        let sb = child_after(b, j, output_at(b, j), n);
        Join::<A, B>::with_children(sa, sb).lemma_step();
        Join::<A, B>::lemma_with_children(sa, sb);
    } else {
        lemma_join_after_done(a, b, i, j, (m - 1) as nat);
        lemma_iterate_succ(start, n + 1 + (m - 1) as nat);
        assert(n + 1 + m == (n + 1 + (m - 1) as nat) + 1);
    }
}

/// How often a join polls its children: until the join is ready, after
/// `k` of its polls the first child stands where `k` polls of its own leave
/// it, as long as `k` is at most `i`, the number of its first ready poll; from
/// then on it is done, polled `i + 1` times and never again. The same holds
/// of the second child with `j`.
pub proof fn lemma_join_child_polls<A: Pollable, B: Pollable>(a: A, b: B, i: nat, j: nat, k: nat)
    requires
        first_ready_at(a, i),
        first_ready_at(b, j),
        k <= later(i, j),
    ensures
        ({
            let join = Join::with_children(MaybeDone::Pending(a), MaybeDone::Pending(b));
            &&& iterate(join, k).first() == child_after(a, i, output_at(a, i), k)
            &&& iterate(join, k).second() == child_after(b, j, output_at(b, j), k)
        }),
{
    lemma_join_before_done(a, b, i, j, k);
    Join::<A, B>::lemma_with_children(
        child_after(a, i, output_at(a, i), k),
        child_after(b, j, output_at(b, j), k),
    );
}

/// A join of `a` and `b`, where `a` is first ready on its poll numbered `i`
/// and `b` on its poll numbered `j`, is pending until the later of the two,
/// is first ready on that poll with the pair of both outputs, and is pending
/// on every poll after it.
pub proof fn lemma_join_polls<A: Pollable, B: Pollable>(a: A, b: B, i: nat, j: nat)
    requires
        first_ready_at(a, i),
        first_ready_at(b, j),
    ensures
        ({
            let join = Join::with_children(MaybeDone::Pending(a), MaybeDone::Pending(b));
            &&& first_ready_at(join, later(i, j))
            &&& result_at(join, later(i, j)) == Poll::Ready((output_at(a, i), output_at(b, j)))
            &&& forall|k: nat| k > later(i, j) ==> #[trigger] result_at(join, k) is Pending
        }),
{
    let join = Join::with_children(MaybeDone::Pending(a), MaybeDone::<B>::Pending(b));
    let n = later(i, j);
    assert forall|k: nat| k < n implies #[trigger] result_at(join, k) is Pending by {
        lemma_join_before_done(a, b, i, j, k);
    }
    lemma_join_before_done(a, b, i, j, n);
    lemma_child_advances(a, i, n);
    lemma_child_advances(b, j, n);
    let sa = child_after(a, i, output_at(a, i), n);
    let sb = child_after(b, j, output_at(b, j), n);
    Join::<A, B>::with_children(sa, sb).lemma_step();
    assert forall|k: nat| k > n implies #[trigger] result_at(join, k) is Pending by {
        lemma_join_after_done(a, b, i, j, (k - n - 1) as nat);
        assert(k == n + 1 + (k - n - 1) as nat);
    }
}

/// Joining two countdowns, one with `m` left and one with `n` left: the
/// join is first ready on the poll numbered by the larger of the two, with
/// the pair of their starting numbers.
pub proof fn lemma_join_countdowns(a: Countdown, b: Countdown)
    ensures
        ({
            let join = Join::with_children(MaybeDone::Pending(a), MaybeDone::Pending(b));
            &&& first_ready_at(join, later(a@.1, b@.1))
            &&& result_at(join, later(a@.1, b@.1)) == Poll::Ready((a@.0 as u32, b@.0 as u32))
        }),
{
    lemma_countdown_polls(a);
    lemma_countdown_polls(b);
    lemma_join_polls(a, b, a@.1, b@.1);
}

} // verus!
