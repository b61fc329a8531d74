use vstd::prelude::*;

use crate::poll::{first_ready_at, iterate, lemma_iterate_succ, result_at, Poll, Pollable};

verus! {

/// A future that stays pending for `count` polls, counting down by one on
/// each, and then reports that it is done.
pub struct CountdownFuture {
    count: u32,
}

impl View for CountdownFuture {
    type V = nat;

    closed spec fn view(&self) -> nat {
        self.count as nat
    }
}

impl CountdownFuture {
    pub fn new(count: u32) -> (r: Self)
        ensures
            r@ == count,
    {
        CountdownFuture { count }
    }

    /// The number of pending polls left before the future is done.
    pub fn count(&self) -> (r: u32)
        ensures
            r == self@,
    {
        self.count
    }
}

/// What a finished countdown reports.
pub open spec fn countdown_done_text() -> &'static str {
    "完成"
}

impl Pollable for CountdownFuture {
    type Output = &'static str;

    closed spec fn step(self) -> (Self, Poll<&'static str>) {
        if self.count == 0 {
            (self, Poll::Ready(countdown_done_text()))
        } else {
            (CountdownFuture { count: (self.count - 1) as u32 }, Poll::Pending)
        }
    }

    fn poll(&mut self) -> (r: Poll<&'static str>) {
        if self.count == 0 {
            Poll::Ready("完成")
        } else {
            self.count = self.count - 1;
            Poll::Pending
        }
    }
}

impl CountdownFuture {
    /// One poll: done when the count is zero, and the count is left as it is;
    /// otherwise pending, with the count one less.
    pub proof fn lemma_step(self)
        ensures
            self@ == 0 ==> self.step() == (self, Poll::Ready(countdown_done_text())),
            self@ > 0 ==> self.step().1 == Poll::<&'static str>::Pending && self.step().0@ == self@ - 1,
    {
    }

    /// After `k` polls, `k` no more than the count, the count is `k` less.
    pub proof fn lemma_iterate(self, k: nat)
        requires
            k <= self@,
        ensures
            iterate(self, k)@ == self@ - k,
        decreases k,
    {
        if k > 0 {
            self.lemma_iterate((k - 1) as nat);
            lemma_iterate_succ(self, (k - 1) as nat);
            iterate(self, (k - 1) as nat).lemma_step();
        }
    }
}

/// A countdown that starts at `n` is pending on each of its first `n`
/// polls, and the poll after them is the first that reports it done.
pub proof fn lemma_countdown_future_polls(f: CountdownFuture)
    ensures
        forall|k: nat| k < f@ ==> #[trigger] result_at(f, k) is Pending,
        first_ready_at(f, f@),
        result_at(f, f@) == Poll::Ready(countdown_done_text()),
{
    assert forall|k: nat| k < f@ implies #[trigger] result_at(f, k) is Pending by {
        f.lemma_iterate(k);
        iterate(f, k).lemma_step();
    }
    f.lemma_iterate(f@);
    iterate(f, f@).lemma_step();
}

/// Once a countdown future is done it stays done: every poll from the one
/// numbered by its count on reports "完成".
pub proof fn lemma_countdown_future_stays_done(f: CountdownFuture, k: nat)
    requires
        k >= f@,
    ensures
        iterate(f, k)@ == 0,
        result_at(f, k) == Poll::Ready(countdown_done_text()),
    decreases k,
{
    if k == f@ {
        f.lemma_iterate(k);
    } else {
        lemma_countdown_future_stays_done(f, (k - 1) as nat);
        lemma_iterate_succ(f, (k - 1) as nat);
        iterate(f, (k - 1) as nat).lemma_step();
    }
    iterate(f, k).lemma_step();
}

/// A countdown that reports, once it has counted down from `from` to zero,
/// the number it started from.
pub struct Countdown {
    from: u32,
    left: u32,
}

impl View for Countdown {
    type V = (nat, nat);

    /// The number it started from, and the pending polls left.
    closed spec fn view(&self) -> (nat, nat) {
        (self.from as nat, self.left as nat)
    }
}

/// A countdown from `from`: pending on each of its first `from` polls, then
/// ready with `from`.
pub fn countdown(from: u32) -> (r: Countdown)
    ensures
        r@ == (from as nat, from as nat),
{
    Countdown { from, left: from }
}

impl Countdown {
    /// The number of pending polls left.
    pub fn left(&self) -> (r: u32)
        ensures
            r == self@.1,
    {
        self.left
    }

    /// The number the countdown started from.
    pub fn from(&self) -> (r: u32)
        ensures
            r == self@.0,
    {
        self.from
    }

    /// One poll: ready with the starting number when none are left, and
    /// nothing changes; otherwise pending, with one less left.
    pub proof fn lemma_step(self)
        ensures
            self@.1 == 0 ==> self.step() == (self, Poll::Ready(self@.0 as u32)),
            self@.1 > 0 ==> self.step().1 == Poll::<u32>::Pending && self.step().0@ == (
                self@.0,
                (self@.1 - 1) as nat,
            ),
    {
    }

    /// After `k` polls, `k` no more than what is left, `k` less are left.
    pub proof fn lemma_iterate(self, k: nat)
        requires
            k <= self@.1,
        ensures
            iterate(self, k)@ == (self@.0, (self@.1 - k) as nat),
        decreases k,
    {
        if k > 0 {
            self.lemma_iterate((k - 1) as nat);
            lemma_iterate_succ(self, (k - 1) as nat);
            iterate(self, (k - 1) as nat).lemma_step();
        }
    }
}

impl Pollable for Countdown {
    type Output = u32;

    closed spec fn step(self) -> (Self, Poll<u32>) {
        if self.left == 0 {
            (self, Poll::Ready(self.from))
        } else {
            (Countdown { from: self.from, left: (self.left - 1) as u32 }, Poll::Pending)
        }
    }

    fn poll(&mut self) -> (r: Poll<u32>) {
        if self.left == 0 {
            Poll::Ready(self.from)
        } else {
            self.left = self.left - 1;
            Poll::Pending
        }
    }
}

/// A countdown with `n` left is pending on each of its next `n` polls, and
/// the poll after them is the first ready one, with the starting number.
pub proof fn lemma_countdown_polls(c: Countdown)
    ensures
        forall|k: nat| k < c@.1 ==> #[trigger] result_at(c, k) is Pending,
        first_ready_at(c, c@.1),
        result_at(c, c@.1) == Poll::Ready(c@.0 as u32),
{
    assert forall|k: nat| k < c@.1 implies #[trigger] result_at(c, k) is Pending by {
        c.lemma_iterate(k);
        iterate(c, k).lemma_step();
    }
    c.lemma_iterate(c@.1);
    iterate(c, c@.1).lemma_step();
}

/// Once a countdown is ready it stays ready: every poll from the one
/// numbered by what is left on reports the starting number.
pub proof fn lemma_countdown_stays_ready(c: Countdown, k: nat)
    requires
        k >= c@.1,
    ensures
        iterate(c, k)@ == (c@.0, 0nat),
        result_at(c, k) == Poll::Ready(c@.0 as u32),
    decreases k,
{
    if k == c@.1 {
        c.lemma_iterate(k);
    } else {
        lemma_countdown_stays_ready(c, (k - 1) as nat);
        lemma_iterate_succ(c, (k - 1) as nat);
        iterate(c, (k - 1) as nat).lemma_step();
    }
    iterate(c, k).lemma_step();
}

} // verus!
