use vstd::prelude::*;

verus! {

/// The count that a fresh countdown future starts from.
pub const COUNTDOWN_START: usize = 1_000_000;

/// The value that a countdown future completes with.
pub const COUNTDOWN_RESULT: usize = 42;

/// A future that stays pending for `count` polls, asking to be polled again
/// each time, and then completes with [`COUNTDOWN_RESULT`].
pub struct MyFuture {
    pub count: usize,
}

/// What one poll of a countdown future gives back.
#[derive(Clone, Copy, Debug, PartialEq, Eq, Structural)]
pub enum CountdownPoll {
    Pending,
    Ready(usize),
}

/// One poll of a countdown future: its outcome, the notes to print, and
/// whether the task must be woken again at once.
#[derive(Clone, Copy, Debug, PartialEq, Eq, Structural)]
pub struct PollReport {
    pub outcome: CountdownPoll,
    /// "Polled first time": the count still stood at [`COUNTDOWN_START`].
    pub first_poll_note: bool,
    /// "Ready": the count had reached zero.
    pub ready_note: bool,
    /// The poll asks the executor to poll again right away.
    pub wake: bool,
}

/// The count after one poll at count `count`.
pub open spec fn next_count(count: nat) -> nat {
    if count > 0 { (count - 1) as nat } else { 0 }
}

/// The outcome of a poll made at count `count`.
pub open spec fn poll_outcome(count: nat) -> CountdownPoll {
    if count > 0 { CountdownPoll::Pending } else { CountdownPoll::Ready(COUNTDOWN_RESULT) }
}

/// The full report of a poll made at count `count`.
pub open spec fn poll_report(count: nat) -> PollReport {
    PollReport {
        outcome: poll_outcome(count),
        first_poll_note: count == COUNTDOWN_START,
        ready_note: count == 0,
        wake: count > 0,
    }
}

/// The count of a future that started at `start` after `polls` polls.
pub open spec fn count_after(start: nat, polls: nat) -> nat
    decreases polls,
{
    if polls == 0 {
        start
    } else {
        next_count(count_after(start, (polls - 1) as nat))
    }
}

impl MyFuture {
    /// The future that the example task awaits: a countdown from
    /// [`COUNTDOWN_START`].
    pub fn new() -> (f: MyFuture)
        ensures
            f.count == COUNTDOWN_START,
    {
        MyFuture { count: COUNTDOWN_START }
    }

    /// Polls the future once: while the count is positive it goes down by one
    /// and the poll is pending with an immediate wake; at zero the future is
    /// ready with [`COUNTDOWN_RESULT`].
    pub fn poll(&mut self) -> (r: PollReport)
        ensures
            r == poll_report(old(self).count as nat),
            final(self).count == next_count(old(self).count as nat),
    {
        let first_poll_note = self.count == COUNTDOWN_START;
        let ready_note = self.count == 0;
        if self.count > 0 {
            self.count = self.count - 1;
            PollReport { outcome: CountdownPoll::Pending, first_poll_note, ready_note, wake: true }
        } else {
            PollReport {
                outcome: CountdownPoll::Ready(COUNTDOWN_RESULT),
                first_poll_note,
                ready_note,
                wake: false,
            }
        }
    }
}

/// After `k` polls a countdown from `start` stands at `start - k`, or at zero
/// once `k` reaches `start`.
pub proof fn lemma_count_after(start: nat, k: nat)
    ensures
        count_after(start, k) == (if k <= start { (start - k) as nat } else { 0nat }),
    decreases k,
{
    if k > 0 {
        lemma_count_after(start, (k - 1) as nat);
    }
}

/// A countdown future that starts at `start` is pending on exactly its first
/// `start` polls, each of which asks for an immediate wake, and every later
/// poll (the `start + 1`-th and after) completes with [`COUNTDOWN_RESULT`].
pub proof fn lemma_countdown_completes_after_start_polls(start: nat, k: nat)
    ensures
        k < start ==> poll_outcome(count_after(start, k)) == CountdownPoll::Pending
            && poll_report(count_after(start, k)).wake,
        k >= start ==> poll_outcome(count_after(start, k)) == CountdownPoll::Ready(
            COUNTDOWN_RESULT,
        ) && !poll_report(count_after(start, k)).wake,
{
    lemma_count_after(start, k);
}

/// A fresh countdown prints "Polled first time" on its first poll only, and
/// "Ready" on every poll from the completing one on.
pub proof fn lemma_countdown_notes(k: nat)
    ensures
        poll_report(count_after(COUNTDOWN_START as nat, k)).first_poll_note <==> k == 0,
        poll_report(count_after(COUNTDOWN_START as nat, k)).ready_note <==> k
            >= COUNTDOWN_START,
{
    lemma_count_after(COUNTDOWN_START as nat, k);
}

} // verus!
