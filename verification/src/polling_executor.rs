use vstd::prelude::*;

verus! {

/// One of the two tasks that the executors run.
#[derive(Clone, Copy, Debug, PartialEq, Eq, Structural)]
pub enum TaskId {
    First,
    Second,
}

/// A task's future completed, which the executors treat as fatal: their
/// tasks are meant to run forever.
#[derive(Clone, Copy, Debug, PartialEq, Eq, Structural)]
pub struct TaskReturned {
    pub task: TaskId,
}

/// The other task.
pub open spec fn other(t: TaskId) -> TaskId {
    match t {
        TaskId::First => TaskId::Second,
        TaskId::Second => TaskId::First,
    }
}

/// An executor that polls its two futures in turn, forever, without waiting
/// for wake-ups.
#[derive(Clone, Copy, Debug, PartialEq, Eq, Structural)]
pub struct PollingExecutor {
    /// The task to poll next.
    pub next: TaskId,
}

/// The task polled next after `k` pending polls of a fresh executor.
pub open spec fn task_after(k: nat) -> TaskId
    decreases k,
{
    if k == 0 {
        TaskId::First
    } else {
        other(task_after((k - 1) as nat))
    }
}

impl PollingExecutor {
    /// A fresh executor; it polls the first task first.
    pub fn new() -> (e: PollingExecutor)
        ensures
            e.next == TaskId::First,
    {
        PollingExecutor { next: TaskId::First }
    }

    /// The task to poll now.
    pub fn next_task(&self) -> (t: TaskId)
        ensures
            t == self.next,
    {
        self.next
    }

    /// Records what the poll of [`PollingExecutor::next_task`] returned:
    /// a pending task hands the turn to the other one, a completed task is
    /// an error and leaves the executor as it was.
    pub fn task_polled(&mut self, ready: bool) -> (r: Result<(), TaskReturned>)
        ensures
            ready ==> r == Err::<(), TaskReturned>(TaskReturned { task: old(self).next })
                && *final(self) == *old(self),
            !ready ==> r == Ok::<(), TaskReturned>(()) && final(self).next == other(
                old(self).next,
            ),
    {
        if ready {
            Err(TaskReturned { task: self.next })
        } else {
            self.next = match self.next {
                TaskId::First => TaskId::Second,
                TaskId::Second => TaskId::First,
            };
            Ok(())
        }
    }
}

/// Strict alternation: while every poll is pending, a fresh executor polls
/// the first task on even turns and the second on odd turns, so each task is
/// polled exactly once in any two consecutive polls.
pub proof fn lemma_round_robin(k: nat)
    ensures
        task_after(k) == (if k % 2 == 0 { TaskId::First } else { TaskId::Second }),
        task_after(k + 1) != task_after(k),
    decreases k,
{
    if k > 0 {
        lemma_round_robin((k - 1) as nat);
    }
}

} // verus!
