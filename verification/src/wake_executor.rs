use vstd::prelude::*;
use crate::polling_executor::{other, TaskId, TaskReturned};

verus! {

/// Where a wake-flag executor stands within a pass over its two tasks.
#[derive(Clone, Copy, Debug, PartialEq, Eq, Structural)]
pub enum WakePhase {
    /// About to test the first task's flag.
    CheckFirst,
    /// The first task is being polled.
    PollingFirst,
    /// About to test the second task's flag.
    CheckSecond,
    /// The second task is being polled.
    PollingSecond,
    /// Both tasks are done for this pass.
    AfterSecond,
}

/// The outside work a wake-flag executor asks for next.
#[derive(Clone, Copy, Debug, PartialEq, Eq, Structural)]
pub enum ExecAction {
    /// Poll the future of the given task.
    Poll(TaskId),
    /// The pass is over: sleep until an interrupt.
    WaitForInterrupt,
}

/// An executor that polls a task only when that task's waker has set its
/// flag since that task's last poll began, and sleeps until an interrupt
/// after each pass. A flag is cleared as the poll begins, so a wake that the
/// task makes during its own poll sets it again and earns a later poll.
#[derive(Clone, Copy, Debug, PartialEq, Eq, Structural)]
pub struct WakeExecutor {
    pub first_woken: bool,
    pub second_woken: bool,
    pub phase: WakePhase,
}

/// Whether the executor is waiting for a poll to return.
pub open spec fn is_polling(s: WakeExecutor) -> bool {
    s.phase == WakePhase::PollingFirst || s.phase == WakePhase::PollingSecond
}

/// The flag of task `t`.
pub open spec fn woken(s: WakeExecutor, t: TaskId) -> bool {
    match t {
        TaskId::First => s.first_woken,
        TaskId::Second => s.second_woken,
    }
}

/// The state after task `t`'s waker fires.
pub open spec fn after_wake(s: WakeExecutor, t: TaskId) -> WakeExecutor {
    match t {
        TaskId::First => WakeExecutor { first_woken: true, ..s },
        TaskId::Second => WakeExecutor { second_woken: true, ..s },
    }
}

/// The second half of a pass: poll the second task if it is woken (taking
/// its wake), else sleep and start the next pass.
pub open spec fn check_second(s: WakeExecutor) -> (WakeExecutor, ExecAction) {
    if s.second_woken {
        (
            WakeExecutor { second_woken: false, phase: WakePhase::PollingSecond, ..s },
            ExecAction::Poll(TaskId::Second),
        )
    } else {
        (WakeExecutor { phase: WakePhase::CheckFirst, ..s }, ExecAction::WaitForInterrupt)
    }
}

/// The next state and action when the executor is not waiting for a poll.
/// Starting a poll clears the task's flag: the wake it answers is used up.
pub open spec fn next_step(s: WakeExecutor) -> (WakeExecutor, ExecAction) {
    match s.phase {
        WakePhase::CheckFirst => if s.first_woken {
            (
                WakeExecutor { first_woken: false, phase: WakePhase::PollingFirst, ..s },
                ExecAction::Poll(TaskId::First),
            )
        } else {
            check_second(s)
        },
        WakePhase::CheckSecond => check_second(s),
        _ => (WakeExecutor { phase: WakePhase::CheckFirst, ..s }, ExecAction::WaitForInterrupt),
    }
}

/// The state after the current poll returned pending: the pass moves on and
/// the flags are kept, so a wake made during the poll is still there.
pub open spec fn after_pending_poll(s: WakeExecutor) -> WakeExecutor {
    if s.phase == WakePhase::PollingFirst {
        WakeExecutor { phase: WakePhase::CheckSecond, ..s }
    } else {
        WakeExecutor { phase: WakePhase::AfterSecond, ..s }
    }
}

impl WakeExecutor {
    /// A fresh executor: both tasks count as woken, so each is polled once in
    /// the first pass.
    pub fn new() -> (e: WakeExecutor)
        ensures
            e == (WakeExecutor {
                first_woken: true,
                second_woken: true,
                phase: WakePhase::CheckFirst,
            }),
    {
        WakeExecutor { first_woken: true, second_woken: true, phase: WakePhase::CheckFirst }
    }

    /// Task `t`'s waker fired: set its flag.
    pub fn wake(&mut self, t: TaskId)
        ensures
            *final(self) == after_wake(*old(self), t),
    {
        match t {
            TaskId::First => self.first_woken = true,
            TaskId::Second => self.second_woken = true,
        }
    }

    /// The task being polled, if a poll is under way.
    pub fn polling_task(&self) -> (t: Option<TaskId>)
        ensures
            t == (match self.phase {
                WakePhase::PollingFirst => Some(TaskId::First),
                WakePhase::PollingSecond => Some(TaskId::Second),
                _ => None::<TaskId>,
            }),
    {
        match self.phase {
            WakePhase::PollingFirst => Some(TaskId::First),
            WakePhase::PollingSecond => Some(TaskId::Second),
            _ => None,
        }
    }

    /// Decides the next outside work: poll the next woken task of this pass,
    /// clearing its flag, or, once both tasks are tested, sleep until an
    /// interrupt.
    pub fn next_action(&mut self) -> (a: ExecAction)
        requires
            !is_polling(*old(self)),
        ensures
            (*final(self), a) == next_step(*old(self)),
    {
        match self.phase {
            WakePhase::CheckFirst => {
                if self.first_woken {
                    self.first_woken = false;
                    self.phase = WakePhase::PollingFirst;
                    return ExecAction::Poll(TaskId::First);
                }
            },
            WakePhase::CheckSecond => {},
            _ => {
                self.phase = WakePhase::CheckFirst;
                return ExecAction::WaitForInterrupt;
            },
        }
        if self.second_woken {
            self.second_woken = false;
            self.phase = WakePhase::PollingSecond;
            ExecAction::Poll(TaskId::Second)
        } else {
            self.phase = WakePhase::CheckFirst;
            ExecAction::WaitForInterrupt
        }
    }

    /// Records what the poll under way returned. After a pending poll the
    /// pass goes on, keeping any wake made during the poll; a completed task
    /// is an error and leaves the executor as it was.
    pub fn poll_finished(&mut self, ready: bool) -> (r: Result<(), TaskReturned>)
        requires
            is_polling(*old(self)),
        ensures
            ready ==> r == Err::<(), TaskReturned>(
                TaskReturned {
                    task: if old(self).phase == WakePhase::PollingFirst {
                        TaskId::First
                    } else {
                        TaskId::Second
                    },
                },
            ) && *final(self) == *old(self),
            !ready ==> r == Ok::<(), TaskReturned>(()) && *final(self) == after_pending_poll(
                *old(self),
            ),
    {
        let task = match self.phase {
            WakePhase::PollingFirst => TaskId::First,
            _ => TaskId::Second,
        };
        if ready {
            return Err(TaskReturned { task });
        }
        match task {
            TaskId::First => self.phase = WakePhase::CheckSecond,
            TaskId::Second => self.phase = WakePhase::AfterSecond,
        }
        Ok(())
    }
}

/// The tasks polled, and the state reached, when the executor runs from `s`
/// with every poll pending and no waker firing, up to and including the next
/// sleep (or until `fuel` steps are spent).
pub open spec fn run_until_sleep(s: WakeExecutor, fuel: nat) -> (Seq<TaskId>, WakeExecutor)
    decreases fuel,
{
    if fuel == 0 {
        (Seq::empty(), s)
    } else if is_polling(s) {
        run_until_sleep(after_pending_poll(s), (fuel - 1) as nat)
    } else {
        let (s2, a) = next_step(s);
        match a {
            ExecAction::WaitForInterrupt => (Seq::empty(), s2),
            ExecAction::Poll(t) => {
                let (p, s3) = run_until_sleep(s2, (fuel - 1) as nat);
                (seq![t] + p, s3)
            },
        }
    }
}

/// The tasks a full pass polls: the woken ones, first task first.
pub open spec fn woken_tasks(first: bool, second: bool) -> Seq<TaskId> {
    (if first { seq![TaskId::First] } else { Seq::empty() }) + (if second {
        seq![TaskId::Second]
    } else {
        Seq::empty()
    })
}

/// One pass polls exactly the tasks whose flags were set when it began, in
/// order, then sleeps with both flags clear and ready to start the next pass.
pub proof fn lemma_pass_polls_woken_tasks(first: bool, second: bool)
    ensures
        run_until_sleep(
            WakeExecutor { first_woken: first, second_woken: second, phase: WakePhase::CheckFirst },
            5,
        ) == (
            woken_tasks(first, second),
            WakeExecutor { first_woken: false, second_woken: false, phase: WakePhase::CheckFirst },
        ),
{
    reveal_with_fuel(run_until_sleep, 6);
    assert(seq![TaskId::First] + Seq::<TaskId>::empty() =~= seq![TaskId::First]);
    assert(Seq::<TaskId>::empty() + seq![TaskId::Second] =~= seq![TaskId::Second]);
    assert(seq![TaskId::Second] + Seq::<TaskId>::empty() =~= seq![TaskId::Second]);
    assert(seq![TaskId::First] + seq![TaskId::Second] =~= seq![TaskId::First, TaskId::Second]);
    assert(seq![TaskId::First] + (seq![TaskId::Second] + Seq::<TaskId>::empty()) =~= seq![
        TaskId::First,
        TaskId::Second,
    ]);
    assert(Seq::<TaskId>::empty() + Seq::<TaskId>::empty() =~= Seq::<TaskId>::empty());
}

/// Running up to the next sleep from any state ends at the start of a pass,
/// and a set flag is either served on the way or still set at the end.
pub proof fn lemma_run_until_sleep_keeps_flags(s: WakeExecutor, t: TaskId)
    ensures
        run_until_sleep(s, 5).1.phase == WakePhase::CheckFirst,
        woken(s, t) ==> run_until_sleep(s, 5).0.contains(t) || woken(run_until_sleep(s, 5).1, t),
{
    reveal_with_fuel(run_until_sleep, 6);
    let (p, e) = run_until_sleep(s, 5);
    if woken(s, t) && !woken(e, t) {
        assert(p.len() > 0 && p[0] == t || p.len() > 1 && p[1] == t);
    }
}

/// No wake-up is lost: if a task's flag is set, including by a wake made
/// during that task's own poll, the task is polled again before the executor
/// has slept twice.
pub proof fn lemma_wake_served(s: WakeExecutor, t: TaskId)
    requires
        woken(s, t),
    ensures
        run_until_sleep(s, 5).0.contains(t) || run_until_sleep(run_until_sleep(s, 5).1, 5).0.contains(t),
{
    let (p1, s1) = run_until_sleep(s, 5);
    lemma_run_until_sleep_keeps_flags(s, t);
    lemma_pass_polls_woken_tasks(s1.first_woken, s1.second_woken);
    assert(s1 == WakeExecutor { first_woken: s1.first_woken, second_woken: s1.second_woken, phase: WakePhase::CheckFirst });
    if !p1.contains(t) {
        let w = woken_tasks(s1.first_woken, s1.second_woken);
        match t {
            TaskId::First => assert(w[0] == t),
            TaskId::Second => assert(w[w.len() - 1] == t),
        }
    }
}

/// A task woken during its own poll is polled again: its wake survives the
/// end of the poll.
pub proof fn lemma_wake_during_own_poll_kept(s: WakeExecutor, t: TaskId)
    requires
        is_polling(s),
        t == (if s.phase == WakePhase::PollingFirst { TaskId::First } else { TaskId::Second }),
    ensures
        woken(after_pending_poll(after_wake(s, t)), t),
{
}

/// One thing that happens to a wake-flag executor as the firmware runs it.
#[derive(Clone, Copy, Debug, PartialEq, Eq, Structural)]
pub enum ExecEvent {
    /// The given task's waker fires.
    Wake(TaskId),
    /// The firmware asks for the next action (when no poll is under way).
    Next,
    /// The poll under way returns: ready or pending.
    Returned(bool),
}

/// The tasks polled, the state reached, the task that completed (after
/// which the firmware stops), the number of sleeps, and the tasks polled
/// since the last sleep, over a run of events.
pub struct ExecTrace {
    pub polls: Seq<TaskId>,
    pub state: WakeExecutor,
    pub returned: Option<TaskId>,
    pub sleeps: nat,
    pub pass_polls: Seq<TaskId>,
}

/// The task whose poll is under way in `s`.
pub open spec fn polled_task(s: WakeExecutor) -> TaskId {
    if s.phase == WakePhase::PollingFirst { TaskId::First } else { TaskId::Second }
}

/// The trace of a run from `s` over `events`, each event taken as the step
/// functions take it; events that break the protocol (`Next` during a poll,
/// `Returned` outside one) change nothing, and nothing happens after a task
/// completed.
pub open spec fn run_events(s: WakeExecutor, events: Seq<ExecEvent>) -> ExecTrace
    decreases events.len(),
{
    if events.len() == 0 {
        ExecTrace {
            polls: Seq::empty(),
            state: s,
            returned: None,
            sleeps: 0,
            pass_polls: Seq::empty(),
        }
    } else {
        let before = run_events(s, events.drop_last());
        if before.returned is Some {
            before
        } else {
            match events.last() {
                ExecEvent::Wake(t) => ExecTrace { state: after_wake(before.state, t), ..before },
                ExecEvent::Next => if is_polling(before.state) {
                    before
                } else {
                    let (s2, a) = next_step(before.state);
                    match a {
                        ExecAction::Poll(t) => ExecTrace {
                            polls: before.polls.push(t),
                            state: s2,
                            pass_polls: before.pass_polls.push(t),
                            ..before
                        },
                        ExecAction::WaitForInterrupt => ExecTrace {
                            state: s2,
                            sleeps: before.sleeps + 1,
                            pass_polls: Seq::empty(),
                            ..before
                        },
                    }
                },
                ExecEvent::Returned(ready) => if !is_polling(before.state) {
                    before
                } else if ready {
                    ExecTrace { returned: Some(polled_task(before.state)), ..before }
                } else {
                    ExecTrace { state: after_pending_poll(before.state), ..before }
                },
            }
        }
    }
}

/// No busy polling: a task whose flag is clear (because it has not been
/// woken since its last poll began) is not polled again, however the run goes
/// on, until its waker fires.
pub proof fn lemma_no_poll_without_wake(s: WakeExecutor, events: Seq<ExecEvent>, t: TaskId)
    requires
        !woken(s, t),
        forall|i: int| 0 <= i < events.len() ==> events[i] != ExecEvent::Wake(t),
    ensures
        !run_events(s, events).polls.contains(t),
        !woken(run_events(s, events).state, t),
    decreases events.len(),
{
    if events.len() > 0 {
        let prefix = events.drop_last();
        assert forall|i: int| 0 <= i < prefix.len() implies prefix[i] != ExecEvent::Wake(t) by {
            assert(prefix[i] == events[i]);
        }
        lemma_no_poll_without_wake(s, prefix, t);
        let before = run_events(s, prefix);
        assert(events.last() == events[events.len() - 1]);
        if before.returned is None && events.last() == ExecEvent::Next && !is_polling(before.state) {
            let (s2, a) = next_step(before.state);
            if a is Poll {
                assert(a->0 != t);
                assert forall|j: int| 0 <= j < before.polls.push(a->0).len() implies before.polls.push(a->0)[j] != t by {
                    if j < before.polls.len() {
                        assert(before.polls.push(a->0)[j] == before.polls[j]);
                    }
                }
            }
        }
    }
}

/// The run stops at the first completed poll: once a task has returned,
/// no later event polls anything or changes the state.
pub proof fn lemma_nothing_after_return(s: WakeExecutor, events: Seq<ExecEvent>, more: Seq<ExecEvent>)
    requires
        run_events(s, events).returned is Some,
    ensures
        run_events(s, events + more) == run_events(s, events),
    decreases more.len(),
{
    if more.len() == 0 {
        assert(events + more =~= events);
    } else {
        lemma_nothing_after_return(s, events, more.drop_last());
        assert((events + more).drop_last() =~= events + more.drop_last());
    }
}

/// A task is reported as returned only by a ready poll of that very task.
pub proof fn lemma_returned_only_when_ready(s: WakeExecutor, events: Seq<ExecEvent>)
    ensures
        run_events(s, events).returned is Some ==> exists|i: int|
            0 <= i < events.len() && events[i] == ExecEvent::Returned(true),
    decreases events.len(),
{
    if events.len() > 0 {
        lemma_returned_only_when_ready(s, events.drop_last());
        let before = run_events(s, events.drop_last());
        if before.returned is Some {
            let i = choose|i: int| 0 <= i < events.drop_last().len() && events.drop_last()[i] == ExecEvent::Returned(true);
            assert(events[i] == events.drop_last()[i]);
        } else if run_events(s, events).returned is Some {
            assert(events[events.len() - 1] == ExecEvent::Returned(true));
        }
    }
}

/// A woken task that has not yet been polled in a pass begun since the last
/// sleep still has its check ahead of it in the current pass.
pub open spec fn check_ahead(p: WakePhase, t: TaskId) -> bool {
    match t {
        TaskId::First => p == WakePhase::CheckFirst,
        TaskId::Second => p == WakePhase::CheckFirst || p == WakePhase::PollingFirst || p
            == WakePhase::CheckSecond,
    }
}

/// Either the woken task `t` has been polled in the run, or it is still
/// woken, has slept at most once, and after a sleep its check is still ahead.
pub open spec fn wake_pending(tr: ExecTrace, t: TaskId) -> bool {
    tr.polls.contains(t) || (woken(tr.state, t) && tr.sleeps <= 1 && (tr.sleeps == 1 ==> check_ahead(tr.state.phase, t)))
}

/// Each event keeps a woken task's claim: it is polled, or still pending.
proof fn lemma_wake_pending_step(s: WakeExecutor, events: Seq<ExecEvent>, t: TaskId)
    requires
        events.len() > 0,
        wake_pending(run_events(s, events.drop_last()), t),
    ensures
        wake_pending(run_events(s, events), t),
{
    let before = run_events(s, events.drop_last());
    let after = run_events(s, events);
    if before.polls.contains(t) {
        let i = choose|i: int| 0 <= i < before.polls.len() && before.polls[i] == t;
        if after.polls != before.polls {
            assert(after.polls[i] == t);
        }
    } else if before.returned is None {
        match events.last() {
            ExecEvent::Next => if !is_polling(before.state) {
                let (s2, a) = next_step(before.state);
                if let ExecAction::Poll(u) = a {
                    if u == t {
                        assert(after.polls[after.polls.len() - 1] == t);
                    }
                }
            },
            _ => {},
        }
    }
}

/// Wakes are served even when other events interleave: whatever wakes and
/// polls come in between, a woken task is polled before the executor has
/// slept twice (unless a task completes first, which stops everything).
pub proof fn lemma_wake_served_in_any_run(s: WakeExecutor, events: Seq<ExecEvent>, t: TaskId)
    requires
        woken(s, t),
    ensures
        wake_pending(run_events(s, events), t),
        run_events(s, events).sleeps >= 2 ==> run_events(s, events).polls.contains(t),
    decreases events.len(),
{
    if events.len() > 0 {
        lemma_wake_served_in_any_run(s, events.drop_last(), t);
        lemma_wake_pending_step(s, events, t);
    }
}

/// Once the second task's poll has returned pending, the pass is over: the
/// next action, whatever the flags (including wakes made during that poll),
/// is to sleep, and the executor then stands at the start of a new pass.
pub proof fn lemma_pass_ends_after_second_poll(s: WakeExecutor, wake_first: bool, wake_second: bool)
    requires
        s.phase == WakePhase::PollingSecond,
    ensures
        ({
            let s1 = WakeExecutor {
                first_woken: s.first_woken || wake_first,
                second_woken: s.second_woken || wake_second,
                ..s
            };
            let (s2, a) = next_step(after_pending_poll(s1));
            &&& a == ExecAction::WaitForInterrupt
            &&& s2.phase == WakePhase::CheckFirst
            &&& s2.first_woken == s1.first_woken
            &&& s2.second_woken == s1.second_woken
        }),
{
}

/// The passes a run may have made so far, given where it stands: nothing
/// at the start of a pass; at most the first task while in its poll or
/// before the second check; while in or after the second task's poll, the
/// second task, perhaps after the first.
pub open spec fn pass_so_far(p: WakePhase, pp: Seq<TaskId>) -> bool {
    match p {
        WakePhase::CheckFirst => pp.len() == 0,
        WakePhase::PollingFirst | WakePhase::CheckSecond => pp.len() == 0 || pp == seq![
            TaskId::First,
        ],
        _ => pp.len() == 0 || pp == seq![TaskId::Second] || pp == seq![
            TaskId::First,
            TaskId::Second,
        ],
    }
}

/// Each pass polls each task at most once, the first before the second:
/// in any run, whatever wakes and poll results interleave, the tasks polled
/// since the last sleep are none, one task, or the first then the second.
pub proof fn lemma_each_task_once_per_pass(s: WakeExecutor, events: Seq<ExecEvent>)
    ensures
        pass_so_far(run_events(s, events).state.phase, run_events(s, events).pass_polls),
        run_events(s, events).pass_polls.len() <= 2,
        run_events(s, events).pass_polls.len() == 2 ==> run_events(s, events).pass_polls[0]
            == TaskId::First && run_events(s, events).pass_polls[1] == TaskId::Second,
    decreases events.len(),
{
    if events.len() > 0 {
        lemma_each_task_once_per_pass(s, events.drop_last());
        let before = run_events(s, events.drop_last());
        if before.returned is None && events.last() == ExecEvent::Next && !is_polling(before.state) {
            let (s2, a) = next_step(before.state);
            if let ExecAction::Poll(u) = a {
                if u == TaskId::First {
                    assert(before.pass_polls.push(u) =~= seq![TaskId::First]);
                } else if before.pass_polls.len() == 0 {
                    assert(before.pass_polls.push(u) =~= seq![TaskId::Second]);
                } else {
                    assert(before.pass_polls.push(u) =~= seq![TaskId::First, TaskId::Second]);
                }
            }
        }
    }
}

/// The number of polls of task `u` in `polls`.
pub open spec fn polls_of(polls: Seq<TaskId>, u: TaskId) -> nat
    decreases polls.len(),
{
    if polls.len() == 0 {
        0
    } else {
        polls_of(polls.drop_last(), u) + if polls.last() == u {
            1nat
        } else {
            0nat
        }
    }
}

/// After the other task has overtaken woken task `t` once, `t` is next in
/// line: the executor stands where the next task it can poll is `t`.
pub open spec fn next_in_line(t: TaskId, p: WakePhase) -> bool {
    match t {
        TaskId::First => p == WakePhase::PollingSecond || p == WakePhase::AfterSecond || p
            == WakePhase::CheckFirst,
        TaskId::Second => p == WakePhase::PollingFirst || p == WakePhase::CheckSecond,
    }
}

/// Either the woken task `t` has been polled, or it is still woken and the
/// other task has overtaken it at most once, after which `t` is next.
pub open spec fn overtaken_at_most_once(tr: ExecTrace, t: TaskId) -> bool {
    tr.polls.contains(t) || (woken(tr.state, t) && (polls_of(tr.polls, other(t)) == 0 || (
    polls_of(tr.polls, other(t)) == 1 && next_in_line(t, tr.state.phase))))
}

/// Each event keeps the bound on overtaking.
proof fn lemma_overtaking_step(s: WakeExecutor, events: Seq<ExecEvent>, t: TaskId)
    requires
        events.len() > 0,
        overtaken_at_most_once(run_events(s, events.drop_last()), t),
    ensures
        overtaken_at_most_once(run_events(s, events), t),
{
    let before = run_events(s, events.drop_last());
    let after = run_events(s, events);
    if before.polls.contains(t) {
        let i = choose|i: int| 0 <= i < before.polls.len() && before.polls[i] == t;
        if after.polls != before.polls {
            assert(after.polls[i] == t);
        }
    } else if before.returned is None && events.last() == ExecEvent::Next && !is_polling(
        before.state,
    ) {
        let (s2, a) = next_step(before.state);
        if let ExecAction::Poll(u) = a {
            assert(after.polls.drop_last() =~= before.polls);
            if u == t {
                assert(after.polls[after.polls.len() - 1] == t);
            }
        }
    }
}

/// No starvation, counted in polls: once a task's flag is set (by any wake,
/// including one during its own poll), the other task is polled at most once
/// before it, whatever wakes and poll results come in between, even when the
/// other task wakes itself on every poll.
pub proof fn lemma_bounded_overtaking(s: WakeExecutor, events: Seq<ExecEvent>, t: TaskId)
    requires
        woken(s, t),
    ensures
        overtaken_at_most_once(run_events(s, events), t),
        !run_events(s, events).polls.contains(t) ==> polls_of(
            run_events(s, events).polls,
            other(t),
        ) <= 1,
    decreases events.len(),
{
    if events.len() > 0 {
        lemma_bounded_overtaking(s, events.drop_last(), t);
        lemma_overtaking_step(s, events, t);
    }
}

} // verus!
