use vstd::prelude::*;
use crate::interval::{blink_interval_ticks, ticks_of_millis, BLINK_PERIOD_MS};

verus! {

/// Where the hand-written blinking future stands.
#[derive(Clone, Copy, Debug, PartialEq, Eq, Structural)]
pub enum BlinkyState {
    /// About to start a timer for the blink interval.
    Start,
    /// A timer is running; each poll polls it.
    Waiting,
    /// The timer has fired; the next poll toggles the LED.
    Elapsed,
}

/// The outside work that one poll of the blinking future asks for.
#[derive(Clone, Copy, Debug, PartialEq, Eq, Structural)]
pub enum BlinkyAction {
    /// Start a timer that fires after this many ticks.
    StartTimer(u64),
    /// Nothing beyond the timer poll that was already made.
    Nothing,
    /// Print the toggle note and toggle the LED.
    ToggleLed,
}

/// What one poll of the blinking future does: its action, and that it stays
/// pending and wakes its task again at once.
#[derive(Clone, Copy, Debug, PartialEq, Eq, Structural)]
pub struct BlinkyPoll {
    pub action: BlinkyAction,
    pub pending: bool,
    pub wake: bool,
}

/// The blinking future's own state; the timer and the LED are held by the
/// firmware that drives it.
#[derive(Clone, Copy, Debug, PartialEq, Eq, Structural)]
pub struct Blinky {
    pub state: BlinkyState,
}

/// The state after one poll in `state`, where `timer_ready` is what the
/// running timer's poll returned (it matters only while waiting).
pub open spec fn next_state(state: BlinkyState, timer_ready: bool) -> BlinkyState {
    match state {
        BlinkyState::Start => BlinkyState::Waiting,
        BlinkyState::Waiting => if timer_ready {
            BlinkyState::Elapsed
        } else {
            BlinkyState::Waiting
        },
        BlinkyState::Elapsed => BlinkyState::Start,
    }
}

/// The action of one poll in `state`.
pub open spec fn action_of(state: BlinkyState) -> BlinkyAction {
    match state {
        BlinkyState::Start => BlinkyAction::StartTimer(
            ticks_of_millis(BLINK_PERIOD_MS as nat) as u64,
        ),
        BlinkyState::Waiting => BlinkyAction::Nothing,
        BlinkyState::Elapsed => BlinkyAction::ToggleLed,
    }
}

impl Blinky {
    /// The blinking future as the blinking task creates it.
    pub fn new() -> (b: Blinky)
        ensures
            b.state == BlinkyState::Start,
    {
        Blinky { state: BlinkyState::Start }
    }

    /// Whether this poll must first poll the running timer and pass its
    /// result to [`Blinky::poll`].
    pub fn awaits_timer(&self) -> (w: bool)
        ensures
            w == (self.state == BlinkyState::Waiting),
    {
        match self.state {
            BlinkyState::Waiting => true,
            _ => false,
        }
    }

    /// One poll: start a timer for the blink interval, move on once it has
    /// fired, then toggle the LED and start over. The future never completes and always asks to be
    /// polled again.
    pub fn poll(&mut self, timer_ready: bool) -> (p: BlinkyPoll)
        ensures
            final(self).state == next_state(old(self).state, timer_ready),
            p.action == action_of(old(self).state),
            p.pending,
            p.wake,
    {
        let action = match self.state {
            BlinkyState::Start => {
                self.state = BlinkyState::Waiting;
                BlinkyAction::StartTimer(blink_interval_ticks())
            },
            BlinkyState::Waiting => {
                if timer_ready {
                    self.state = BlinkyState::Elapsed;
                }
                BlinkyAction::Nothing
            },
            BlinkyState::Elapsed => {
                self.state = BlinkyState::Start;
                BlinkyAction::ToggleLed
            },
        };
        BlinkyPoll { action, pending: true, wake: true }
    }
}

/// Counts over a run of polls: timers started, timers seen to fire, LED
/// toggles.
pub struct BlinkyTally {
    pub started: nat,
    pub fired: nat,
    pub toggles: nat,
}

/// The state and the tally after polling from `state` once per entry of
/// `timer_results` (the timer poll results the firmware passes in).
pub open spec fn run_polls(state: BlinkyState, timer_results: Seq<bool>) -> (BlinkyState, BlinkyTally)
    decreases timer_results.len(),
{
    if timer_results.len() == 0 {
        (state, BlinkyTally { started: 0, fired: 0, toggles: 0 })
    } else {
        let (s, t) = run_polls(state, timer_results.drop_last());
        let r = timer_results.last();
        let t2 = BlinkyTally {
            started: if s == BlinkyState::Start { t.started + 1 } else { t.started },
            fired: if s == BlinkyState::Waiting && r { t.fired + 1 } else { t.fired },
            toggles: if s == BlinkyState::Elapsed { t.toggles + 1 } else { t.toggles },
        };
        (next_state(s, r), t2)
    }
}

/// The blinking future's progress is always explained by its state: at the
/// start of a cycle every started timer has fired and been answered by one
/// toggle; while waiting one timer is outstanding; after it fires one toggle
/// is owed.
pub open spec fn tally_matches(s: BlinkyState, t: BlinkyTally) -> bool {
    match s {
        BlinkyState::Start => t.fired == t.started && t.toggles == t.fired,
        BlinkyState::Waiting => t.fired + 1 == t.started && t.toggles == t.fired,
        BlinkyState::Elapsed => t.fired == t.started && t.toggles + 1 == t.fired,
    }
}

/// From a fresh future, any run of polls keeps the tally in step with the
/// state: the LED is toggled once per fired timer, never twice for one timer,
/// and no timer is started while another is still running.
pub proof fn lemma_blinky_run(timer_results: Seq<bool>)
    ensures
        tally_matches(run_polls(BlinkyState::Start, timer_results).0, run_polls(BlinkyState::Start, timer_results).1),
        run_polls(BlinkyState::Start, timer_results).1.toggles <= run_polls(BlinkyState::Start, timer_results).1.fired,
        run_polls(BlinkyState::Start, timer_results).1.fired <= run_polls(BlinkyState::Start, timer_results).1.toggles + 1,
    decreases timer_results.len(),
{
    if timer_results.len() > 0 {
        lemma_blinky_run(timer_results.drop_last());
    }
}

/// The outside effects (actions other than [`BlinkyAction::Nothing`]) of
/// polling from `state` once per entry of `timer_results`, in order.
pub open spec fn effects(state: BlinkyState, timer_results: Seq<bool>) -> Seq<BlinkyAction>
    decreases timer_results.len(),
{
    if timer_results.len() == 0 {
        Seq::empty()
    } else {
        let before = effects(state, timer_results.drop_last());
        let s = run_polls(state, timer_results.drop_last()).0;
        if action_of(s) == BlinkyAction::Nothing {
            before
        } else {
            before.push(action_of(s))
        }
    }
}

/// The effects of the `async` blinking loop it stands for ("wait the blink
/// interval, then toggle the LED, forever"), cut to length `n`: a timer for
/// the interval, a toggle, a timer, a toggle, and so on.
pub open spec fn async_blinky_effects(n: nat) -> Seq<BlinkyAction> {
    Seq::new(
        n,
        |i: int|
            if i % 2 == 0 {
                BlinkyAction::StartTimer(ticks_of_millis(BLINK_PERIOD_MS as nat) as u64)
            } else {
                BlinkyAction::ToggleLed
            },
    )
}

/// Where the run stands in the effect sequence: at the start of a cycle an
/// even number of effects has happened, otherwise the cycle's timer has
/// started and its toggle is still to come.
pub open spec fn effects_match_state(s: BlinkyState, n: nat) -> bool {
    if s == BlinkyState::Start { n % 2 == 0 } else { n % 2 == 1 }
}

/// The hand-written state machine behaves as the `async` loop it stands
/// for: polled from a fresh future under any sequence of timer results, its
/// effects are exactly those of "wait the blink interval, toggle the LED,
/// repeat", never completing; and each toggle follows the firing of its own
/// timer (the number of toggles never exceeds the number of fired timers).
pub proof fn lemma_blinky_refines_async_loop(timer_results: Seq<bool>)
    ensures
        effects(BlinkyState::Start, timer_results) == async_blinky_effects(
            effects(BlinkyState::Start, timer_results).len(),
        ),
        effects_match_state(
            run_polls(BlinkyState::Start, timer_results).0,
            effects(BlinkyState::Start, timer_results).len(),
        ),
        run_polls(BlinkyState::Start, timer_results).1.toggles <= run_polls(
            BlinkyState::Start,
            timer_results,
        ).1.fired,
    decreases timer_results.len(),
{
    lemma_blinky_run(timer_results);
    if timer_results.len() > 0 {
        let prefix = timer_results.drop_last();
        lemma_blinky_refines_async_loop(prefix);
        let before = effects(BlinkyState::Start, prefix);
        let n = before.len();
        let s = run_polls(BlinkyState::Start, prefix).0;
        if action_of(s) != BlinkyAction::Nothing {
            assert(before.push(action_of(s)) =~= async_blinky_effects(n + 1)) by {
                assert forall|i: int| 0 <= i < n + 1 implies #[trigger] before.push(action_of(s))[i]
                    == async_blinky_effects(n + 1)[i] by {
                    if i < n {
                        assert(before[i] == async_blinky_effects(n)[i]);
                    }
                }
            }
        } else {
            assert(before =~= async_blinky_effects(n));
        }
    } else {
        assert(effects(BlinkyState::Start, timer_results) =~= async_blinky_effects(0));
    }
}

/// A timed poll: the time it was made at, in timer ticks, and what the
/// timer's poll returned.
pub struct TimedPoll {
    pub now: nat,
    pub timer_ready: bool,
}

/// The state of the blinking future over a timed run, with the time its
/// current timer was started and the time that timer was seen to fire.
pub struct TimedBlinky {
    pub state: BlinkyState,
    pub started_at: nat,
    pub fired_at: nat,
}

/// The timed state after polling a fresh future once per entry of `polls`.
pub open spec fn timed_run(polls: Seq<TimedPoll>) -> TimedBlinky
    decreases polls.len(),
{
    if polls.len() == 0 {
        TimedBlinky { state: BlinkyState::Start, started_at: 0, fired_at: 0 }
    } else {
        let before = timed_run(polls.drop_last());
        let p = polls.last();
        TimedBlinky {
            state: next_state(before.state, p.timer_ready),
            started_at: if before.state == BlinkyState::Start { p.now } else { before.started_at },
            fired_at: if before.state == BlinkyState::Waiting && p.timer_ready {
                p.now
            } else {
                before.fired_at
            },
        }
    }
}

/// The timer behaves as a timer for the blink interval, and time does not
/// run backwards: every poll is made no earlier than the one before, and a
/// timer is seen to fire only once the interval has passed since it started.
pub open spec fn timer_keeps_time(polls: Seq<TimedPoll>) -> bool {
    forall|k: int|
        #![trigger polls[k]]
        0 <= k < polls.len() ==> (k > 0 ==> polls[k - 1].now <= polls[k].now) && (timed_run(
            polls.take(k),
        ).state == BlinkyState::Waiting && polls[k].timer_ready ==> polls[k].now >= timed_run(
            polls.take(k),
        ).started_at + ticks_of_millis(BLINK_PERIOD_MS as nat))
}

/// Under such a timer, each LED toggle comes at least the blink interval
/// after the poll that started its cycle's timer.
pub proof fn lemma_toggle_spacing(polls: Seq<TimedPoll>, k: int)
    requires
        timer_keeps_time(polls),
        0 <= k < polls.len(),
        timed_run(polls.take(k)).state == BlinkyState::Elapsed,
    ensures
        polls[k].now >= timed_run(polls.take(k)).started_at + ticks_of_millis(BLINK_PERIOD_MS as nat),
{
    lemma_elapsed_fired_late(polls, k);
    assert(polls[k - 1].now <= polls[k].now);
}

/// Whenever the run stands after a fired timer, the timer fired at least the
/// interval after it started, and no later than the last poll.
proof fn lemma_elapsed_fired_late(polls: Seq<TimedPoll>, k: int)
    requires
        timer_keeps_time(polls),
        0 <= k <= polls.len(),
    ensures
        timed_run(polls.take(k)).state == BlinkyState::Elapsed ==> k > 0
            && timed_run(polls.take(k)).fired_at >= timed_run(polls.take(k)).started_at
            + ticks_of_millis(BLINK_PERIOD_MS as nat) && timed_run(polls.take(k)).fired_at
            <= polls[k - 1].now,
    decreases k,
{
    if k > 0 {
        lemma_elapsed_fired_late(polls, k - 1);
        assert(polls.take(k).drop_last() =~= polls.take(k - 1));
        assert(polls.take(k).last() == polls[k - 1]);
    }
}

} // verus!
