use vstd::prelude::*;

verus! {

/// The state that the super loop carries from one pass to the next: the
/// button level it read at the end of the previous pass (`true` is high,
/// released, since the button is pulled up).
#[derive(Clone, Copy, Debug, PartialEq, Eq, Structural)]
pub struct SuperLoop {
    pub prev_button_high: bool,
}

/// What one pass of the super loop reads from the button: whether it was low
/// when tested, and the level read afterwards to remember for the next pass.
#[derive(Clone, Copy, Debug, PartialEq, Eq, Structural)]
pub struct ButtonSample {
    pub low: bool,
    pub level_high: bool,
}

/// Whether a pass toggles LED2: the button is low now and was high before.
pub open spec fn toggles_led2(prev_high: bool, low_now: bool) -> bool {
    low_now && prev_high
}

/// The remembered level after running the loop over `samples` from `prev`:
/// each pass overwrites it with the level it read last.
pub open spec fn prev_after(prev: bool, samples: Seq<ButtonSample>) -> bool {
    if samples.len() == 0 {
        prev
    } else {
        samples.last().level_high
    }
}

/// Whether pass `i` of a run over `samples`, started from `start`, toggles
/// LED2, following the loop's own rule pass after pass.
pub open spec fn led2_toggled_at(start: SuperLoop, samples: Seq<ButtonSample>, i: int) -> bool
    recommends
        0 <= i < samples.len(),
{
    toggles_led2(prev_after(start.prev_button_high, samples.take(i)), samples[i].low)
}

/// The two reads of a pass agree: the button did not move between them.
pub open spec fn sample_consistent(s: ButtonSample) -> bool {
    s.low == !s.level_high
}

/// Pass `i` sees a falling edge: the button is low now, and was high in the
/// previous pass (before the first pass it counts as released).
pub open spec fn falling_edge_at(samples: Seq<ButtonSample>, i: int) -> bool
    recommends
        0 <= i < samples.len(),
{
    !samples[i].level_high && (i == 0 || samples[i - 1].level_high)
}

impl SuperLoop {
    /// The loop's state before its first pass: the button counts as released.
    pub fn new() -> (s: SuperLoop)
        ensures
            s.prev_button_high,
    {
        SuperLoop { prev_button_high: true }
    }

    /// Whether this pass toggles LED2, given that the button tested low
    /// (`button_low`). LED1 is toggled on every pass regardless.
    pub fn should_toggle_led2(&self, button_low: bool) -> (t: bool)
        ensures
            t == toggles_led2(self.prev_button_high, button_low),
    {
        button_low && self.prev_button_high
    }

    /// Remembers the level read at the end of the pass.
    pub fn record_level(&mut self, level_high: bool)
        ensures
            final(self).prev_button_high == level_high,
    {
        self.prev_button_high = level_high;
    }
}

/// Run from its initial state on a button that does not move within a pass,
/// the super loop toggles LED2 exactly on the passes that see a falling edge:
/// once per press, however long the button is held.
pub proof fn lemma_led2_toggles_on_falling_edges(samples: Seq<ButtonSample>, i: int)
    requires
        0 <= i < samples.len(),
        forall|j: int| 0 <= j < samples.len() ==> #[trigger] sample_consistent(samples[j]),
    ensures
        led2_toggled_at(SuperLoop { prev_button_high: true }, samples, i) <==> falling_edge_at(
            samples,
            i,
        ),
{
    assert(sample_consistent(samples[i]));
    if i > 0 {
        assert(samples.take(i)[i - 1] == samples[i - 1]);
    }
}

} // verus!
