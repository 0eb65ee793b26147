use vstd::prelude::*;

verus! {

/// An operation on the button's pin interrupt, or on the waker slot that the
/// interrupt handler and the waiting future share.
#[derive(Clone, Copy, Debug, PartialEq, Eq, Structural)]
pub enum ButtonCommand {
    /// Put the polling task's waker in the shared slot.
    StoreWaker,
    /// Clear the pin's interrupt status.
    ClearInterrupt,
    /// Enable the pin's interrupt on a falling edge.
    ListenFallingEdge,
    /// Disable the pin's interrupt.
    Unlisten,
    /// Wake the task whose waker is in the shared slot.
    WakeWaiter,
}

/// A future that completes once the button has been pressed (a falling edge
/// on its pin) after the future was made. It holds no state of its own: the
/// pin's interrupt status is the state.
#[derive(Clone, Copy, Debug, PartialEq, Eq, Structural)]
pub struct WaitForButtonFuture {}

/// What a poll of [`WaitForButtonFuture`] decides once it has read the pin's
/// interrupt status.
#[derive(Clone, Copy, Debug, PartialEq, Eq, Structural)]
pub struct ButtonPoll {
    /// Whether the future is complete.
    pub ready: bool,
    /// Whether to clear the interrupt status (consuming the press).
    pub clear_interrupt: bool,
}

/// The commands that arm the button when a wait begins.
pub open spec fn arm_commands() -> Seq<ButtonCommand> {
    seq![ButtonCommand::ClearInterrupt, ButtonCommand::ListenFallingEdge]
}

/// The commands a poll carries out before it reads the interrupt status.
pub open spec fn poll_start_commands() -> Seq<ButtonCommand> {
    seq![ButtonCommand::StoreWaker]
}

/// The commands a poll carries out after it has decided.
pub open spec fn poll_finish_commands(p: ButtonPoll) -> Seq<ButtonCommand> {
    if p.clear_interrupt {
        seq![ButtonCommand::ClearInterrupt]
    } else {
        Seq::empty()
    }
}

/// All the commands of a poll that found the interrupt status `interrupt_set`.
pub open spec fn poll_commands(interrupt_set: bool) -> Seq<ButtonCommand> {
    poll_start_commands() + poll_finish_commands(
        ButtonPoll { ready: interrupt_set, clear_interrupt: interrupt_set },
    )
}

/// The commands of the pin's interrupt handler.
pub open spec fn interrupt_handler_commands() -> Seq<ButtonCommand> {
    seq![ButtonCommand::WakeWaiter, ButtonCommand::Unlisten]
}

impl WaitForButtonFuture {
    /// Begins a wait: the future, and the commands that clear any earlier
    /// interrupt and listen for the next falling edge.
    pub fn new() -> (r: (WaitForButtonFuture, [ButtonCommand; 2]))
        ensures
            r.1@ == arm_commands(),
    {
        let commands = [ButtonCommand::ClearInterrupt, ButtonCommand::ListenFallingEdge];
        assert(commands@ =~= arm_commands());
        (WaitForButtonFuture {}, commands)
    }

    /// The start of a poll: store the task's waker for the interrupt
    /// handler, before the status is read.
    pub fn poll_start(&self) -> (c: [ButtonCommand; 1])
        ensures
            c@ == poll_start_commands(),
    {
        let commands = [ButtonCommand::StoreWaker];
        assert(commands@ =~= poll_start_commands());
        commands
    }

    /// The rest of a poll, given whether the pin's interrupt status is set:
    /// a set status is cleared and completes the future.
    pub fn poll(&self, interrupt_set: bool) -> (p: ButtonPoll)
        ensures
            p.ready == interrupt_set,
            p.clear_interrupt == interrupt_set,
    {
        ButtonPoll { ready: interrupt_set, clear_interrupt: interrupt_set }
    }
}

/// What the pin's interrupt handler does: wake the waiting task, and stop
/// listening so that the interrupt does not fire again before the next wait
/// re-arms it. The interrupt status stays set for the task's next poll.
pub fn interrupt_handler_actions() -> (c: [ButtonCommand; 2])
    ensures
        c@ == interrupt_handler_commands(),
{
    let commands = [ButtonCommand::WakeWaiter, ButtonCommand::Unlisten];
    assert(commands@ =~= interrupt_handler_commands());
    commands
}

/// What the commands act on: the pin's interrupt enable and status, and the
/// shared waker slot.
pub struct ButtonLine {
    pub listening: bool,
    pub interrupt_set: bool,
    pub waker_stored: bool,
}

/// The effect of one command.
pub open spec fn apply(line: ButtonLine, c: ButtonCommand) -> ButtonLine {
    match c {
        ButtonCommand::StoreWaker => ButtonLine { waker_stored: true, ..line },
        ButtonCommand::ClearInterrupt => ButtonLine { interrupt_set: false, ..line },
        ButtonCommand::ListenFallingEdge => ButtonLine { listening: true, ..line },
        ButtonCommand::Unlisten => ButtonLine { listening: false, ..line },
        ButtonCommand::WakeWaiter => line,
    }
}

/// The effect of a list of commands, carried out in order.
pub open spec fn apply_all(line: ButtonLine, cs: Seq<ButtonCommand>) -> ButtonLine
    decreases cs.len(),
{
    if cs.len() == 0 {
        line
    } else {
        apply(apply_all(line, cs.drop_last()), cs.last())
    }
}

/// Arming leaves the pin listening for a falling edge with its status clear,
/// whatever an earlier press left behind, so only a press after the wait
/// began can complete it.
pub proof fn lemma_arm_clears_and_listens(line: ButtonLine)
    ensures
        apply_all(line, arm_commands()) == (ButtonLine {
            listening: true,
            interrupt_set: false,
            ..line
        }),
{
    reveal_with_fuel(apply_all, 3);
    assert(arm_commands().drop_last() =~= seq![ButtonCommand::ClearInterrupt]);
    assert(arm_commands().drop_last().drop_last() =~= Seq::<ButtonCommand>::empty());
}

/// A poll stores the waker, so the interrupt handler can wake the task, and
/// clears a set status (a press completes one wait only); it never touches
/// the interrupt enable.
pub proof fn lemma_poll_consumes_press(line: ButtonLine, set: bool)
    ensures
        apply_all(line, poll_commands(set)) == (ButtonLine {
            waker_stored: true,
            interrupt_set: line.interrupt_set && !set,
            ..line
        }),
{
    reveal_with_fuel(apply_all, 3);
    if set {
        assert(poll_commands(set) =~= seq![ButtonCommand::StoreWaker, ButtonCommand::ClearInterrupt]);
        assert(poll_commands(set).drop_last() =~= seq![ButtonCommand::StoreWaker]);
    } else {
        assert(poll_commands(set) =~= seq![ButtonCommand::StoreWaker]);
    }
    assert(seq![ButtonCommand::StoreWaker].drop_last() =~= Seq::<ButtonCommand>::empty());
}

/// The interrupt handler stops listening but keeps the status, so the poll
/// that its wake-up causes finds the press and completes.
pub proof fn lemma_handler_keeps_press(line: ButtonLine)
    ensures
        apply_all(line, interrupt_handler_commands()) == (ButtonLine { listening: false, ..line }),
{
    reveal_with_fuel(apply_all, 3);
    assert(interrupt_handler_commands().drop_last() =~= seq![ButtonCommand::WakeWaiter]);
    assert(seq![ButtonCommand::WakeWaiter].drop_last() =~= Seq::<ButtonCommand>::empty());
}

/// One thing that happens to the button as the firmware runs.
#[derive(Clone, Copy, Debug, PartialEq, Eq, Structural)]
pub enum ButtonEvent {
    /// A wait begins ([`WaitForButtonFuture::new`]).
    Arm,
    /// The button is pressed: the pin's interrupt status latches the
    /// falling edge.
    Press,
    /// The waiting future is polled; it reads the status the line holds.
    Poll,
    /// The pin's interrupt handler runs.
    Interrupt,
}

/// The line, the number of waits armed, the number of handler runs (each of
/// which wakes the waiting task once), and the number of completed polls,
/// over a run of events.
pub struct ButtonTrace {
    pub line: ButtonLine,
    pub arms: nat,
    pub wakes: nat,
    pub completions: nat,
}

/// The commands one event carries out on a line that stands at `line`.
pub open spec fn event_commands(line: ButtonLine, e: ButtonEvent) -> Seq<ButtonCommand> {
    match e {
        ButtonEvent::Arm => arm_commands(),
        ButtonEvent::Press => Seq::empty(),
        ButtonEvent::Poll => poll_commands(line.interrupt_set),
        ButtonEvent::Interrupt => interrupt_handler_commands(),
    }
}

/// The trace of a run from `line` over `events`.
pub open spec fn run_button(line: ButtonLine, events: Seq<ButtonEvent>) -> ButtonTrace
    decreases events.len(),
{
    if events.len() == 0 {
        ButtonTrace { line, arms: 0, wakes: 0, completions: 0 }
    } else {
        let before = run_button(line, events.drop_last());
        let e = events.last();
        let l = apply_all(before.line, event_commands(before.line, e));
        ButtonTrace {
            line: if e == ButtonEvent::Press { ButtonLine { interrupt_set: true, ..l } } else { l },
            arms: if e == ButtonEvent::Arm { before.arms + 1 } else { before.arms },
            wakes: if e == ButtonEvent::Interrupt { before.wakes + 1 } else { before.wakes },
            completions: if e == ButtonEvent::Poll && before.line.interrupt_set {
                before.completions + 1
            } else {
                before.completions
            },
        }
    }
}

/// Whether a press is waiting to complete a poll: one came after the last
/// arming and after the last poll (or, when neither happened, the status was
/// set from the start).
pub open spec fn press_pending(line: ButtonLine, events: Seq<ButtonEvent>) -> bool
    decreases events.len(),
{
    if events.len() == 0 {
        line.interrupt_set
    } else {
        match events.last() {
            ButtonEvent::Arm => false,
            ButtonEvent::Poll => false,
            ButtonEvent::Press => true,
            ButtonEvent::Interrupt => press_pending(line, events.drop_last()),
        }
    }
}

/// Whether any poll has happened.
pub open spec fn polled(events: Seq<ButtonEvent>) -> bool {
    exists|i: int| 0 <= i < events.len() && events[i] == ButtonEvent::Poll
}

/// A wait completes exactly on a press made after it was armed and not yet
/// used by an earlier poll: the status a poll reads is `press_pending`. And
/// the waker the handler needs is stored exactly once some poll has run, so
/// the handler is safe to run then and only then (before any poll the
/// firmware panics, as it finds no waker).
pub proof fn lemma_button_run(line: ButtonLine, events: Seq<ButtonEvent>)
    ensures
        run_button(line, events).line.interrupt_set == press_pending(line, events),
        run_button(line, events).line.waker_stored == (line.waker_stored || polled(events)),
    decreases events.len(),
{
    if events.len() > 0 {
        let prefix = events.drop_last();
        lemma_button_run(line, prefix);
        let before = run_button(line, prefix);
        let e = events.last();
        assert(e == events[events.len() - 1]);
        match e {
            ButtonEvent::Arm => lemma_arm_clears_and_listens(before.line),
            ButtonEvent::Press => assert(apply_all(before.line, Seq::empty()) == before.line),
            ButtonEvent::Poll => lemma_poll_consumes_press(before.line, before.line.interrupt_set),
            ButtonEvent::Interrupt => lemma_handler_keeps_press(before.line),
        }
        if polled(prefix) {
            let i = choose|i: int| 0 <= i < prefix.len() && prefix[i] == ButtonEvent::Poll;
            assert(events[i] == prefix[i]);
        }
        if polled(events) && !polled(prefix) && e != ButtonEvent::Poll {
            let i = choose|i: int| 0 <= i < events.len() && events[i] == ButtonEvent::Poll;
            assert(prefix[i] == events[i]);
        }
    }
}

/// After arming, with no press since, no poll completes.
pub proof fn lemma_no_completion_without_press(
    line: ButtonLine,
    before: Seq<ButtonEvent>,
    after: Seq<ButtonEvent>,
)
    requires
        forall|i: int| 0 <= i < after.len() ==> after[i] != ButtonEvent::Press,
    ensures
        run_button(line, before.push(ButtonEvent::Arm) + after).completions == run_button(
            line,
            before.push(ButtonEvent::Arm),
        ).completions,
        !run_button(line, before.push(ButtonEvent::Arm) + after).line.interrupt_set,
    decreases after.len(),
{
    let armed = before.push(ButtonEvent::Arm);
    if after.len() == 0 {
        assert(armed + after =~= armed);
        lemma_button_run(line, armed);
    } else {
        let rest = after.drop_last();
        assert forall|i: int| 0 <= i < rest.len() implies rest[i] != ButtonEvent::Press by {
            assert(rest[i] == after[i]);
        }
        lemma_no_completion_without_press(line, before, rest);
        assert((armed + after).drop_last() =~= armed + rest);
        assert((armed + after).last() == after[after.len() - 1]);
        lemma_button_run(line, armed + after);
        lemma_button_run(line, armed + rest);
    }
}

/// The hardware raises the pin interrupt only while it is enabled: every
/// handler run happens with the line listening.
pub open spec fn interrupts_only_when_listening(line: ButtonLine, events: Seq<ButtonEvent>) -> bool {
    forall|k: int|
        #![trigger events[k]]
        0 <= k < events.len() && events[k] == ButtonEvent::Interrupt ==> run_button(
            line,
            events.take(k),
        ).line.listening
}

/// On such hardware, starting from a pin that is not listening, the handler
/// wakes the waiting task at most once per wait begun: after it runs, it
/// cannot run again until a new wait re-arms the pin.
pub proof fn lemma_one_wake_per_arm(line: ButtonLine, events: Seq<ButtonEvent>)
    requires
        !line.listening,
        interrupts_only_when_listening(line, events),
    ensures
        run_button(line, events).wakes + (if run_button(line, events).line.listening {
            1nat
        } else {
            0nat
        }) <= run_button(line, events).arms,
        run_button(line, events).wakes <= run_button(line, events).arms,
    decreases events.len(),
{
    if events.len() > 0 {
        let prefix = events.drop_last();
        assert forall|k: int|
            0 <= k < prefix.len() && prefix[k] == ButtonEvent::Interrupt implies run_button(
            line,
            prefix.take(k),
        ).line.listening by {
            assert(prefix[k] == events[k]);
            assert(prefix.take(k) =~= events.take(k));
        }
        lemma_one_wake_per_arm(line, prefix);
        let before = run_button(line, prefix);
        let e = events.last();
        assert(e == events[events.len() - 1]);
        assert(events.take(events.len() - 1) =~= prefix);
        match e {
            ButtonEvent::Arm => lemma_arm_clears_and_listens(before.line),
            ButtonEvent::Press => assert(apply_all(before.line, Seq::empty()) == before.line),
            ButtonEvent::Poll => lemma_poll_consumes_press(before.line, before.line.interrupt_set),
            ButtonEvent::Interrupt => lemma_handler_keeps_press(before.line),
        }
    }
}

} // verus!
