use blinky_async::blinky::{Blinky, BlinkyAction, BlinkyState};
use blinky_async::button::{interrupt_handler_actions, ButtonCommand, ButtonPoll, WaitForButtonFuture};
use blinky_async::countdown::{CountdownPoll, MyFuture, COUNTDOWN_RESULT, COUNTDOWN_START};
use blinky_async::interval::{blink_interval_ticks, BLINK_PERIOD_MS};
use blinky_async::polling_executor::{PollingExecutor, TaskId, TaskReturned};
use blinky_async::super_loop::{ButtonSample, SuperLoop};
use blinky_async::wake_executor::{ExecAction, WakeExecutor, WakePhase};

#[test]
fn blink_interval_is_half_a_second() {
    assert_eq!(BLINK_PERIOD_MS, 500);
    let ticks = blink_interval_ticks();
    assert_eq!(ticks, 500_000);
    assert_eq!(embassy_time::Duration::from_ticks(ticks).as_millis(), 500);
}

#[test]
fn countdown_of_three_is_ready_on_fourth_poll() {
    let mut f = MyFuture { count: 3 };
    for expected_count in [2usize, 1, 0] {
        let r = f.poll();
        assert_eq!(r.outcome, CountdownPoll::Pending);
        assert!(r.wake);
        assert!(!r.ready_note);
        assert_eq!(f.count, expected_count);
    }
    let r = f.poll();
    assert_eq!(r.outcome, CountdownPoll::Ready(42));
    assert!(r.ready_note);
    assert!(!r.wake);
    let again = f.poll();
    assert_eq!(again.outcome, CountdownPoll::Ready(COUNTDOWN_RESULT));
    assert_eq!(f.count, 0);
}

#[test]
fn countdown_zero_is_ready_at_once() {
    let mut f = MyFuture { count: 0 };
    let r = f.poll();
    assert_eq!(r.outcome, CountdownPoll::Ready(42));
    assert!(!r.first_poll_note);
}

#[test]
fn fresh_countdown_notes_first_poll_only() {
    let mut f = MyFuture::new();
    assert_eq!(f.count, COUNTDOWN_START);
    assert_eq!(f.count, 1_000_000);
    let r = f.poll();
    assert!(r.first_poll_note);
    assert_eq!(r.outcome, CountdownPoll::Pending);
    let r = f.poll();
    assert!(!r.first_poll_note);
    assert_eq!(f.count, 999_998);
}

#[test]
fn fresh_countdown_completes_after_a_million_polls() {
    let mut f = MyFuture::new();
    let mut pending = 0usize;
    loop {
        let r = f.poll();
        match r.outcome {
            CountdownPoll::Pending => pending += 1,
            CountdownPoll::Ready(v) => {
                assert_eq!(v, 42);
                break;
            }
        }
    }
    assert_eq!(pending, 1_000_000);
}

fn sample(high: bool) -> ButtonSample {
    ButtonSample { low: !high, level_high: high }
}

/// One pass of the super loop as the firmware makes it: decide, then record.
fn step(l: &mut SuperLoop, s: ButtonSample) -> bool {
    let t = l.should_toggle_led2(s.low);
    l.record_level(s.level_high);
    t
}

#[test]
fn super_loop_toggles_led2_once_per_press() {
    let levels = [true, false, false, false, true, true, false, true, false];
    let expected = [false, true, false, false, false, false, true, false, true];
    let mut l = SuperLoop::new();
    assert!(l.prev_button_high);
    for (i, &h) in levels.iter().enumerate() {
        assert_eq!(step(&mut l, sample(h)), expected[i], "pass {}", i);
        assert_eq!(l.prev_button_high, h);
    }
}

#[test]
fn super_loop_button_held_at_start_toggles_once() {
    let mut l = SuperLoop::new();
    assert!(step(&mut l, sample(false)));
    assert!(!step(&mut l, sample(false)));
}

#[test]
fn super_loop_separate_reads() {
    let mut l = SuperLoop::new();
    assert!(l.should_toggle_led2(true));
    assert!(!l.should_toggle_led2(false));
    l.record_level(false);
    assert!(!l.should_toggle_led2(true));
    l.record_level(true);
    assert!(l.should_toggle_led2(true));
}

#[test]
fn blinky_cycles_start_wait_toggle() {
    let mut b = Blinky::new();
    assert_eq!(b.state, BlinkyState::Start);
    assert!(!b.awaits_timer());
    let p = b.poll(false);
    assert_eq!(p.action, BlinkyAction::StartTimer(500_000));
    assert!(p.pending && p.wake);
    assert!(b.awaits_timer());
    for _ in 0..3 {
        let p = b.poll(false);
        assert_eq!(p.action, BlinkyAction::Nothing);
        assert_eq!(b.state, BlinkyState::Waiting);
    }
    let p = b.poll(true);
    assert_eq!(p.action, BlinkyAction::Nothing);
    assert_eq!(b.state, BlinkyState::Elapsed);
    let p = b.poll(false);
    assert_eq!(p.action, BlinkyAction::ToggleLed);
    assert!(p.pending && p.wake);
    assert_eq!(b.state, BlinkyState::Start);
}

#[test]
fn blinky_toggles_once_per_fired_timer() {
    let mut b = Blinky::new();
    let results = [false, true, false, false, true, true, false, true, false, true, true, true];
    let (mut started, mut fired, mut toggles) = (0u32, 0u32, 0u32);
    for r in results {
        let waiting = b.awaits_timer();
        if waiting && r {
            fired += 1;
        }
        match b.poll(r).action {
            BlinkyAction::StartTimer(_) => started += 1,
            BlinkyAction::ToggleLed => toggles += 1,
            BlinkyAction::Nothing => {}
        }
        assert!(toggles <= fired && fired <= toggles + 1);
        assert!(started <= fired + 1);
    }
    assert!(toggles >= 2);
}

#[test]
fn polling_executor_alternates() {
    let mut e = PollingExecutor::new();
    let mut order = Vec::new();
    for _ in 0..6 {
        order.push(e.next_task());
        assert_eq!(e.task_polled(false), Ok(()));
    }
    assert_eq!(
        order,
        vec![TaskId::First, TaskId::Second, TaskId::First, TaskId::Second, TaskId::First, TaskId::Second]
    );
}

#[test]
fn polling_executor_reports_returned_task() {
    let mut e = PollingExecutor::new();
    assert_eq!(e.task_polled(false), Ok(()));
    assert_eq!(e.task_polled(true), Err(TaskReturned { task: TaskId::Second }));
    assert_eq!(e.next_task(), TaskId::Second);
}

#[test]
fn wake_executor_first_pass_polls_both() {
    let mut e = WakeExecutor::new();
    assert_eq!(e.next_action(), ExecAction::Poll(TaskId::First));
    assert_eq!(e.polling_task(), Some(TaskId::First));
    assert_eq!(e.poll_finished(false), Ok(()));
    assert_eq!(e.next_action(), ExecAction::Poll(TaskId::Second));
    assert_eq!(e.poll_finished(false), Ok(()));
    assert_eq!(e.next_action(), ExecAction::WaitForInterrupt);
    assert_eq!(e.polling_task(), None);
    assert!(!e.first_woken && !e.second_woken);
    assert_eq!(e.phase, WakePhase::CheckFirst);
    // Nothing woken: the next pass only sleeps.
    assert_eq!(e.next_action(), ExecAction::WaitForInterrupt);
}

#[test]
fn wake_executor_polls_only_woken_task() {
    let mut e = WakeExecutor::new();
    e.next_action();
    e.poll_finished(false).unwrap();
    e.next_action();
    e.poll_finished(false).unwrap();
    e.next_action();
    e.wake(TaskId::Second);
    assert_eq!(e.next_action(), ExecAction::Poll(TaskId::Second));
    assert_eq!(e.poll_finished(false), Ok(()));
    assert_eq!(e.next_action(), ExecAction::WaitForInterrupt);
}

#[test]
fn wake_executor_repolls_task_woken_during_its_poll() {
    let mut e = WakeExecutor::new();
    assert_eq!(e.next_action(), ExecAction::Poll(TaskId::First));
    assert!(!e.first_woken);
    e.wake(TaskId::First);
    assert_eq!(e.poll_finished(false), Ok(()));
    assert!(e.first_woken);
    assert_eq!(e.next_action(), ExecAction::Poll(TaskId::Second));
    e.poll_finished(false).unwrap();
    assert_eq!(e.next_action(), ExecAction::WaitForInterrupt);
    assert_eq!(e.next_action(), ExecAction::Poll(TaskId::First));
    e.poll_finished(false).unwrap();
    assert_eq!(e.next_action(), ExecAction::WaitForInterrupt);
}

#[test]
fn wake_executor_never_repolls_without_wake() {
    let mut e = WakeExecutor::new();
    let mut polls = Vec::new();
    for _ in 0..12 {
        match e.next_action() {
            ExecAction::Poll(t) => {
                polls.push(t);
                if t == TaskId::Second {
                    // the second task keeps waking itself
                    e.wake(TaskId::Second);
                }
                e.poll_finished(false).unwrap();
            }
            ExecAction::WaitForInterrupt => {}
        }
    }
    assert_eq!(polls.iter().filter(|t| **t == TaskId::First).count(), 1);
    assert!(polls.iter().filter(|t| **t == TaskId::Second).count() >= 5);
}

#[test]
fn wake_executor_wake_during_other_poll_is_served() {
    let mut e = WakeExecutor::new();
    assert_eq!(e.next_action(), ExecAction::Poll(TaskId::First));
    e.poll_finished(false).unwrap();
    assert_eq!(e.next_action(), ExecAction::Poll(TaskId::Second));
    e.wake(TaskId::First);
    e.poll_finished(false).unwrap();
    assert_eq!(e.next_action(), ExecAction::WaitForInterrupt);
    assert_eq!(e.next_action(), ExecAction::Poll(TaskId::First));
}

#[test]
fn wake_executor_reports_returned_task() {
    let mut e = WakeExecutor::new();
    e.next_action();
    assert_eq!(e.poll_finished(true), Err(TaskReturned { task: TaskId::First }));
    assert_eq!(e.polling_task(), Some(TaskId::First));
    assert!(!e.first_woken);
    assert!(e.second_woken);
}

#[test]
fn button_wait_arms_then_completes_on_press() {
    let (f, arm) = WaitForButtonFuture::new();
    assert_eq!(arm, [ButtonCommand::ClearInterrupt, ButtonCommand::ListenFallingEdge]);
    assert_eq!(f.poll_start(), [ButtonCommand::StoreWaker]);
    assert_eq!(f.poll(false), ButtonPoll { ready: false, clear_interrupt: false });
    assert_eq!(f.poll(true), ButtonPoll { ready: true, clear_interrupt: true });
}

#[test]
fn button_interrupt_wakes_and_unlistens() {
    assert_eq!(
        interrupt_handler_actions(),
        [ButtonCommand::WakeWaiter, ButtonCommand::Unlisten]
    );
}

#[test]
fn blinky_toggles_no_sooner_than_the_interval() {
    // A timer that fires once 500_000 ticks have passed since it started,
    // polled every 70_000 ticks.
    let mut b = Blinky::new();
    let mut started_at = 0u64;
    let mut toggles = 0;
    for k in 0..100u64 {
        let now = k * 70_000;
        let ready = b.awaits_timer() && now >= started_at + 500_000;
        match b.poll(ready).action {
            BlinkyAction::StartTimer(ticks) => {
                assert_eq!(ticks, 500_000);
                started_at = now;
            }
            BlinkyAction::ToggleLed => {
                assert!(now >= started_at + 500_000);
                toggles += 1;
            }
            BlinkyAction::Nothing => {}
        }
    }
    assert!(toggles >= 5);
}

#[test]
fn button_wakes_once_per_arming() {
    // The pin's interrupt enable and status as the commands leave them.
    let (mut listening, mut status) = (false, false);
    let mut carry_out = |cmds: &[ButtonCommand], listening: &mut bool, status: &mut bool| {
        for c in cmds {
            match c {
                ButtonCommand::ClearInterrupt => *status = false,
                ButtonCommand::ListenFallingEdge => *listening = true,
                ButtonCommand::Unlisten => *listening = false,
                ButtonCommand::StoreWaker | ButtonCommand::WakeWaiter => {}
            }
        }
    };
    let (f, arm) = WaitForButtonFuture::new();
    carry_out(&arm, &mut listening, &mut status);
    assert!(listening && !status);
    // A press: the status latches and the handler runs.
    status = true;
    carry_out(&interrupt_handler_actions(), &mut listening, &mut status);
    assert!(!listening && status);
    // Polls keep the pin silent until the next wait re-arms it.
    carry_out(&f.poll_start(), &mut listening, &mut status);
    let p = f.poll(status);
    assert!(p.ready);
    if p.clear_interrupt {
        carry_out(&[ButtonCommand::ClearInterrupt], &mut listening, &mut status);
    }
    assert!(!listening && !status);
    let (_, arm) = WaitForButtonFuture::new();
    carry_out(&arm, &mut listening, &mut status);
    assert!(listening);
}

#[test]
fn button_wait_ignores_press_before_arming() {
    let mut status = true; // a press before the wait began
    let (f, arm) = WaitForButtonFuture::new();
    if arm.contains(&ButtonCommand::ClearInterrupt) {
        status = false;
    }
    assert!(!f.poll(status).ready);
    status = true; // a press after arming
    let p = f.poll(status);
    assert!(p.ready && p.clear_interrupt);
}
