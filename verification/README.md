# blinky_async

Firmware for an ESP32-C3 board with two LEDs and a button, in several
versions: a blocking super loop, embassy tasks, hand-written futures and two
hand-written executors.

- `src/` is the verified library (Verus). Every decision the firmware makes
  is a step function from state and event to next state and action, with an
  exact contract, and the properties that span steps are proof functions:
  - `super_loop`: LED2 toggles exactly on falling edges of the button.
  - `countdown`: the countdown future is pending for exactly its count of
    polls, then ready with 42.
  - `blinky`: the blinking state machine has the effects of the `async`
    loop it stands for, and toggles once per fired timer.
  - `button`: the button-press future and its interrupt handler, as commands
    on the pin interrupt and the shared waker slot; a wait completes exactly
    on a press made after it began.
  - `polling_executor`, `wake_executor`: the two executors' scheduling.
  - `interval`: the blink interval in embassy timer ticks.
- `app/` is the firmware itself: pins, timers, `Future` impls, wakers and
  the executor loops, built on `esp-hal` and embassy for the device.
- `tests/` runs the library on concrete scenarios.
