//! Verified decision logic of a small ESP32 blinky/button firmware: the
//! super loop, hand-written futures and the two hand-written executors,
//! each written as a step function from state and event to next state and
//! action. The hardware, the timers and the futures themselves are driven
//! by the firmware around this crate.
pub mod interval;
pub mod countdown;
pub mod super_loop;
pub mod blinky;
pub mod polling_executor;
pub mod wake_executor;
pub mod button;
