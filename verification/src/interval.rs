use vstd::prelude::*;

verus! {

/// Milliseconds between two toggles of the blinking LED.
pub const BLINK_PERIOD_MS: u64 = 500;

/// Ticks of the embassy timer in `ms` milliseconds. The firmware runs on the
/// 1 MHz embassy tick, which `esp-hal-embassy` selects, so a millisecond is
/// a thousand ticks.
pub open spec fn ticks_of_millis(ms: nat) -> nat {
    ms * 1000
}

/// Converts milliseconds to embassy timer ticks with
/// `embassy_time::Duration::from_millis`, reading the result back with
/// `Duration::as_ticks`. At 1 MHz the source computes
/// `div_ceil(ms * 1000, 1)`, that is `ms * 1000`; that product overflows
/// (a panic in debug builds) above `u64::MAX / 1000`, which `requires`
/// rules out.
#[verifier::external_body]
fn millis_to_ticks(ms: u64) -> (t: u64)
    requires
        ms <= u64::MAX / 1000,
    ensures
        t as nat == ticks_of_millis(ms as nat),
{
    embassy_time::Duration::from_millis(ms).as_ticks()
}

/// The number of timer ticks that the blinking task waits between two
/// toggles: [`BLINK_PERIOD_MS`] milliseconds.
pub fn blink_interval_ticks() -> (t: u64)
    ensures
        t as nat == ticks_of_millis(BLINK_PERIOD_MS as nat),
{
    millis_to_ticks(BLINK_PERIOD_MS)
}

} // verus!
