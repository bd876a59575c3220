//! Status flag and indicator-LED logic.
//!
//! One boolean status flag is shared between a button-watcher task and an
//! indicator task; here it is an explicit state object owned by whoever
//! runs those tasks, accessed only through the functions below. While the
//! status is high the indicator counts in binary on three LEDs; while it is
//! low the counter stays at zero (the LEDs then just blink in unison).

use vstd::prelude::*;

verus! {

/// The cross-task status flag.
#[derive(Debug, Clone, Copy, PartialEq, Eq, Structural)]
pub struct StatusFlag {
    high: bool,
}

impl StatusFlag {
    /// The flag's level.
    pub closed spec fn is_high(self) -> bool {
        self.high
    }

    /// A fresh flag, low.
    pub fn new() -> (s: Self)
        ensures
            !s.is_high(),
    {
        StatusFlag { high: false }
    }
}

/// Checks if the status is high.
pub fn is_status_high(status: &StatusFlag) -> (high: bool)
    ensures
        high == status.is_high(),
{
    status.high
}

/// Toggles the status.
pub fn toggle_status(status: &mut StatusFlag)
    ensures
        final(status).is_high() == !old(status).is_high(),
{
    status.high = !status.high;
}

/// The three LED levels showing `counter` in binary, most significant bit
/// on the leftmost LED.
pub fn led_levels(counter: u8) -> (levels: [bool; 3])
    ensures
        forall|j: int|
            0 <= j < 3 ==> levels@[j] == ((counter >> ((2 - j) as u32)) & 1u8 == 1u8),
{
    [
        (counter >> 2u32) & 1u8 == 1u8,
        (counter >> 1u32) & 1u8 == 1u8,
        (counter >> 0u32) & 1u8 == 1u8,
    ]
}

/// One indicator step: while the status is high the counter wraps past 7
/// and advances; while it is low it rests at zero.
pub fn blinky_step(status_high: bool, counter: u8) -> (next: u8)
    ensures
        !status_high ==> next == 0,
        status_high ==> next == (if counter > 7 {
            0int
        } else {
            counter as int
        }) + 1,
{
    if status_high {
        let shown: u8 = if counter > 7 {
            0
        } else {
            counter
        };
        shown + 1
    } else {
        0
    }
}

} // verus!
