//! Input-event pacing: the bounded wait used when polling for the next
//! terminal event. The polling itself is the program shell's work.

use vstd::prelude::*;

verus! {

/// Holds the tick interval, in milliseconds, of the input poll loop.
#[derive(Debug, Clone, Copy)]
pub struct EventHandler {
    tick_rate_ms: u64,
}

impl EventHandler {
    pub closed spec fn tick_ms(&self) -> u64 {
        self.tick_rate_ms
    }

    pub fn new(tick_rate_ms: u64) -> (r: Self)
        ensures
            r.tick_ms() == tick_rate_ms,
    {
        EventHandler { tick_rate_ms }
    }

    /// The bounded wait for one poll, in milliseconds.
    pub fn tick_rate_ms(&self) -> (r: u64)
        ensures
            r == self.tick_ms(),
    {
        self.tick_rate_ms
    }
}

} // verus!
