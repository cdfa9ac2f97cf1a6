//! The pace of the session loop.
use vstd::prelude::*;

verus! {

/// How long the session waits for a key before it redraws.
pub struct EventHandler {
    tick_rate_ms: u64,
}

impl EventHandler {
    /// A handler that waits `tick_rate_ms` milliseconds for each key.
    pub fn new(tick_rate_ms: u64) -> (r: EventHandler)
        ensures
            r.tick_rate() == tick_rate_ms,
    {
        EventHandler { tick_rate_ms }
    }

    pub closed spec fn tick_rate(&self) -> u64 {
        self.tick_rate_ms
    }

    pub fn tick_rate_ms(&self) -> (r: u64)
        ensures
            r == self.tick_rate(),
    {
        self.tick_rate_ms
    }
}

impl Default for EventHandler {
    /// A tenth of a second.
    fn default() -> (r: EventHandler)
        ensures
            r.tick_rate() == 100,
    {
        EventHandler::new(100)
    }
}

} // verus!
