//! LED blinking: the heartbeat task and the left half's status LED drive
//! an output pin from high to low and back with a fixed wait between.
use vstd::prelude::*;

verus! {

/// Time the heartbeat LED spends in each level, in milliseconds.
pub const BLINK_PERIOD_MS: u64 = 500;

/// Time the left half's status LED spends in each level, in milliseconds.
pub const STATUS_BLINK_PERIOD_MS: u64 = 1000;

/// The level an LED pin is driven to.
#[derive(Clone, Copy, Debug, PartialEq, Eq, Structural)]
pub enum Level {
    Low,
    High,
}

/// The opposite level.
pub open spec fn flipped(level: Level) -> Level {
    match level {
        Level::Low => Level::High,
        Level::High => Level::Low,
    }
}

/// The level an LED pin was last driven to.
#[derive(Clone, Copy, Debug, PartialEq, Eq, Structural)]
pub struct Blinker {
    pub level: Level,
}

impl Blinker {
    /// A blinker whose pin starts at `level`.
    pub fn new(level: Level) -> (b: Self)
        ensures
            b.level == level,
    {
        Blinker { level }
    }

    /// The heartbeat's blinker: its pin starts high.
    pub fn heartbeat() -> (b: Self)
        ensures
            b.level == Level::High,
    {
        Blinker { level: Level::High }
    }

    /// The left half's status blinker: the first level it drives is high.
    pub fn status() -> (b: Self)
        ensures
            b.level == Level::Low,
    {
        Blinker { level: Level::Low }
    }

    /// Flips the level and returns the level to drive the pin to.
    pub fn toggle(&mut self) -> (next: Level)
        ensures
            next == flipped(old(self).level),
            final(self).level == next,
    {
        let next = match self.level {
            Level::Low => Level::High,
            Level::High => Level::Low,
        };
        self.level = next;
        next
    }
}

/// Blinking has period two: toggling twice restores the level, and a single
/// toggle always changes it.
pub proof fn lemma_blink_period_two(level: Level)
    ensures
        flipped(flipped(level)) == level,
        flipped(level) != level,
{
}

} // verus!
