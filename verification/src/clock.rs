//! The durations that rule the game, and deadlines on the millisecond clock.

use vstd::prelude::*;

verus! {

/// Ticks that the loop aims for in one second.
pub const TICKS_PER_SECOND: u32 = 30;

/// Length of one tick, in microseconds.
pub const TICK_MICROS: u32 = 33_333;

/// How long a dead player waits before it comes back, in milliseconds.
pub const DEAD_PUNISH: u64 = 3_000;

/// Time between two item spawns, in milliseconds.
pub const ITEM_SPAWN_TIME: u64 = 5_000;

/// Most items that lie in the world at once.
pub const MAX_CONCURRENT_ITEMS: usize = 20;

/// Time a player has to survive before its first reward, in milliseconds.
pub const SURVIVAL_TIMEOUT: u64 = 10_000;

/// Time between two survival rewards, in milliseconds.
pub const SURVIVAL_POINT_INTERVAL: u64 = 10_000;

/// The time `delay` milliseconds after `now`, or the end of the clock if that
/// comes first.
pub open spec fn deadline_spec(now: u64, delay: u64) -> u64 {
    if now + delay > u64::MAX {
        u64::MAX
    } else {
        (now + delay) as u64
    }
}

/// Computes [`deadline_spec`].
pub fn deadline(now: u64, delay: u64) -> (r: u64)
    ensures
        r == deadline_spec(now, delay),
        r >= now,
{
    now.saturating_add(delay)
}

/// Whether at least `delay` milliseconds lie between `since` and `now`.
pub open spec fn elapsed_spec(since: u64, now: u64, delay: u64) -> bool {
    now >= since && now - since >= delay
}

/// Computes [`elapsed_spec`].
pub fn elapsed(since: u64, now: u64, delay: u64) -> (r: bool)
    ensures
        r == elapsed_spec(since, now, delay),
{
    now >= since && now - since >= delay
}

} // verus!
