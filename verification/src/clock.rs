//! The simulation clock: how often the world advances and how often a state
//! snapshot goes out to the players.
use vstd::prelude::*;

verus! {

/// Simulation steps per second.
pub const TICK_RATE: u64 = 60;

/// State snapshots per second.
pub const SNAPSHOT_RATE: u64 = 30;

/// The number of ticks between two snapshots.
pub open spec fn snapshot_interval() -> int {
    TICK_RATE as int / SNAPSHOT_RATE as int
}

/// Whether a snapshot goes out after the simulation reached `tick`.
pub open spec fn spec_is_snapshot_tick(tick: u64) -> bool {
    tick as int % snapshot_interval() == 0
}

/// Decides whether a state snapshot is broadcast after the simulation
/// advanced to `tick`: one every `TICK_RATE / SNAPSHOT_RATE` ticks.
pub fn is_snapshot_tick(tick: u64) -> (snapshot: bool)
    ensures
        snapshot == spec_is_snapshot_tick(tick),
{
    tick % (TICK_RATE / SNAPSHOT_RATE) == 0
}

/// Of two consecutive ticks exactly one is followed by a snapshot, so
/// snapshots go out at half the tick rate.
pub proof fn lemma_snapshots_alternate(tick: u64)
    requires
        tick < u64::MAX,
    ensures
        spec_is_snapshot_tick(tick) != spec_is_snapshot_tick((tick + 1) as u64),
{
    assert(snapshot_interval() == 2);
}

/// Snapshots follow exactly the even ticks.
pub proof fn lemma_snapshot_ticks_are_even(tick: u64)
    ensures
        spec_is_snapshot_tick(tick) <==> tick % 2 == 0,
{
    assert(snapshot_interval() == 2);
}

} // verus!
