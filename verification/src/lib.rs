//! The authoritative game-server logic of the point-and-click mini-game
//! server: session-path parsing, the player registry with its event rules,
//! the simulation clock, the size limit on reliable client events and the
//! choice of separation direction for coincident cursors.
use vstd::prelude::*;

pub mod clock;
pub mod query;
pub mod reliable;
pub mod separation;
pub mod state;

pub use query::requested_player_number;

verus! {

} // verus!
