//! The factory of a two-mode arcade game: a tile grid of pipes and machines through
//! which resources flow from inlets to producers and outlets.
//!
//! - `grid`: the lattice, its cells and the directions between them.
//! - `factory`: the arenas of pipes, ports and machines, the reciprocal links between
//!   them, placement and removal, and the one-piece-per-step connection protocol.
//! - `network`: tracing each outlet port along its pipe chain to a sink, and the
//!   rebuild of every network on invalidation.
//! - `production`, `ticks`: the rules of each machine kind and their application.
//! - `switch`: toggling the outlet side of a pipe switch.
//! - `time`: the tick economy that turns the time balance into factory ticks.
//! - `resources`: the shared pool.
//! - `laws`: properties that hold across these operations.
use vstd::prelude::*;

pub mod factory;
pub mod grid;
pub mod layers;
pub mod laws;
pub mod machines;
pub mod network;
pub mod production;
pub mod resources;
pub mod switch;
pub mod ticks;
pub mod time;

verus! {

} // verus!
