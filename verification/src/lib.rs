//! A verified engine for a team-based variant of Conway's Game of Life.
//!
//! Living cells carry a team (Red, Blue or Neutral). A cell born by the
//! usual birth rule inherits its team from its three living parents:
//! one side present and the other absent gives that side's team,
//! anything else gives Neutral.

pub mod cell;
pub mod cells;
pub mod conway;
pub mod indexer;
pub mod rng;
