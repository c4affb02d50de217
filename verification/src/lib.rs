//! State core of a single-player, turn-driven text simulation: the character's
//! attributes and survival stats, the binary snapshots that carry world and
//! character between sessions, and the decisions of the turn loop.

pub mod entities;
pub mod util;
pub mod game;
