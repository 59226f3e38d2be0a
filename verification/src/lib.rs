//! A two-player, turn-based 3x3 grid game engine: board state, turn
//! alternation, move validation and win detection, with a text rendering of
//! the board. Console interaction is left to the embedding program.

pub mod board;
pub mod game;
pub mod laws;

use vstd::prelude::*;

verus! {

} // verus!
