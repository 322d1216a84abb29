pub mod defs;
pub mod game_move;
pub mod history;
pub mod movegen;

use crate::board::Board;
use crate::game::history::History;
use vstd::prelude::*;

verus! {

/// A game in progress: the current position together with the stack of
/// played moves.
pub struct Game {
    pub board: Board,
    pub history: History,
}

} // verus!
