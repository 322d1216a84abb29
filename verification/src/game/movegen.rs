use crate::board::Board;
use vstd::prelude::*;

verus! {

/// A move-generation context bound to one position.
pub struct Movegen {
    pub board: Board,
}

impl Movegen {
    /// Bind a move-generation context to a position.
    pub fn new(board: Board) -> (r: Movegen)
        ensures
            r.board == board,
    {
        Movegen { board }
    }
}

} // verus!
