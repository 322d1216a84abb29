use vstd::prelude::*;

verus! {

/// Board dimensions and index-space sizes shared by the dense piece
/// encoding.
pub struct NrOf;

impl NrOf {
    pub const FILES: usize = 8;

    pub const RANKS: usize = 8;

    pub const SQUARES: usize = 64;

    pub const PIECES: usize = 6;

    pub const SIDES: usize = 2;
}

} // verus!
