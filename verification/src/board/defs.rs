use vstd::prelude::*;

verus! {

/// Board dimensions and the sizes of the dense piece and color index spaces.
pub struct NrOf;

impl NrOf {
    pub const SQUARES: usize = 64;

    pub const FILES: usize = 8;

    pub const RANKS: usize = 8;

    pub const PIECES: usize = 6;

    pub const COLORS: usize = 2;
}

/// A file on the chess board, a through h as 0 through 7.
#[derive(Debug, Clone, Copy, PartialEq, Eq)]
pub struct File(pub u8);

/// A rank on the chess board, 1 through 8 as 0 through 7.
#[derive(Debug, Clone, Copy, PartialEq, Eq)]
pub struct Rank(pub u8);

/// A square on the chess board, 0 through 63 as a1 through h8, encoded as
/// `rank * 8 + file`.
#[derive(Debug, Clone, Copy, PartialEq, Eq)]
pub struct Square(pub u8);

impl Square {
    /// Construct a square from a [`Rank`] and [`File`].
    pub fn from_rank_file(rank: Rank, file: File) -> (r: Square)
        requires
            rank.0 < 8,
            file.0 < 8,
        ensures
            r.0 == rank.0 * 8 + file.0,
            r.0 < 64,
    {
        Square((rank.0 * 8) + file.0)
    }

    /// The rank a square lies on.
    pub fn get_rank(self) -> (r: Rank)
        ensures
            r.0 == self.0 / 8,
    {
        Rank(self.0 / 8)
    }

    /// The file a square lies on.
    pub fn get_file(self) -> (r: File)
        ensures
            r.0 == self.0 % 8,
    {
        File(self.0 % 8)
    }
}

/// Square construction and its two projections are mutually inverse: the
/// square built from a rank and a file lies on that rank and that file, and
/// every square is the one built from its own rank and file.
pub proof fn lemma_square_rank_file(rank: u8, file: u8, sq: u8)
    requires
        rank < 8,
        file < 8,
        sq < 64,
    ensures
        (rank * 8 + file) / 8 == rank,
        (rank * 8 + file) % 8 == file,
        sq / 8 < 8 && sq % 8 < 8,
        (sq / 8) * 8 + sq % 8 == sq,
{
    assert((rank * 8 + file) / 8 == rank && (rank * 8 + file) % 8 == file) by (nonlinear_arith)
        requires
            rank < 8,
            file < 8,
    ;
}

} // verus!
