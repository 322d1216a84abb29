use crate::color::Color;
use vstd::prelude::*;

verus! {

/// A tagged piece value: the low three bits give the kind, the bits above
/// [`Piece::COLOR_SHIFT`] give the color.  `Piece(0)` is the distinguished
/// empty value `NONE`.
#[derive(Debug, Clone, Copy, PartialEq, Eq)]
pub struct Piece(pub u8);

impl Piece {
    /// The pawn kind value, `Piece(1)`.
    pub fn pawn() -> (r: Piece)
        ensures
            r.0 == 1,
    {
        Piece(1)
    }

    /// The knight kind value, `Piece(2)`.
    pub fn knight() -> (r: Piece)
        ensures
            r.0 == 2,
    {
        Piece(2)
    }

    /// The bishop kind value, `Piece(3)`.
    pub fn bishop() -> (r: Piece)
        ensures
            r.0 == 3,
    {
        Piece(3)
    }

    /// The rook kind value, `Piece(4)`.
    pub fn rook() -> (r: Piece)
        ensures
            r.0 == 4,
    {
        Piece(4)
    }

    /// The queen kind value, `Piece(5)`.
    pub fn queen() -> (r: Piece)
        ensures
            r.0 == 5,
    {
        Piece(5)
    }

    /// The king kind value, `Piece(6)`.
    pub fn king() -> (r: Piece)
        ensures
            r.0 == 6,
    {
        Piece(6)
    }

    /// The distinguished empty value, `Piece(0)`.
    pub fn none_piece() -> (r: Piece)
        ensures
            r.0 == 0,
    {
        Piece(0)
    }

    pub const COLOR_SHIFT: usize = 3;

    /// The kind bits of a piece.
    pub open spec fn kind(self) -> u8 {
        self.0 & 7
    }

    /// The color bits of a piece.
    pub open spec fn color_bits(self) -> u8 {
        self.0 >> 3
    }

    /// A piece value is either `NONE` or carries one of the six kinds and one
    /// of the two colors.
    pub open spec fn valid(self) -> bool {
        self.0 == 0 || (1 <= self.kind() <= 6 && (self.color_bits() == 1 || self.color_bits()
            == 2))
    }

    /// The dense index of a piece kind, used to address the per-kind
    /// bitboards: pawn 0, knight 1, bishop 2, rook 3, queen 4, king 5.
    pub open spec fn spec_kind_index(self) -> int {
        self.kind() - 1
    }

    /// The color of a piece, as a spec value; meaningful only when the piece
    /// is not `NONE`.
    pub open spec fn spec_color(self) -> Color {
        Color(self.color_bits())
    }

    /// Construct a new [`Piece`] from color and kind bits.
    pub fn new(color: Color, piece_type: Piece) -> (r: Piece)
        ensures
            r.0 == (color.0 << 3) | piece_type.0,
            color.valid() && 1 <= piece_type.0 <= 6 ==> r.valid() && r.kind() == piece_type.0
                && r.color_bits() == color.0 && r.0 != 0,
    {
        let r = Piece((color.0 << 3) | piece_type.0);
        proof {
            let c = color.0;
            let t = piece_type.0;
            assert((c == 1 || c == 2) && 1 <= t <= 6 ==> ((c << 3) | t) & 7 == t && ((c << 3)
                | t) >> 3 == c && ((c << 3) | t) != 0) by (bit_vector);
        }
        r
    }

    /// Retrieve the color of a non-`NONE` [`Piece`].
    pub fn get_color(&self) -> (r: Option<Color>)
        ensures
            self.0 == 0 ==> r is None,
            self.0 != 0 ==> r == Some(self.spec_color()),
    {
        if self.0 == 0 {
            return None;
        }
        Some(Color(self.0 >> 3))
    }

    /// Retrieve the kind bits of a [`Piece`].
    pub fn get_type(&self) -> (r: Piece)
        ensures
            r.0 == self.kind(),
    {
        Piece(self.0 & 7)
    }

    /// The dense per-kind bitboard index of a piece.
    pub fn index(self) -> (r: usize)
        requires
            1 <= self.kind() <= 6,
        ensures
            r == self.spec_kind_index(),
            r < 6,
    {
        let t = self.0 & 7;
        (t - 1) as usize
    }
}

} // verus!
