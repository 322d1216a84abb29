use crate::board::bitboard::Bitboard;
use crate::board::defs::Square;
use crate::color::Color;
use vstd::prelude::*;

verus! {

/// The set of squares a knight on `sq` attacks: the eight jumps, each with
/// the file-exclusion mask that stops wrap-around at the board edge.
pub open spec fn spec_knight_attacks(sq: u8) -> u64
    recommends
        sq < 64,
{
    let b = 1u64 << (sq as u64);
    ((b << 17u64) & Bitboard::NOT_A_FILE) | ((b << 15u64) & Bitboard::NOT_H_FILE) | ((b
        << 10u64) & Bitboard::NOT_AB_FILE) | ((b << 6u64) & Bitboard::NOT_GH_FILE) | ((b
        >> 17u64) & Bitboard::NOT_H_FILE) | ((b >> 15u64) & Bitboard::NOT_A_FILE) | ((b
        >> 10u64) & Bitboard::NOT_GH_FILE) | ((b >> 6u64) & Bitboard::NOT_AB_FILE)
}

/// The set of squares a king on `sq` attacks: the eight one-steps.
pub open spec fn spec_king_attacks(sq: u8) -> u64
    recommends
        sq < 64,
{
    let b = 1u64 << (sq as u64);
    (b << 8u64) | (b >> 8u64) | ((b << 9u64) & Bitboard::NOT_A_FILE) | ((b << 7u64)
        & Bitboard::NOT_H_FILE) | ((b >> 7u64) & Bitboard::NOT_A_FILE) | ((b >> 9u64)
        & Bitboard::NOT_H_FILE) | ((b << 1u64) & Bitboard::NOT_A_FILE) | ((b >> 1u64)
        & Bitboard::NOT_H_FILE)
}

/// The squares a white pawn on `sq` attacks: the two forward diagonals.
pub open spec fn spec_white_pawn_attacks(sq: u8) -> u64
    recommends
        sq < 64,
{
    let b = 1u64 << (sq as u64);
    ((b << 9u64) & Bitboard::NOT_A_FILE) | ((b << 7u64) & Bitboard::NOT_H_FILE)
}

/// The squares a black pawn on `sq` attacks: the two forward diagonals.
pub open spec fn spec_black_pawn_attacks(sq: u8) -> u64
    recommends
        sq < 64,
{
    let b = 1u64 << (sq as u64);
    ((b >> 7u64) & Bitboard::NOT_A_FILE) | ((b >> 9u64) & Bitboard::NOT_H_FILE)
}

/// Precomputed leaper attacks, one 64-entry table for knights, kings, and
/// each color's pawns.  The type invariant ties every entry to the
/// corresponding attack-set formula, so lookups return exactly what the
/// formulas say.
pub struct AttackTables {
    knight_attacks: [Bitboard; 64],
    king_attacks: [Bitboard; 64],
    white_pawn_attacks: [Bitboard; 64],
    black_pawn_attacks: [Bitboard; 64],
}

impl AttackTables {
    #[verifier::type_invariant]
    spec fn inv(&self) -> bool {
        (forall|s: int|
            0 <= s < 64 ==> (#[trigger] self.knight_attacks@[s]).0 == spec_knight_attacks(
                s as u8,
            )) && (forall|s: int|
            0 <= s < 64 ==> (#[trigger] self.king_attacks@[s]).0 == spec_king_attacks(s as u8))
            && (forall|s: int|
            0 <= s < 64 ==> (#[trigger] self.white_pawn_attacks@[s]).0
                == spec_white_pawn_attacks(s as u8)) && (forall|s: int|
            0 <= s < 64 ==> (#[trigger] self.black_pawn_attacks@[s]).0
                == spec_black_pawn_attacks(s as u8))
    }

    /// Fill all four tables from the attack-set formulas.
    pub fn new() -> Self {
        let mut knight_attacks: [Bitboard; 64] = [Bitboard(0);64];
        let mut king_attacks: [Bitboard; 64] = [Bitboard(0);64];
        let mut white_pawn_attacks: [Bitboard; 64] = [Bitboard(0);64];
        let mut black_pawn_attacks: [Bitboard; 64] = [Bitboard(0);64];
        let mut sq: usize = 0;
        while sq < 64
            invariant
                sq <= 64,
                forall|s: int|
                    0 <= s < sq ==> (#[trigger] knight_attacks@[s]).0 == spec_knight_attacks(
                        s as u8,
                    ),
                forall|s: int|
                    0 <= s < sq ==> (#[trigger] king_attacks@[s]).0 == spec_king_attacks(
                        s as u8,
                    ),
                forall|s: int|
                    0 <= s < sq ==> (#[trigger] white_pawn_attacks@[s]).0
                        == spec_white_pawn_attacks(s as u8),
                forall|s: int|
                    0 <= s < sq ==> (#[trigger] black_pawn_attacks@[s]).0
                        == spec_black_pawn_attacks(s as u8),
            decreases 64 - sq,
        {
            knight_attacks[sq] = Self::compute_knight_attacks(sq as u8);
            king_attacks[sq] = Self::compute_king_attacks(sq as u8);
            white_pawn_attacks[sq] = Self::compute_white_pawn_attacks(sq as u8);
            black_pawn_attacks[sq] = Self::compute_black_pawn_attacks(sq as u8);
            sq = sq + 1;
        }
        AttackTables { knight_attacks, king_attacks, white_pawn_attacks, black_pawn_attacks }
    }

    /// The knight attack set of one square, computed from the jump masks.
    fn compute_knight_attacks(sq: u8) -> (r: Bitboard)
        requires
            sq < 64,
        ensures
            r.0 == spec_knight_attacks(sq),
    {
        let b = 1u64 << (sq as u64);
        let attacks = ((b << 17u64) & Bitboard::NOT_A_FILE) | ((b << 15u64)
            & Bitboard::NOT_H_FILE) | ((b << 10u64) & Bitboard::NOT_AB_FILE) | ((b << 6u64)
            & Bitboard::NOT_GH_FILE) | ((b >> 17u64) & Bitboard::NOT_H_FILE) | ((b >> 15u64)
            & Bitboard::NOT_A_FILE) | ((b >> 10u64) & Bitboard::NOT_GH_FILE) | ((b >> 6u64)
            & Bitboard::NOT_AB_FILE);
        Bitboard(attacks)
    }

    /// The king attack set of one square, computed from the one-steps.
    fn compute_king_attacks(sq: u8) -> (r: Bitboard)
        requires
            sq < 64,
        ensures
            r.0 == spec_king_attacks(sq),
    {
        let b = 1u64 << (sq as u64);
        let attacks = (b << 8u64) | (b >> 8u64) | ((b << 9u64) & Bitboard::NOT_A_FILE) | ((b
            << 7u64) & Bitboard::NOT_H_FILE) | ((b >> 7u64) & Bitboard::NOT_A_FILE) | ((b
            >> 9u64) & Bitboard::NOT_H_FILE) | ((b << 1u64) & Bitboard::NOT_A_FILE) | ((b
            >> 1u64) & Bitboard::NOT_H_FILE);
        Bitboard(attacks)
    }

    /// The white pawn attack set of one square.
    fn compute_white_pawn_attacks(sq: u8) -> (r: Bitboard)
        requires
            sq < 64,
        ensures
            r.0 == spec_white_pawn_attacks(sq),
    {
        let b = 1u64 << (sq as u64);
        Bitboard(((b << 9u64) & Bitboard::NOT_A_FILE) | ((b << 7u64) & Bitboard::NOT_H_FILE))
    }

    /// The black pawn attack set of one square.
    fn compute_black_pawn_attacks(sq: u8) -> (r: Bitboard)
        requires
            sq < 64,
        ensures
            r.0 == spec_black_pawn_attacks(sq),
    {
        let b = 1u64 << (sq as u64);
        Bitboard(((b >> 7u64) & Bitboard::NOT_A_FILE) | ((b >> 9u64) & Bitboard::NOT_H_FILE))
    }

    /// The knight attack set of a square, from the table.
    #[inline]
    pub fn knight(&self, sq: Square) -> (r: Bitboard)
        requires
            sq.0 < 64,
        ensures
            r.0 == spec_knight_attacks(sq.0),
    {
        proof {
            use_type_invariant(self);
        }
        self.knight_attacks[sq.0 as usize]
    }

    /// The king attack set of a square, from the table.
    #[inline]
    pub fn king(&self, sq: Square) -> (r: Bitboard)
        requires
            sq.0 < 64,
        ensures
            r.0 == spec_king_attacks(sq.0),
    {
        proof {
            use_type_invariant(self);
        }
        self.king_attacks[sq.0 as usize]
    }

    /// The pawn attack set of a square for the given color, from the
    /// tables.
    #[inline]
    pub fn pawn(&self, sq: Square, color: Color) -> (r: Bitboard)
        requires
            sq.0 < 64,
        ensures
            color.0 == 1 ==> r.0 == spec_white_pawn_attacks(sq.0),
            color.0 != 1 ==> r.0 == spec_black_pawn_attacks(sq.0),
    {
        proof {
            use_type_invariant(self);
        }
        if color.0 == 1 {
            self.white_pawn_attacks[sq.0 as usize]
        } else {
            self.black_pawn_attacks[sq.0 as usize]
        }
    }
}

} // verus!
