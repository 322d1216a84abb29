pub mod bitboard;
pub mod defs;
pub mod fen;
pub mod laws;
pub mod model;

use crate::board::bitboard::Bitboard;
use crate::board::defs::Square;
use crate::board::model::{
    bv_remove_at, castle_dest_ok, castle_rook_src, ep_capture_square, make_move_safe,
    source_rights, sq_mask, spec_capture_move, spec_castling_move, spec_en_passant_move,
    spec_make_move, spec_promotion_move, starting_board_v, BoardV,
};
use crate::color::Color;
use crate::game::defs::CastlingRights;
use crate::game::game_move::{Move, MoveFlag};
use crate::piece::Piece;
use vstd::prelude::*;

verus! {

/// The error kinds surfaced by [`Board::make_move`].
#[derive(Debug, PartialEq, Eq)]
pub enum MakeMoveError {
    /// A capture or en-passant flag, but the victim square is empty.
    NoCaptureVictim,
    /// A flag outside the eight defined encodings.
    UnhandledMoveFlag(MoveFlag),
    /// The source square is empty, or its piece does not belong to the side
    /// to move.
    InvalidPieceColor,
    /// Reserved for callers expecting a flag that was not set.
    MissingFlag(MoveFlag),
}

/// A chess position: six per-kind bitboards, two per-color bitboards, a
/// 64-entry mailbox, and the game metadata.  The three encodings of the
/// placed pieces are redundant; [`consistent`] states their agreement.
#[derive(Debug, Clone, Copy, PartialEq, Eq)]
pub struct Board {
    pub bb_pieces: [Bitboard; 6],
    pub bb_colors: [Bitboard; 2],
    pub pieces: [Piece; 64],
    pub color_to_move: Color,
    pub castling_rights: CastlingRights,
    pub en_passant_square: Option<Square>,
    pub halfmove_clock: u8,
    pub fullmove_number: u16,
}

impl Board {
    /// The board with no pieces, white to move, no rights and no en-passant
    /// square.
    pub fn empty() -> (r: Board)
        ensures
            r@ == crate::board::model::empty_board_v(),
    {
        let r = Board {
            bb_pieces: [Bitboard(0);6],
            bb_colors: [Bitboard(0);2],
            pieces: [Piece(0);64],
            color_to_move: Color(1),
            castling_rights: CastlingRights(0),
            en_passant_square: None,
            halfmove_clock: 0,
            fullmove_number: 1,
        };
        proof {
            assert(r@ =~= crate::board::model::empty_board_v());
        }
        r
    }

    /// The canonical starting record in the standard textual notation.
    pub fn start_fen() -> (r: &'static str)
        ensures
            r@ == ("rnbqkbnr/pppppppp/8/8/8/8/PPPPPPPP/RNBQKBNR w KQkq - 0 1")@,
    {
        "rnbqkbnr/pppppppp/8/8/8/8/PPPPPPPP/RNBQKBNR w KQkq - 0 1"
    }

    /// The statically-defined starting position.
    pub fn starting_board() -> (r: Board)
        ensures
            r@ == starting_board_v(),
    {
        let r = Board {
            bb_colors: [Bitboard(0xFFFF), Bitboard(0xFFFF000000000000)],
            bb_pieces: [
                Bitboard(0xFF00000000FF00),
                Bitboard(0x4200000000000042),
                Bitboard(0x2400000000000024),
                Bitboard(0x8100000000000081),
                Bitboard(0x800000000000008),
                Bitboard(0x1000000000000010),
            ],
            pieces: [
                Piece(12),
                Piece(10),
                Piece(11),
                Piece(13),
                Piece(14),
                Piece(11),
                Piece(10),
                Piece(12),
                Piece(9),
                Piece(9),
                Piece(9),
                Piece(9),
                Piece(9),
                Piece(9),
                Piece(9),
                Piece(9),
                Piece(0),
                Piece(0),
                Piece(0),
                Piece(0),
                Piece(0),
                Piece(0),
                Piece(0),
                Piece(0),
                Piece(0),
                Piece(0),
                Piece(0),
                Piece(0),
                Piece(0),
                Piece(0),
                Piece(0),
                Piece(0),
                Piece(0),
                Piece(0),
                Piece(0),
                Piece(0),
                Piece(0),
                Piece(0),
                Piece(0),
                Piece(0),
                Piece(0),
                Piece(0),
                Piece(0),
                Piece(0),
                Piece(0),
                Piece(0),
                Piece(0),
                Piece(0),
                Piece(17),
                Piece(17),
                Piece(17),
                Piece(17),
                Piece(17),
                Piece(17),
                Piece(17),
                Piece(17),
                Piece(20),
                Piece(18),
                Piece(19),
                Piece(21),
                Piece(22),
                Piece(19),
                Piece(18),
                Piece(20),
            ],
            castling_rights: CastlingRights(15),
            color_to_move: Color(1),
            en_passant_square: None,
            halfmove_clock: 0,
            fullmove_number: 1,
        };
        proof {
            assert(r@ =~= starting_board_v());
        }
        r
    }

    /// The set of squares holding a piece of the given kind index.
    #[inline]
    pub fn piece_bb(&self, piece_index: usize) -> (r: Bitboard)
        requires
            piece_index < 6,
        ensures
            r.0 == self@.bb_pieces[piece_index as int],
    {
        self.bb_pieces[piece_index]
    }

    /// The set of squares holding a piece of the given color index.
    pub fn color_bb(&self, color_index: usize) -> (r: Bitboard)
        requires
            color_index < 2,
        ensures
            r.0 == self@.bb_colors[color_index as int],
    {
        self.bb_colors[color_index]
    }

    /// The set of all occupied squares: the union of the two color boards.
    pub fn all_occupied(&self) -> (r: Bitboard)
        ensures
            r.0 == self@.bb_colors[0] | self@.bb_colors[1],
    {
        let mut bb = Bitboard(0);
        bb = Bitboard(bb.0 | self.bb_colors[0].0);
        bb = Bitboard(bb.0 | self.bb_colors[1].0);
        proof {
            let c0 = self@.bb_colors[0];
            assert(0u64 | c0 == c0) by (bit_vector);
        }
        bb
    }

    /// Whether the given square holds a piece of either color.
    pub fn is_square_occupied(&self, square: Square) -> (r: bool)
        requires
            square.0 < 64,
        ensures
            r == ((self@.bb_colors[0] | self@.bb_colors[1]) & sq_mask(square.0) != 0),
    {
        (self.all_occupied().0 & Bitboard::square_mask(square).0) != 0
    }

    /// Check that this position can be trusted to the move generator and
    /// the transition: the three encodings agree at every square, the side
    /// to move is a real side, every held castling right has its rook and
    /// its king on their home squares, and the en-passant square is an
    /// empty square on the capturable rank.  The answer is exact: true
    /// exactly when [`position_ok`] - the precondition of
    /// [`crate::movegen::Movegen::legal`] and
    /// [`crate::movegen::Movegen::perft`] - and [`castle_kings_ok`] both
    /// hold.
    pub fn position_valid(&self) -> (r: bool)
        ensures
            r == (crate::board::model::position_ok(self@)
                && crate::board::model::castle_kings_ok(self@)),
    {
        let ghost v = self@;
        proof {
            crate::board::bitboard::lemma_bit_ops();
        }
        if !(self.color_to_move.0 == 1 || self.color_to_move.0 == 2) {
            proof {
                assert(!crate::board::model::position_ok(v));
            }
            return false;
        }
        let mut s: usize = 0;
        while s < 64
            invariant
                s <= 64,
                v == self@,
                forall|t: u64| t < s ==> crate::board::model::square_consistent(v, t),
            decreases 64 - s,
        {
            proof {
                crate::board::bitboard::lemma_bit_ops();
            }
            let p = self.pieces[s];
            let mask: u64 = 1u64 << (s as u64);
            if p.0 == 0 {
                let mut k: usize = 0;
                while k < 6
                    invariant
                        k <= 6,
                        s < 64,
                        v == self@,
                        mask == sq_mask(s as u8),
                        v.pieces[s as int].0 == 0,
                        forall|kk: int|
                            0 <= kk < k ==> !crate::board::bitboard::bit64(
                                #[trigger] v.bb_pieces[kk],
                                s as u64,
                            ),
                    decreases 6 - k,
                {
                    proof {
                        crate::board::bitboard::lemma_bit_ops();
                    }
                    if (self.bb_pieces[k].0 & mask) != 0 {
                        proof {
                            assert(crate::board::bitboard::bit64(v.bb_pieces[k as int], s as u64));
                            assert(!crate::board::model::square_consistent(v, s as u64));
                            assert(!crate::board::model::position_ok(v));
                        }
                        return false;
                    }
                    k = k + 1;
                }
                let mut c: usize = 0;
                while c < 2
                    invariant
                        c <= 2,
                        s < 64,
                        v == self@,
                        mask == sq_mask(s as u8),
                        v.pieces[s as int].0 == 0,
                        forall|cc: int|
                            0 <= cc < c ==> !crate::board::bitboard::bit64(
                                #[trigger] v.bb_colors[cc],
                                s as u64,
                            ),
                    decreases 2 - c,
                {
                    proof {
                        crate::board::bitboard::lemma_bit_ops();
                    }
                    if (self.bb_colors[c].0 & mask) != 0 {
                        proof {
                            assert(crate::board::bitboard::bit64(v.bb_colors[c as int], s as u64));
                            assert(!crate::board::model::square_consistent(v, s as u64));
                            assert(!crate::board::model::position_ok(v));
                        }
                        return false;
                    }
                    c = c + 1;
                }
            } else {
                let kind = p.0 & 7;
                let cb = p.0 >> 3;
                if kind == 0 || kind > 6 || (cb != 1 && cb != 2) {
                    proof {
                        assert(!crate::board::model::square_consistent(v, s as u64));
                        assert(!crate::board::model::position_ok(v));
                    }
                    return false;
                }
                let ki = (kind - 1) as usize;
                let ci: usize = if cb == 1 {
                    0
                } else {
                    1
                };
                let mut k: usize = 0;
                while k < 6
                    invariant
                        k <= 6,
                        s < 64,
                        v == self@,
                        mask == sq_mask(s as u8),
                        v.pieces[s as int].0 != 0,
                        v.pieces[s as int].valid(),
                        ki == v.pieces[s as int].spec_kind_index(),
                        forall|kk: int|
                            0 <= kk < k ==> (crate::board::bitboard::bit64(
                                #[trigger] v.bb_pieces[kk],
                                s as u64,
                            ) <==> kk == v.pieces[s as int].spec_kind_index()),
                    decreases 6 - k,
                {
                    proof {
                        crate::board::bitboard::lemma_bit_ops();
                    }
                    let bitset = (self.bb_pieces[k].0 & mask) != 0;
                    if bitset != (k == ki) {
                        proof {
                            assert(crate::board::bitboard::bit64(v.bb_pieces[k as int], s as u64)
                                == bitset);
                            assert(!crate::board::model::square_consistent(v, s as u64));
                            assert(!crate::board::model::position_ok(v));
                        }
                        return false;
                    }
                    k = k + 1;
                }
                let mut c: usize = 0;
                while c < 2
                    invariant
                        c <= 2,
                        s < 64,
                        v == self@,
                        mask == sq_mask(s as u8),
                        v.pieces[s as int].0 != 0,
                        v.pieces[s as int].valid(),
                        ci == v.pieces[s as int].spec_color().spec_index(),
                        forall|cc: int|
                            0 <= cc < c ==> (crate::board::bitboard::bit64(
                                #[trigger] v.bb_colors[cc],
                                s as u64,
                            ) <==> cc == v.pieces[s as int].spec_color().spec_index()),
                    decreases 2 - c,
                {
                    proof {
                        crate::board::bitboard::lemma_bit_ops();
                    }
                    let bitset = (self.bb_colors[c].0 & mask) != 0;
                    if bitset != (c == ci) {
                        proof {
                            assert(crate::board::bitboard::bit64(v.bb_colors[c as int], s as u64)
                                == bitset);
                            assert(!crate::board::model::square_consistent(v, s as u64));
                            assert(!crate::board::model::position_ok(v));
                        }
                        return false;
                    }
                    c = c + 1;
                }
            }
            proof {
                assert(crate::board::model::square_consistent(v, s as u64));
            }
            s = s + 1;
        }
        if (self.castling_rights.0 & 1) != 0 && self.pieces[7].0 != 12 {
            return false;
        }
        if (self.castling_rights.0 & 2) != 0 && self.pieces[0].0 != 12 {
            return false;
        }
        if (self.castling_rights.0 & 4) != 0 && self.pieces[63].0 != 20 {
            return false;
        }
        if (self.castling_rights.0 & 8) != 0 && self.pieces[56].0 != 20 {
            return false;
        }
        if (self.castling_rights.0 & 3) != 0 && self.pieces[4].0 != 14 {
            return false;
        }
        if (self.castling_rights.0 & 12) != 0 && self.pieces[60].0 != 22 {
            return false;
        }
        match self.en_passant_square {
            Some(e) => {
                if e.0 >= 64 {
                    return false;
                }
                if self.pieces[e.0 as usize].0 != 0 {
                    return false;
                }
                if self.color_to_move.0 == 1 && !(e.0 / 8 == 5) {
                    return false;
                }
                if self.color_to_move.0 == 2 && !(e.0 / 8 == 2) {
                    return false;
                }
            },
            None => {},
        }
        true
    }
}

impl Board {
    /// Remove the captured piece on the destination square from all three
    /// encodings, clearing a rook victim's corner castling right first.
    fn make_capture_move(&mut self, dest_index: usize, dest_mask: Bitboard) -> (r: Result<
        (),
        MakeMoveError,
    >)
        requires
            dest_index < 64,
            dest_mask.0 == sq_mask(dest_index as u8),
            old(self)@.pieces[dest_index as int].valid(),
        ensures
            old(self)@.pieces[dest_index as int].0 == 0 ==> r == Err::<(), MakeMoveError>(
                MakeMoveError::NoCaptureVictim,
            ) && *final(self) == *old(self),
            old(self)@.pieces[dest_index as int].0 != 0 ==> r == Ok::<(), MakeMoveError>(())
                && final(self)@ == spec_capture_move(old(self)@, dest_index as u8),
    {
        let captured_piece = self.pieces[dest_index];
        if captured_piece.0 == 0 {
            return Err(MakeMoveError::NoCaptureVictim);
        }
        if captured_piece.get_type().0 == 4 {
            if dest_index == 0 {
                self.castling_rights = CastlingRights(self.castling_rights.0 & !2u8);
            } else if dest_index == 7 {
                self.castling_rights = CastlingRights(self.castling_rights.0 & !1u8);
            } else if dest_index == 56 {
                self.castling_rights = CastlingRights(self.castling_rights.0 & !8u8);
            } else if dest_index == 63 {
                self.castling_rights = CastlingRights(self.castling_rights.0 & !4u8);
            }
        }
        let captured_piece_index = captured_piece.index();
        let captured_color_index = match captured_piece.get_color() {
            Some(c) => c.index(),
            None => {
                return Err(MakeMoveError::InvalidPieceColor);
            },
        };
        let bp = self.bb_pieces[captured_piece_index];
        self.bb_pieces[captured_piece_index] = Bitboard(bp.0 & !dest_mask.0);
        let bc = self.bb_colors[captured_color_index];
        self.bb_colors[captured_color_index] = Bitboard(bc.0 & !dest_mask.0);
        self.pieces[dest_index] = Piece(0);
        proof {
            assert(self@ =~= spec_capture_move(old(self)@, dest_index as u8));
        }
        Ok(())
    }

    /// Remove the pawn captured en passant, one rank behind the capture
    /// target, and clear the en-passant square.
    fn make_en_passant_move(&mut self, dest: Square, color: Color) -> (r: Result<
        (),
        MakeMoveError,
    >)
        requires
            dest.0 < 64,
            color.valid(),
            color.0 == 1 ==> dest.0 >= 8,
            color.0 == 2 ==> dest.0 <= 55,
            old(self)@.pieces[ep_capture_square(dest.0, color) as int].valid(),
        ensures
            old(self)@.pieces[ep_capture_square(dest.0, color) as int].0 == 0 ==> r == Err::<
                (),
                MakeMoveError,
            >(MakeMoveError::NoCaptureVictim) && *final(self) == *old(self),
            old(self)@.pieces[ep_capture_square(dest.0, color) as int].0 != 0 ==> r == Ok::<
                (),
                MakeMoveError,
            >(()) && final(self)@ == spec_en_passant_move(old(self)@, dest.0, color),
    {
        let capture_square = if color.0 == 1 {
            Square(dest.0 - 8)
        } else {
            Square(dest.0 + 8)
        };
        let capture_index = capture_square.0 as usize;
        let captured_piece = self.pieces[capture_index];
        if captured_piece.0 == 0 {
            return Err(MakeMoveError::NoCaptureVictim);
        }
        let captured_type = captured_piece.index();
        let captured_color_index = match captured_piece.get_color() {
            Some(c) => c.index(),
            None => {
                return Err(MakeMoveError::InvalidPieceColor);
            },
        };
        let mask = Bitboard::square_mask(capture_square);
        let bp = self.bb_pieces[captured_type];
        self.bb_pieces[captured_type] = Bitboard(bp.0 & !mask.0);
        let bc = self.bb_colors[captured_color_index];
        self.bb_colors[captured_color_index] = Bitboard(bc.0 & !mask.0);
        self.pieces[capture_index] = Piece(0);
        self.en_passant_square = None;
        proof {
            assert(self@ =~= spec_en_passant_move(old(self)@, dest.0, color));
        }
        Ok(())
    }

    /// Relocate the castling rook from its home corner to the square beside
    /// the king's destination, clear both of the mover's castling rights,
    /// and clear the en-passant square.
    fn make_castling_move(&mut self, dest: Square, color_index: usize)
        requires
            castle_dest_ok(dest.0),
            color_index < 2,
            old(self)@.pieces[castle_rook_src(dest.0) as int].valid(),
            old(self)@.pieces[castle_rook_src(dest.0) as int].0 != 0,
        ensures
            final(self)@ == spec_castling_move(old(self)@, dest.0, color_index as int),
    {
        let (rook_src, rook_dest): (Square, Square) = if dest.0 == 6 {
            (Square(7), Square(5))
        } else if dest.0 == 2 {
            (Square(0), Square(3))
        } else if dest.0 == 62 {
            (Square(63), Square(61))
        } else {
            (Square(56), Square(59))
        };
        let rook_piece = self.pieces[rook_src.0 as usize];
        let rook_piece_index = rook_piece.index();
        let src_mask = Bitboard::square_mask(rook_src);
        let dest_mask = Bitboard::square_mask(rook_dest);
        let bp = self.bb_pieces[rook_piece_index];
        self.bb_pieces[rook_piece_index] = Bitboard((bp.0 & !src_mask.0) | dest_mask.0);
        let bc = self.bb_colors[color_index];
        self.bb_colors[color_index] = Bitboard((bc.0 & !src_mask.0) | dest_mask.0);
        self.pieces[rook_dest.0 as usize] = rook_piece;
        self.pieces[rook_src.0 as usize] = Piece(0);
        if color_index == 0 {
            self.castling_rights = CastlingRights(self.castling_rights.0 & !3u8);
        } else {
            self.castling_rights = CastlingRights(self.castling_rights.0 & !12u8);
        }
        self.en_passant_square = None;
        proof {
            assert(self@ =~= spec_castling_move(old(self)@, dest.0, color_index as int));
        }
    }

    /// Capture whatever stands on the promotion square, clearing a rook
    /// victim's corner right, then place the promoted piece there and clear
    /// the en-passant square.  The pawn itself was already lifted from the
    /// source square by the caller.
    #[allow(unused_variables)]
    fn make_promotion_move(
        &mut self,
        src: Square,
        dest: Square,
        dest_index: usize,
        color: Color,
        color_index: usize,
        flag: MoveFlag,
    )
        requires
            dest.0 < 64,
            dest_index == dest.0 as usize,
            color.valid(),
            color_index == color.spec_index(),
            4 <= flag.0 <= 7,
            old(self)@.pieces[dest.0 as int].valid(),
        ensures
            final(self)@ == spec_promotion_move(old(self)@, dest.0, color, flag.0),
    {
        let dest_mask = Bitboard::square_mask(dest);
        let dest_piece = self.pieces[dest_index];
        if dest_piece.0 != 0 {
            if dest_piece.get_type().0 == 4 {
                if dest_index == 0 {
                    self.castling_rights = CastlingRights(self.castling_rights.0 & !2u8);
                } else if dest_index == 7 {
                    self.castling_rights = CastlingRights(self.castling_rights.0 & !1u8);
                } else if dest_index == 56 {
                    self.castling_rights = CastlingRights(self.castling_rights.0 & !8u8);
                } else if dest_index == 63 {
                    self.castling_rights = CastlingRights(self.castling_rights.0 & !4u8);
                }
            }
            let dest_piece_index = dest_piece.index();
            let dest_color_index = match dest_piece.get_color() {
                Some(c) => c.index(),
                None => 0,
            };
            let bp = self.bb_pieces[dest_piece_index];
            self.bb_pieces[dest_piece_index] = Bitboard(bp.0 & !dest_mask.0);
            let bc = self.bb_colors[dest_color_index];
            self.bb_colors[dest_color_index] = Bitboard(bc.0 & !dest_mask.0);
            self.pieces[dest_index] = Piece(0);
            proof {
                assert(self@ =~= spec_capture_move(old(self)@, dest.0));
            }
        }
        let promoted_piece_type = Piece(flag.0 - 2);
        proof {
            let k = (flag.0 - 2) as u8;
            assert(k < 8 ==> k & 7 == k) by (bit_vector);
        }
        let promoted_piece = Piece::new(color, promoted_piece_type);
        let promoted_piece_index = promoted_piece_type.index();
        let bp2 = self.bb_pieces[promoted_piece_index];
        self.bb_pieces[promoted_piece_index] = Bitboard(bp2.0 | dest_mask.0);
        let bc2 = self.bb_colors[color_index];
        self.bb_colors[color_index] = Bitboard(bc2.0 | dest_mask.0);
        self.pieces[dest_index] = promoted_piece;
        self.en_passant_square = None;
        proof {
            assert(self@ =~= spec_promotion_move(old(self)@, dest.0, color, flag.0));
        }
    }

    /// Apply a move to the position: lift the mover, adjust castling rights
    /// from the source square, dispatch on the move flag, place the moved or
    /// promoted piece, and hand the turn to the other side.  The executable
    /// procedure returns and mutates exactly what [`spec_make_move`] says;
    /// on an error the position is left in an unspecified partially-updated
    /// state, so callers that care must operate on a clone.
    pub fn make_move(&mut self, mv: Move) -> (r: Result<(), MakeMoveError>)
        requires
            make_move_safe(old(self)@, mv),
        ensures
            spec_make_move(old(self)@, mv) matches Ok(v2) ==> r == Ok::<(), MakeMoveError>(())
                && final(self)@ == v2,
            spec_make_move(old(self)@, mv) matches Err(e) ==> r == Err::<(), MakeMoveError>(e),
            crate::game::defs::cr_subset(
                final(self)@.castling_rights,
                old(self)@.castling_rights,
            ),
            r == Err::<(), MakeMoveError>(MakeMoveError::InvalidPieceColor) ==> *final(self)
                == *old(self),
    {
        proof {
            let r0 = self.castling_rights.0;
            assert(r0 & !r0 == 0) by (bit_vector);
        }
        let src = mv.get_source();
        let dest = mv.get_dest();
        let flag = mv.get_flag();
        let source_index = src.0 as usize;
        let dest_index = dest.0 as usize;
        let moving_piece = self.pieces[source_index];
        if moving_piece.0 == 0 {
            return Err(MakeMoveError::InvalidPieceColor);
        }
        let color = match moving_piece.get_color() {
            Some(c) => c,
            None => {
                return Err(MakeMoveError::InvalidPieceColor);
            },
        };
        if color.0 != self.color_to_move.0 {
            return Err(MakeMoveError::InvalidPieceColor);
        }
        let color_index = color.index();
        let piece_index = moving_piece.index();
        let src_mask = Bitboard::square_mask(src);
        let dest_mask = Bitboard::square_mask(dest);
        let bp = self.bb_pieces[piece_index];
        self.bb_pieces[piece_index] = Bitboard(bp.0 & !src_mask.0);
        let bc = self.bb_colors[color_index];
        self.bb_colors[color_index] = Bitboard(bc.0 & !src_mask.0);
        self.pieces[source_index] = Piece(0);
        proof {
            assert(self@ =~= bv_remove_at(old(self)@, src.0));
        }
        if moving_piece.get_type().0 == 6 {
            if color.0 == 1 {
                self.castling_rights = CastlingRights(self.castling_rights.0 & !3u8);
            } else {
                self.castling_rights = CastlingRights(self.castling_rights.0 & !12u8);
            }
        } else if moving_piece.get_type().0 == 4 {
            if source_index == 0 {
                self.castling_rights = CastlingRights(self.castling_rights.0 & !2u8);
            } else if source_index == 7 {
                self.castling_rights = CastlingRights(self.castling_rights.0 & !1u8);
            } else if source_index == 56 {
                self.castling_rights = CastlingRights(self.castling_rights.0 & !8u8);
            } else if source_index == 63 {
                self.castling_rights = CastlingRights(self.castling_rights.0 & !4u8);
            }
        }
        let ghost lifted = bv_remove_at(old(self)@, src.0);
        let ghost v1 = BoardV {
            castling_rights: source_rights(lifted.castling_rights, moving_piece, src.0),
            ..lifted
        };
        proof {
            assert(self@ =~= v1);
            let r0 = old(self)@.castling_rights;
            let s1 = self@.castling_rights;
            assert(s1 == r0 || s1 == (r0 & !3) || s1 == (r0 & !12) || s1 == (r0 & !2) || s1 == (
            r0 & !1) || s1 == (r0 & !8) || s1 == (r0 & !4));
            assert((s1 == r0 || s1 == (r0 & !3) || s1 == (r0 & !12) || s1 == (r0 & !2) || s1
                == (r0 & !1) || s1 == (r0 & !8) || s1 == (r0 & !4)) ==> s1 & !r0 == 0)
                by (bit_vector);
        }
        if flag.0 == 1 {
            match self.make_capture_move(dest_index, dest_mask) {
                Ok(u) => u,
                Err(e) => {
                    return Err(e);
                },
            };
            self.en_passant_square = None;
        } else if flag.0 == 2 {
            match self.make_en_passant_move(dest, color) {
                Ok(u) => u,
                Err(e) => {
                    return Err(e);
                },
            };
            self.en_passant_square = None;
        } else if flag.0 == 3 {
            self.make_castling_move(dest, color_index);
            self.en_passant_square = None;
        } else if 4 <= flag.0 && flag.0 <= 7 {
            self.make_promotion_move(src, dest, dest_index, color, color_index, flag);
            self.en_passant_square = None;
            let c = self.color_to_move;
            self.color_to_move = c.not();
            proof {
                assert(self@ =~= spec_make_move(old(self)@, mv)->Ok_0);
                if spec_make_move(old(self)@, mv) is Ok {
                    crate::board::laws::lemma_rights_monotone(old(self)@, mv);
                }
            }
            return Ok(());
        } else if flag.0 == 0 {
            if moving_piece.get_type().0 == 1 {
                if color.0 == 1 {
                    if src.get_rank().0 == 1 && dest.get_rank().0 == 3 {
                        proof {
                            assert(src.0 / 8 == 1 ==> src.0 < 16);
                        }
                        self.en_passant_square = Some(Square(src.0 + 8));
                    } else {
                        self.en_passant_square = None;
                    }
                } else {
                    if src.get_rank().0 == 6 && dest.get_rank().0 == 4 {
                        proof {
                            assert(src.0 / 8 == 6 ==> src.0 >= 48);
                        }
                        self.en_passant_square = Some(Square(src.0 - 8));
                    } else {
                        self.en_passant_square = None;
                    }
                }
            } else {
                self.en_passant_square = None;
            }
        } else {
            return Err(MakeMoveError::UnhandledMoveFlag(flag));
        }
        let bp2 = self.bb_pieces[piece_index];
        self.bb_pieces[piece_index] = Bitboard(bp2.0 | dest_mask.0);
        let bc2 = self.bb_colors[color_index];
        self.bb_colors[color_index] = Bitboard(bc2.0 | dest_mask.0);
        self.pieces[dest_index] = moving_piece;
        let c = self.color_to_move;
        self.color_to_move = c.not();
        proof {
            assert(self@ =~= spec_make_move(old(self)@, mv)->Ok_0);
            if spec_make_move(old(self)@, mv) is Ok {
                crate::board::laws::lemma_rights_monotone(old(self)@, mv);
            }
        }
        Ok(())
    }
}

} // verus!
