//! The mathematical model of a position: an abstract view of [`Board`], the
//! cross-index consistency invariant, and the specification-level transition
//! that [`Board::make_move`] is proved to implement.

use crate::board::bitboard::bit64;
use crate::board::{Board, MakeMoveError};
use crate::color::Color;
use crate::game::game_move::{mv_dest, mv_flag, mv_source, Move};
use crate::piece::Piece;
use vstd::prelude::*;

verus! {

/// The abstract state of a position: six per-kind square sets, two per-color
/// square sets, the mailbox, and the metadata.
#[verifier::ext_equal]
pub ghost struct BoardV {
    pub bb_pieces: Seq<u64>,
    pub bb_colors: Seq<u64>,
    pub pieces: Seq<Piece>,
    pub color_to_move: Color,
    pub castling_rights: u8,
    pub en_passant_square: Option<u8>,
    pub halfmove_clock: u8,
    pub fullmove_number: u16,
}

impl View for Board {
    type V = BoardV;

    open spec fn view(&self) -> BoardV {
        BoardV {
            bb_pieces: self.bb_pieces@.map_values(|b: crate::board::bitboard::Bitboard| b.0),
            bb_colors: self.bb_colors@.map_values(|b: crate::board::bitboard::Bitboard| b.0),
            pieces: self.pieces@,
            color_to_move: self.color_to_move,
            castling_rights: self.castling_rights.0,
            en_passant_square: match self.en_passant_square {
                Some(s) => Some(s.0),
                None => None,
            },
            halfmove_clock: self.halfmove_clock,
            fullmove_number: self.fullmove_number,
        }
    }
}

/// The mailbox of the starting position: piece codes are
/// `color_bits * 8 + kind`, with white 1 and black 2, and kinds pawn 1
/// through king 6.
pub open spec fn starting_mailbox() -> Seq<Piece> {
    seq![
        Piece(12), Piece(10), Piece(11), Piece(13), Piece(14), Piece(11), Piece(10), Piece(12),
        Piece(9), Piece(9), Piece(9), Piece(9), Piece(9), Piece(9), Piece(9), Piece(9),
        Piece(0), Piece(0), Piece(0), Piece(0), Piece(0), Piece(0), Piece(0), Piece(0),
        Piece(0), Piece(0), Piece(0), Piece(0), Piece(0), Piece(0), Piece(0), Piece(0),
        Piece(0), Piece(0), Piece(0), Piece(0), Piece(0), Piece(0), Piece(0), Piece(0),
        Piece(0), Piece(0), Piece(0), Piece(0), Piece(0), Piece(0), Piece(0), Piece(0),
        Piece(17), Piece(17), Piece(17), Piece(17), Piece(17), Piece(17), Piece(17), Piece(17),
        Piece(20), Piece(18), Piece(19), Piece(21), Piece(22), Piece(19), Piece(18), Piece(20),
    ]
}

/// The abstract starting position: the standard piece placement, all four
/// castling rights, white to move.
pub open spec fn starting_board_v() -> BoardV {
    BoardV {
        bb_pieces: seq![
            0xFF00000000FF00u64,
            0x4200000000000042u64,
            0x2400000000000024u64,
            0x8100000000000081u64,
            0x800000000000008u64,
            0x1000000000000010u64,
        ],
        bb_colors: seq![0xFFFFu64, 0xFFFF000000000000u64],
        pieces: starting_mailbox(),
        color_to_move: Color(1),
        castling_rights: 15,
        en_passant_square: None,
        halfmove_clock: 0,
        fullmove_number: 1,
    }
}

/// The abstract empty board: no pieces, white to move, no rights, no
/// en-passant square, clocks at their starting values.
pub open spec fn empty_board_v() -> BoardV {
    BoardV {
        bb_pieces: Seq::new(6, |k: int| 0u64),
        bb_colors: Seq::new(2, |c: int| 0u64),
        pieces: Seq::new(64, |s: int| Piece(0)),
        color_to_move: Color(1),
        castling_rights: 0,
        en_passant_square: None,
        halfmove_clock: 0,
        fullmove_number: 1,
    }
}

/// The single-square mask for square `s`.
pub open spec fn sq_mask(s: u8) -> u64
    recommends
        s < 64,
{
    1u64 << (s as u64)
}

/// The view has the right shape: six kind boards, two color boards, and a
/// 64-entry mailbox.
pub open spec fn shaped(v: BoardV) -> bool {
    v.bb_pieces.len() == 6 && v.bb_colors.len() == 2 && v.pieces.len() == 64
}

/// Every mailbox entry is `NONE` or a piece with one of the six kinds and
/// one of the two colors.
pub open spec fn mailbox_ok(v: BoardV) -> bool {
    shaped(v) && forall|s: int| 0 <= s < 64 ==> (#[trigger] v.pieces[s]).valid()
}

/// The three redundant encodings agree at square `s`: an empty mailbox entry
/// means no kind board and no color board holds `s`, and a piece at `s`
/// means exactly its own kind board and its own color board hold `s`.
pub open spec fn square_consistent(v: BoardV, s: u64) -> bool
    recommends
        shaped(v),
        s < 64,
{
    let p = v.pieces[s as int];
    if p.0 == 0 {
        (forall|k: int| 0 <= k < 6 ==> !bit64(#[trigger] v.bb_pieces[k], s)) && (forall|c: int|
            0 <= c < 2 ==> !bit64(#[trigger] v.bb_colors[c], s))
    } else {
        p.valid() && (forall|k: int| 0 <= k < 6 ==> (bit64(#[trigger] v.bb_pieces[k], s) <==> k
            == p.spec_kind_index())) && (forall|c: int|
            0 <= c < 2 ==> (bit64(#[trigger] v.bb_colors[c], s) <==> c
                == p.spec_color().spec_index()))
    }
}

/// The cross-index invariant of a position: the kind boards, the color
/// boards and the mailbox are three views of the same set of placed pieces.
pub open spec fn consistent(v: BoardV) -> bool {
    shaped(v) && forall|s: u64| s < 64 ==> square_consistent(v, s)
}

/// The number of occupied mailbox entries below square `n`.
pub open spec fn occupied_count(v: BoardV, n: int) -> nat
    decreases n,
{
    if n <= 0 {
        0
    } else {
        occupied_count(v, n - 1) + (if v.pieces[n - 1].0 != 0 {
            1nat
        } else {
            0nat
        })
    }
}

/// Remove whatever piece stands at square `s` from the mailbox and from its
/// kind and color boards.
pub open spec fn bv_remove_at(v: BoardV, s: u8) -> BoardV
    recommends
        shaped(v),
        s < 64,
        v.pieces[s as int].valid(),
        v.pieces[s as int].0 != 0,
{
    let p = v.pieces[s as int];
    let k = p.spec_kind_index();
    let c = p.spec_color().spec_index();
    BoardV {
        bb_pieces: v.bb_pieces.update(k, v.bb_pieces[k] & !sq_mask(s)),
        bb_colors: v.bb_colors.update(c, v.bb_colors[c] & !sq_mask(s)),
        pieces: v.pieces.update(s as int, Piece(0)),
        ..v
    }
}

/// Place piece `p` on square `s` in the mailbox and in its kind and color
/// boards.
pub open spec fn bv_place_at(v: BoardV, s: u8, p: Piece) -> BoardV
    recommends
        shaped(v),
        s < 64,
        p.valid(),
        p.0 != 0,
{
    let k = p.spec_kind_index();
    let c = p.spec_color().spec_index();
    BoardV {
        bb_pieces: v.bb_pieces.update(k, v.bb_pieces[k] | sq_mask(s)),
        bb_colors: v.bb_colors.update(c, v.bb_colors[c] | sq_mask(s)),
        pieces: v.pieces.update(s as int, p),
        ..v
    }
}

/// Clear the castling right of the corner square `s`, if `s` is one of the
/// four rook home corners.
pub open spec fn corner_rights_cleared(rights: u8, s: u8) -> u8 {
    if s == 0 {
        rights & !2
    } else if s == 7 {
        rights & !1
    } else if s == 56 {
        rights & !8
    } else if s == 63 {
        rights & !4
    } else {
        rights
    }
}

/// The rights adjustment taken from the moving piece and its source square:
/// a king move clears both of its side's rights, a rook move from a home
/// corner clears that corner's right.
pub open spec fn source_rights(rights: u8, mover: Piece, src: u8) -> u8 {
    if mover.kind() == 6 {
        if mover.color_bits() == 1 {
            rights & !3
        } else {
            rights & !12
        }
    } else if mover.kind() == 4 {
        corner_rights_cleared(rights, src)
    } else {
        rights
    }
}

/// A castling king destination: c1, g1, c8 or g8.
pub open spec fn castle_dest_ok(dest: u8) -> bool {
    dest == 6 || dest == 2 || dest == 62 || dest == 58
}

/// The home corner of the rook taking part in a castling move with king
/// destination `dest`.
pub open spec fn castle_rook_src(dest: u8) -> u8 {
    if dest == 6 {
        7
    } else if dest == 2 {
        0
    } else if dest == 62 {
        63
    } else {
        56
    }
}

/// The square the castling rook lands on.
pub open spec fn castle_rook_dest(dest: u8) -> u8 {
    if dest == 6 {
        5
    } else if dest == 2 {
        3
    } else if dest == 62 {
        61
    } else {
        59
    }
}

/// The en-passant victim square: one rank behind the capture target from
/// the mover's point of view.
pub open spec fn ep_capture_square(dest: u8, color: Color) -> u8 {
    if color.0 == 1 {
        (dest - 8) as u8
    } else {
        (dest + 8) as u8
    }
}

/// What `make_capture_move` does to the position: clear a rook victim's
/// corner right, then remove the victim from all three encodings.
pub open spec fn spec_capture_move(v: BoardV, dest: u8) -> BoardV {
    let victim = v.pieces[dest as int];
    let v1 = BoardV {
        castling_rights: if victim.kind() == 4 {
            corner_rights_cleared(v.castling_rights, dest)
        } else {
            v.castling_rights
        },
        ..v
    };
    bv_remove_at(v1, dest)
}

/// What `make_en_passant_move` does to the position: remove the victim pawn
/// one rank behind the target and clear the en-passant square.
pub open spec fn spec_en_passant_move(v: BoardV, dest: u8, color: Color) -> BoardV {
    let cap = ep_capture_square(dest, color);
    let v1 = bv_remove_at(v, cap);
    BoardV { en_passant_square: None, ..v1 }
}

/// What `make_castling_move` does to the position: relocate the rook from
/// its home corner to the square beside the king's destination, clear both
/// of the mover's rights, and clear the en-passant square.
pub open spec fn spec_castling_move(v: BoardV, dest: u8, color_index: int) -> BoardV {
    let rs = castle_rook_src(dest);
    let rd = castle_rook_dest(dest);
    let rook = v.pieces[rs as int];
    let k = rook.spec_kind_index();
    BoardV {
        bb_pieces: v.bb_pieces.update(k, (v.bb_pieces[k] & !sq_mask(rs)) | sq_mask(rd)),
        bb_colors: v.bb_colors.update(
            color_index,
            (v.bb_colors[color_index] & !sq_mask(rs)) | sq_mask(rd),
        ),
        pieces: v.pieces.update(rd as int, rook).update(rs as int, Piece(0)),
        castling_rights: if color_index == 0 {
            v.castling_rights & !3
        } else {
            v.castling_rights & !12
        },
        en_passant_square: None,
        ..v
    }
}

/// The piece kind a promotion flag promotes to: flags 4 through 7 give
/// knight, bishop, rook, queen.
pub open spec fn promotion_kind(flag: u8) -> u8
    recommends
        4 <= flag <= 7,
{
    (flag - 2) as u8
}

/// What `make_promotion_move` does to the position: capture whatever stands
/// on the destination (adjusting a rook victim's corner right), place the
/// promoted piece there, and clear the en-passant square.
pub open spec fn spec_promotion_move(v: BoardV, dest: u8, color: Color, flag: u8) -> BoardV {
    let victim = v.pieces[dest as int];
    let v1 = if victim.0 != 0 {
        spec_capture_move(v, dest)
    } else {
        v
    };
    let promoted = Piece((color.0 << 3) | promotion_kind(flag));
    let v2 = bv_place_at(v1, dest, promoted);
    BoardV { en_passant_square: None, ..v2 }
}

/// The en-passant square after a quiet move: set to the skipped square on a
/// pawn double push, cleared otherwise.
pub open spec fn quiet_ep(mover: Piece, color: Color, src: u8, dest: u8) -> Option<u8> {
    if mover.kind() == 1 {
        if color.0 == 1 {
            if src / 8 == 1 && dest / 8 == 3 {
                Some((src + 8) as u8)
            } else {
                None
            }
        } else {
            if src / 8 == 6 && dest / 8 == 4 {
                Some((src - 8) as u8)
            } else {
                None
            }
        }
    } else {
        None
    }
}

/// Place the mover on its destination and hand the turn to the other side:
/// the common tail of every non-promotion branch of the transition.
pub open spec fn bv_finish(v: BoardV, dest: u8, mover: Piece) -> BoardV {
    let v1 = bv_place_at(v, dest, mover);
    BoardV { color_to_move: v.color_to_move.spec_other(), ..v1 }
}

/// Every castling right still held points at a rook of its own color on
/// its home corner: white rooks (`Piece(12)`) on a1 and h1, black rooks
/// (`Piece(20)`) on a8 and h8.
pub open spec fn rook_rights_ok(v: BoardV) -> bool {
    (v.castling_rights & 1 != 0 ==> v.pieces[7].0 == 12) && (v.castling_rights & 2 != 0
        ==> v.pieces[0].0 == 12) && (v.castling_rights & 4 != 0 ==> v.pieces[63].0 == 20) && (
    v.castling_rights & 8 != 0 ==> v.pieces[56].0 == 20)
}

/// Every castling right still held points at the king of its color on its
/// home square: the white king (`Piece(14)`) on e1 while either white
/// right is held, the black king (`Piece(22)`) on e8 while either black
/// right is held.  Together with [`rook_rights_ok`] this is the full
/// rights invariant; it is stated apart because a pseudo-legal capture of
/// a king, possible on positions no legal game reaches, removes the king
/// without clearing the rights, so the transition preserves only the rook
/// half.
pub open spec fn castle_kings_ok(v: BoardV) -> bool {
    (v.castling_rights & 3 != 0 ==> v.pieces[4].0 == 14) && (v.castling_rights & 12 != 0
        ==> v.pieces[60].0 == 22)
}

/// The en-passant square, when set, is an empty square on the capturable
/// rank for the side to move: rank 6 when white is to move, rank 3 when
/// black is.
pub open spec fn ep_ok(v: BoardV) -> bool {
    match v.en_passant_square {
        Some(e) => e < 64 && v.pieces[e as int].0 == 0 && (v.color_to_move.0 == 1 ==> e / 8
            == 5) && (v.color_to_move.0 == 2 ==> e / 8 == 2),
        None => true,
    }
}

/// A position the move generator and the transition can be trusted on: the
/// three encodings agree, the side to move is a real side, held castling
/// rights have their rooks at home, and the en-passant square is sound.
pub open spec fn position_ok(v: BoardV) -> bool {
    consistent(v) && v.color_to_move.valid() && rook_rights_ok(v) && ep_ok(v)
}

/// The shape every move emitted by the generator has, stated against the
/// position it is generated for.  These are the facts the preservation
/// proofs rest on: the mover belongs to the side to move, a quiet move goes
/// to an empty square (and a double push also skipped an empty square), a
/// capture finds a victim, an en-passant capture has its geometry and its
/// victim, a castling move finds the rook of the right color and empty
/// squares, and a promotion does not stand still.
pub open spec fn move_sane(v: BoardV, m: Move) -> bool {
    let src = mv_source(m);
    let dest = mv_dest(m);
    let flag = mv_flag(m);
    let mover = v.pieces[src as int];
    let color = mover.spec_color();
    mover.0 != 0 && color == v.color_to_move && v.color_to_move.valid() && flag <= 7 && (flag
        == 0 ==> src != dest && v.pieces[dest as int].0 == 0 && (mover.kind() == 1 && color.0
        == 1 && src / 8 == 1 && dest / 8 == 3 ==> dest == src + 16 && v.pieces[(src
        + 8) as int].0 == 0) && (mover.kind() == 1 && color.0 == 2 && src / 8 == 6 && dest / 8
        == 4 ==> dest + 16 == src && v.pieces[(src - 8) as int].0 == 0)) && (flag == 1 ==> src
        != dest && v.pieces[dest as int].0 != 0) && (flag == 2 ==> (color.0 == 1 ==> dest / 8
        == 5 && (src + 9 == dest || src + 7 == dest)) && (color.0 == 2 ==> dest / 8 == 2 && (src
        == dest + 9 || src == dest + 7)) && v.pieces[dest as int].0 == 0 && v.pieces[
    ep_capture_square(dest, color) as int].0 != 0) && (flag == 3 ==> castle_dest_ok(dest) && (
    dest < 8 <==> color.0 == 1) && src == (if dest < 8 {
        4u8
    } else {
        60u8
    }) && v.pieces[dest as int].0 == 0 && v.pieces[castle_rook_dest(dest) as int].0 == 0
        && v.pieces[castle_rook_src(dest) as int].0 != 0 && v.pieces[castle_rook_src(
        dest,
    ) as int].spec_color() == color) && (4 <= flag ==> src != dest)
}

/// The inputs on which the executable transition is defined at all: the
/// mailbox holds well-formed pieces, a castling move names one of the four
/// king destinations and finds a piece on the rook's home corner, and an
/// en-passant destination leaves room for the victim square one rank behind
/// it.  Outside these, the transition would fail an array access or an
/// arithmetic bound rather than return an error.
pub open spec fn make_move_safe(v: BoardV, m: Move) -> bool {
    let src = mv_source(m);
    let dest = mv_dest(m);
    let flag = mv_flag(m);
    let mover_ok = v.pieces[src as int].0 != 0 && v.pieces[src as int].spec_color()
        == v.color_to_move;
    mailbox_ok(v) && (flag == 3 && mover_ok ==> castle_dest_ok(dest) && castle_rook_src(dest)
        != src && v.pieces[castle_rook_src(dest) as int].0 != 0) && (flag == 2 && mover_ok ==> ((
    v.pieces[src as int].color_bits() == 1 ==> dest >= 8) && (v.pieces[src as int].color_bits()
        == 2 ==> dest <= 55)))
}

/// The complete position transition, mirroring the procedure of
/// `Board::make_move`: check the mover, lift it from the source, adjust
/// rights from the source square, dispatch on the move flag, place the moved
/// or promoted piece, and flip the side to move.  Errors are reported
/// exactly where the executable transition reports them.
pub open spec fn spec_make_move(v: BoardV, m: Move) -> Result<BoardV, MakeMoveError> {
    let src = mv_source(m);
    let dest = mv_dest(m);
    let flag = mv_flag(m);
    let mover = v.pieces[src as int];
    if mover.0 == 0 || mover.spec_color() != v.color_to_move {
        Err(MakeMoveError::InvalidPieceColor)
    } else {
        let color = mover.spec_color();
        let lifted = bv_remove_at(v, src);
        let v1 = BoardV {
            castling_rights: source_rights(lifted.castling_rights, mover, src),
            ..lifted
        };
        if flag == 1 {
            if v1.pieces[dest as int].0 == 0 {
                Err(MakeMoveError::NoCaptureVictim)
            } else {
                let v2 = spec_capture_move(v1, dest);
                let v3 = BoardV { en_passant_square: None, ..v2 };
                Ok(bv_finish(v3, dest, mover))
            }
        } else if flag == 2 {
            if v1.pieces[ep_capture_square(dest, color) as int].0 == 0 {
                Err(MakeMoveError::NoCaptureVictim)
            } else {
                let v2 = spec_en_passant_move(v1, dest, color);
                Ok(bv_finish(v2, dest, mover))
            }
        } else if flag == 3 {
            let v2 = spec_castling_move(v1, dest, color.spec_index());
            Ok(bv_finish(v2, dest, mover))
        } else if 4 <= flag && flag <= 7 {
            let v2 = spec_promotion_move(v1, dest, color, flag);
            Ok(BoardV { color_to_move: color.spec_other(), ..v2 })
        } else if flag == 0 {
            let v2 = BoardV { en_passant_square: quiet_ep(mover, color, src, dest), ..v1 };
            Ok(bv_finish(v2, dest, mover))
        } else {
            Err(MakeMoveError::UnhandledMoveFlag(crate::game::game_move::MoveFlag(flag)))
        }
    }
}

} // verus!
