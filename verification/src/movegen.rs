pub mod attack_tables;
pub mod laws;
pub mod model;

use crate::board::bitboard::{
    bit64, lemma_bit_ops, lemma_step_bits, spec_step, Bitboard, Direction,
};
use crate::board::defs::Square;
use crate::board::model::{move_sane, position_ok, spec_make_move, sq_mask};
use crate::board::Board;
use crate::color::Color;
use crate::game::game_move::{Move, MoveFlag};
use crate::movegen::attack_tables::AttackTables;
use crate::movegen::laws::{all_ok, gen_move_ok, lemma_legal_sound, lemma_pseudo_legal_sound};
use crate::movegen::model::{
    spec_append_moves, spec_attacked, spec_bishop_attacks, spec_bishop_section,
    spec_castle_moves, spec_enemy, spec_in_check, spec_king_section, spec_knight_section,
    spec_occ, spec_own, spec_pawn_caps, spec_pawn_ep, spec_pawn_moves_from, spec_pawn_push,
    spec_pawn_section, spec_promo_seq, spec_pseudo_legal, spec_queen_section,
    spec_rook_attacks, spec_rook_section, spec_walk, keep_move, spec_filter_legal, spec_legal,
    spec_perft, spec_perft_sum,
};
use vstd::prelude::*;

verus! {

/// What the generator needs of a position before it can run at all: a real
/// side to move, and an en-passant square on the board.
pub open spec fn gen_safe(v: crate::board::model::BoardV) -> bool {
    v.color_to_move.valid() && (match v.en_passant_square {
        Some(e) => e < 64,
        None => true,
    })
}

/// One masked one-step of a square set in a compass direction.
fn step_one(b: u64, dir: Direction) -> (r: u64)
    ensures
        r == spec_step(b, dir.0),
{
    if dir.0 == 8 {
        b << 8
    } else if dir.0 == -8 {
        b >> 8
    } else if dir.0 == 9 {
        (b << 9) & Bitboard::NOT_A_FILE
    } else if dir.0 == 7 {
        (b << 7) & Bitboard::NOT_H_FILE
    } else if dir.0 == -7 {
        (b >> 7) & Bitboard::NOT_A_FILE
    } else if dir.0 == -9 {
        (b >> 9) & Bitboard::NOT_H_FILE
    } else if dir.0 == 1 {
        (b << 1) & Bitboard::NOT_A_FILE
    } else if dir.0 == -1 {
        (b >> 1) & Bitboard::NOT_H_FILE
    } else {
        0
    }
}

/// Walk one ray from a starting square set: repeat the one-step, gathering
/// squares, until the edge of the board or just past the first blocker.
fn ray(start: u64, occ: u64, dir: Direction) -> (r: u64)
    ensures
        r == spec_walk(start, occ, dir.0, 7),
{
    let mut attacks: u64 = 0;
    let mut b = start;
    let mut fuel: u8 = 7;
    let mut done = false;
    proof {
        lemma_bit_ops();
        assert(0u64 | spec_walk(start, occ, dir.0, 7) == spec_walk(start, occ, dir.0, 7));
    }
    while !done && fuel > 0
        invariant
            fuel <= 7,
            done ==> attacks == spec_walk(start, occ, dir.0, 7),
            !done ==> attacks | spec_walk(b, occ, dir.0, fuel as nat) == spec_walk(
                start,
                occ,
                dir.0,
                7,
            ),
        decreases (if done {
            0int
        } else {
            fuel + 1
        }),
    {
        let ghost fuel0 = fuel;
        let ghost b0 = b;
        let ghost att0 = attacks;
        let n = step_one(b, dir);
        proof {
            lemma_bit_ops();
            assert(spec_walk(b0, occ, dir.0, fuel0 as nat) == (if n == 0 {
                0u64
            } else if n & occ != 0 {
                n
            } else {
                n | spec_walk(n, occ, dir.0, (fuel0 - 1) as nat)
            }));
        }
        if n == 0 {
            proof {
                assert(att0 | 0u64 == att0);
            }
            done = true;
        } else if n & occ != 0 {
            attacks = attacks | n;
            done = true;
        } else {
            attacks = attacks | n;
            b = n;
            fuel = fuel - 1;
            proof {
                assert((att0 | n) | spec_walk(n, occ, dir.0, (fuel0 - 1) as nat) == att0 | (n
                    | spec_walk(n, occ, dir.0, (fuel0 - 1) as nat)));
            }
        }
    }
    proof {
        if !done {
            lemma_bit_ops();
            assert(attacks | spec_walk(b, occ, dir.0, 0nat) == attacks);
        }
    }
    attacks
}

/// Whether `attacker` attacks square `sq` on `board`: a pawn, knight or
/// king of that color on an attacking square, or a rook-like or
/// bishop-like piece reaching it along an unblocked ray.
fn attacked_on(tables: &AttackTables, board: &Board, sq: Square, attacker: Color) -> (r: bool)
    requires
        sq.0 < 64,
        attacker.valid(),
    ensures
        r == spec_attacked(board@, sq.0, attacker),
{
    let attackers_bb = board.color_bb(attacker.index());
    let occupied = board.all_occupied();
    let pawn_attacks = tables.pawn(sq, attacker.not());
    if (pawn_attacks.0 & board.piece_bb(0).0 & attackers_bb.0) != 0 {
        return true;
    }
    if (tables.knight(sq).0 & board.piece_bb(1).0 & attackers_bb.0) != 0 {
        return true;
    }
    if (tables.king(sq).0 & board.piece_bb(5).0 & attackers_bb.0) != 0 {
        return true;
    }
    let rook_like = board.piece_bb(3).0 | board.piece_bb(4).0;
    let m = Bitboard::square_mask(sq).0;
    let rook_attacks = ((ray(m, occupied.0, Direction::north()) | ray(
        m,
        occupied.0,
        Direction::south(),
    )) | ray(m, occupied.0, Direction::east())) | ray(m, occupied.0, Direction::west());
    if (rook_attacks & rook_like & attackers_bb.0) != 0 {
        return true;
    }
    let bishop_like = board.piece_bb(2).0 | board.piece_bb(4).0;
    let bishop_attacks = ((ray(m, occupied.0, Direction::north_east()) | ray(
        m,
        occupied.0,
        Direction::north_west(),
    )) | ray(m, occupied.0, Direction::south_east())) | ray(
        m,
        occupied.0,
        Direction::south_west(),
    );
    if (bishop_attacks & bishop_like & attackers_bb.0) != 0 {
        return true;
    }
    false
}

/// Whether `color`'s king on `board` is attacked by the other side; false
/// when that side has no king.
fn check_on(tables: &AttackTables, board: &Board, color: Color) -> (r: bool)
    requires
        color.valid(),
    ensures
        r == spec_in_check(board@, color),
{
    let king_bb = Bitboard(board.piece_bb(5).0 & board.color_bb(color.index()).0);
    let king_sq_idx = match king_bb.lsb() {
        Some(idx) => idx,
        None => {
            return false;
        },
    };
    attacked_on(tables, board, Square(king_sq_idx), color.not())
}

/// A move-generation context: a position together with the precomputed
/// leaper attack tables.
pub struct Movegen {
    pub board: Board,
    pub tables: AttackTables,
}

impl Movegen {
    /// Bind a move-generation context to a position.
    pub fn new(board: Board) -> (r: Movegen)
        ensures
            r.board == board,
    {
        Movegen { board, tables: AttackTables::new() }
    }

    /// The bishop attack set from `sq` with `occ` as blockers: the four
    /// diagonal rays.
    fn get_bishop_attacks(&self, sq: Square, occ: Bitboard) -> (r: Bitboard)
        requires
            sq.0 < 64,
        ensures
            r.0 == spec_bishop_attacks(sq.0, occ.0),
    {
        let m = Bitboard::square_mask(sq).0;
        let a = ray(m, occ.0, Direction::north_east());
        let b = ray(m, occ.0, Direction::north_west());
        let c = ray(m, occ.0, Direction::south_east());
        let d = ray(m, occ.0, Direction::south_west());
        Bitboard(((a | b) | c) | d)
    }

    /// The rook attack set from `sq` with `occ` as blockers: the four
    /// orthogonal rays.
    fn get_rook_attacks(&self, sq: Square, occ: Bitboard) -> (r: Bitboard)
        requires
            sq.0 < 64,
        ensures
            r.0 == spec_rook_attacks(sq.0, occ.0),
    {
        let m = Bitboard::square_mask(sq).0;
        let a = ray(m, occ.0, Direction::north());
        let b = ray(m, occ.0, Direction::south());
        let c = ray(m, occ.0, Direction::east());
        let d = ray(m, occ.0, Direction::west());
        Bitboard(((a | b) | c) | d)
    }

    /// Whether the given side attacks the given square in this position.
    pub fn is_square_attacked(&self, sq: Square, attacker: Color) -> (r: bool)
        requires
            sq.0 < 64,
            attacker.valid(),
        ensures
            r == spec_attacked(self.board@, sq.0, attacker),
    {
        attacked_on(&self.tables, &self.board, sq, attacker)
    }

    /// Whether the given side's king is attacked by the other side; false
    /// when that side has no king on the board.
    pub fn is_in_check(&self, color: Color) -> (r: bool)
        requires
            color.valid(),
        ensures
            r == spec_in_check(self.board@, color),
    {
        check_on(&self.tables, &self.board, color)
    }

    /// Emit one move from `src` to every destination in `attacks`, flagged
    /// a capture exactly when the destination meets `enemies`.
    #[inline]
    fn append_moves(&self, moves: &mut Vec<Move>, src: Square, attacks: Bitboard, enemies: Bitboard)
        requires
            src.0 < 64,
        ensures
            final(moves)@ == old(moves)@ + spec_append_moves(src.0, attacks.0, enemies.0),
    {
        let mut att = attacks;
        proof {
            assert(moves@ + spec_append_moves(src.0, att.0, enemies.0) =~= old(moves)@
                + spec_append_moves(src.0, attacks.0, enemies.0));
        }
        loop
            invariant
                src.0 < 64,
                moves@ + spec_append_moves(src.0, att.0, enemies.0) == old(moves)@
                    + spec_append_moves(src.0, attacks.0, enemies.0),
            ensures
                att.0 == 0,
                moves@ + spec_append_moves(src.0, att.0, enemies.0) == old(moves)@
                    + spec_append_moves(src.0, attacks.0, enemies.0),
            decreases att.0,
        {
            let ghost pre = att.0;
            let dest_idx = match att.pop_lsb() {
                Some(d) => d,
                None => {
                    break ;
                },
            };
            let dest = Square(dest_idx);
            proof {
                crate::board::bitboard::lemma_clear_lsb_lt(pre);
                lemma_bit_ops();
            }
            let is_capture = (Bitboard::square_mask(dest).0 & enemies.0) != 0;
            let flag = if is_capture {
                MoveFlag(1)
            } else {
                MoveFlag(0)
            };
            moves.push(Move::new(flag, src, dest));
            proof {
                assert(moves@ + spec_append_moves(src.0, att.0, enemies.0) =~= old(moves)@
                    + spec_append_moves(src.0, attacks.0, enemies.0));
            }
        }
        proof {
            assert(moves@ =~= old(moves)@ + spec_append_moves(src.0, attacks.0, enemies.0));
        }
    }

    /// Emit the castling moves available to the given side: a kingside and
    /// a queenside castle, each gated on the right being held, the squares
    /// between king and rook being empty, and the king's origin, path and
    /// destination being unattacked.
    #[inline]
    fn gen_castling_moves(&self, moves: &mut Vec<Move>, color: Color)
        requires
            color.valid(),
            color == self.board@.color_to_move,
        ensures
            final(moves)@ == old(moves)@ + spec_castle_moves(self.board@),
    {
        if color.0 == 1 {
            if (self.board.castling_rights.0 & 1) != 0 {
                if !self.board.is_square_occupied(Square(5)) && !self.board.is_square_occupied(
                    Square(6),
                ) && !self.is_square_attacked(Square(4), Color(2)) && !self.is_square_attacked(
                    Square(5),
                    Color(2),
                ) && !self.is_square_attacked(Square(6), Color(2)) {
                    moves.push(Move::new(MoveFlag(3), Square(4), Square(6)));
                }
            }
            if (self.board.castling_rights.0 & 2) != 0 {
                if !self.board.is_square_occupied(Square(3)) && !self.board.is_square_occupied(
                    Square(2),
                ) && !self.board.is_square_occupied(Square(1)) && !self.is_square_attacked(
                    Square(4),
                    Color(2),
                ) && !self.is_square_attacked(Square(3), Color(2)) && !self.is_square_attacked(
                    Square(2),
                    Color(2),
                ) {
                    moves.push(Move::new(MoveFlag(3), Square(4), Square(2)));
                }
            }
        } else {
            if (self.board.castling_rights.0 & 4) != 0 {
                if !self.board.is_square_occupied(Square(61)) && !self.board.is_square_occupied(
                    Square(62),
                ) && !self.is_square_attacked(Square(60), Color(1)) && !self.is_square_attacked(
                    Square(61),
                    Color(1),
                ) && !self.is_square_attacked(Square(62), Color(1)) {
                    moves.push(Move::new(MoveFlag(3), Square(60), Square(62)));
                }
            }
            if (self.board.castling_rights.0 & 8) != 0 {
                if !self.board.is_square_occupied(Square(59)) && !self.board.is_square_occupied(
                    Square(58),
                ) && !self.board.is_square_occupied(Square(57)) && !self.is_square_attacked(
                    Square(60),
                    Color(1),
                ) && !self.is_square_attacked(Square(59), Color(1)) && !self.is_square_attacked(
                    Square(58),
                    Color(1),
                ) {
                    moves.push(Move::new(MoveFlag(3), Square(60), Square(58)));
                }
            }
        }
        proof {
            assert(moves@ =~= old(moves)@ + spec_castle_moves(self.board@));
        }
    }

    /// Emit every move of the pawn on `src`: its pushes, its captures, and
    /// its en-passant capture.
    fn gen_pawn_moves_from(
        &self,
        moves: &mut Vec<Move>,
        src: Square,
        occupied: Bitboard,
        enemy: Bitboard,
        color: Color,
    )
        requires
            src.0 < 64,
            color.valid(),
            color == self.board@.color_to_move,
            occupied.0 == spec_occ(self.board@),
            enemy.0 == spec_enemy(self.board@),
            gen_safe(self.board@),
        ensures
            final(moves)@ == old(moves)@ + spec_pawn_moves_from(self.board@, src.0, color.0 == 1),
    {
        let ghost v = self.board@;
        let ghost white = color.0 == 1;
        let src_mask = Bitboard::square_mask(src);
        let empty_bb = Bitboard(!occupied.0);
        if color.0 == 1 {
            let one = src_mask.north_one();
            if one.0 != 0 && (one.0 & empty_bb.0) != 0 {
                let dest_idx = match one.lsb() {
                    Some(d) => d,
                    None => 0,
                };
                let dest = Square(dest_idx);
                if dest.0 / 8 == 7 {
                    push_promotions(moves, src, dest);
                } else {
                    moves.push(Move::new(MoveFlag(0), src, dest));
                    if (src_mask.0 & 0xFF00u64) != 0 {
                        let two = one.north_one();
                        if two.0 != 0 && (two.0 & empty_bb.0) != 0 {
                            let dest2_idx = match two.lsb() {
                                Some(d) => d,
                                None => 0,
                            };
                            moves.push(Move::new(MoveFlag(0), src, Square(dest2_idx)));
                        }
                    }
                }
            }
        } else {
            let one = src_mask.south_one();
            if one.0 != 0 && (one.0 & empty_bb.0) != 0 {
                let dest_idx = match one.lsb() {
                    Some(d) => d,
                    None => 0,
                };
                let dest = Square(dest_idx);
                if dest.0 / 8 == 0 {
                    push_promotions(moves, src, dest);
                } else {
                    moves.push(Move::new(MoveFlag(0), src, dest));
                    if (src_mask.0 & 0xFF000000000000u64) != 0 {
                        let two = one.south_one();
                        if two.0 != 0 && (two.0 & empty_bb.0) != 0 {
                            let dest2_idx = match two.lsb() {
                                Some(d) => d,
                                None => 0,
                            };
                            moves.push(Move::new(MoveFlag(0), src, Square(dest2_idx)));
                        }
                    }
                }
            }
        }
        proof {
            assert(moves@ =~= old(moves)@ + spec_pawn_push(v, src.0, white));
        }
        let ghost after_push = moves@;
        let caps0 = if color.0 == 1 {
            Bitboard((src_mask.north_east_one().0 | src_mask.north_west_one().0) & enemy.0)
        } else {
            Bitboard((src_mask.south_east_one().0 | src_mask.south_west_one().0) & enemy.0)
        };
        let mut caps = caps0;
        loop
            invariant
                src.0 < 64,
                white == (color.0 == 1),
                moves@ + spec_pawn_caps(src.0, caps.0, white) == after_push + spec_pawn_caps(
                    src.0,
                    caps0.0,
                    white,
                ),
            ensures
                caps.0 == 0,
                moves@ + spec_pawn_caps(src.0, caps.0, white) == after_push + spec_pawn_caps(
                    src.0,
                    caps0.0,
                    white,
                ),
            decreases caps.0,
        {
            let ghost pre = caps.0;
            let dest_idx = match caps.pop_lsb() {
                Some(d) => d,
                None => {
                    break ;
                },
            };
            let dest = Square(dest_idx);
            proof {
                crate::board::bitboard::lemma_clear_lsb_lt(pre);
            }
            let last_rank = if color.0 == 1 {
                dest.0 / 8 == 7
            } else {
                dest.0 / 8 == 0
            };
            if last_rank {
                push_promotions(moves, src, dest);
            } else {
                moves.push(Move::new(MoveFlag(1), src, dest));
            }
            proof {
                assert(moves@ + spec_pawn_caps(src.0, caps.0, white) =~= after_push
                    + spec_pawn_caps(src.0, caps0.0, white));
            }
        }
        proof {
            assert(moves@ =~= after_push + spec_pawn_caps(src.0, caps0.0, white));
        }
        let ghost after_caps = moves@;
        match self.board.en_passant_square {
            Some(ep_sq) => {
                let ep_mask = Bitboard::square_mask(ep_sq);
                let hit = if color.0 == 1 {
                    (src_mask.north_east_one().0 & ep_mask.0) != 0 || (
                    src_mask.north_west_one().0 & ep_mask.0) != 0
                } else {
                    (src_mask.south_east_one().0 & ep_mask.0) != 0 || (
                    src_mask.south_west_one().0 & ep_mask.0) != 0
                };
                if hit {
                    proof {
                        lemma_bit_ops();
                        lemma_step_bits();
                        if white {
                            assert(bit64(spec_step(src_mask.0, 9), ep_sq.0 as u64) || bit64(
                                spec_step(src_mask.0, 7),
                                ep_sq.0 as u64,
                            ));
                        } else {
                            assert(bit64(spec_step(src_mask.0, -7i8), ep_sq.0 as u64) || bit64(
                                spec_step(src_mask.0, -9i8),
                                ep_sq.0 as u64,
                            ));
                        }
                    }
                    let capture_sq = if color.0 == 1 {
                        Square(ep_sq.0 - 8)
                    } else {
                        Square(ep_sq.0 + 8)
                    };
                    let cap_mask = Bitboard::square_mask(capture_sq);
                    if (cap_mask.0 & self.board.piece_bb(0).0 & enemy.0) != 0 {
                        moves.push(Move::new(MoveFlag(2), src, ep_sq));
                    }
                }
            },
            None => {},
        }
        proof {
            assert(moves@ =~= after_caps + spec_pawn_ep(v, src.0, white));
            assert(moves@ =~= old(moves)@ + spec_pawn_moves_from(v, src.0, white));
        }
    }

    /// Emit the moves of every pawn of the given side, in ascending square
    /// order.
    fn gen_pawn_moves(&self, moves: &mut Vec<Move>, occupied: Bitboard, enemy: Bitboard, color: Color)
        requires
            color.valid(),
            color == self.board@.color_to_move,
            occupied.0 == spec_occ(self.board@),
            enemy.0 == spec_enemy(self.board@),
            gen_safe(self.board@),
        ensures
            final(moves)@ == old(moves)@ + spec_pawn_section(
                self.board@,
                self.board@.bb_pieces[0] & spec_own(self.board@),
                color.0 == 1,
            ),
    {
        let ghost v = self.board@;
        let ghost white = color.0 == 1;
        let pawns0 = Bitboard(self.board.piece_bb(0).0 & self.board.color_bb(color.index()).0);
        let mut pawns = pawns0;
        if pawns.0 == 0 {
            proof {
                assert(moves@ =~= old(moves)@ + spec_pawn_section(v, pawns0.0, white));
            }
            return ;
        }
        loop
            invariant
                color.valid(),
                color == self.board@.color_to_move,
                occupied.0 == spec_occ(self.board@),
                enemy.0 == spec_enemy(self.board@),
                gen_safe(self.board@),
                white == (color.0 == 1),
                v == self.board@,
                moves@ + spec_pawn_section(v, pawns.0, white) == old(moves)@ + spec_pawn_section(
                    v,
                    pawns0.0,
                    white,
                ),
            ensures
                pawns.0 == 0,
                moves@ + spec_pawn_section(v, pawns.0, white) == old(moves)@ + spec_pawn_section(
                    v,
                    pawns0.0,
                    white,
                ),
            decreases pawns.0,
        {
            let ghost pre = pawns.0;
            let src_idx = match pawns.pop_lsb() {
                Some(s) => s,
                None => {
                    break ;
                },
            };
            let src = Square(src_idx);
            proof {
                crate::board::bitboard::lemma_clear_lsb_lt(pre);
            }
            self.gen_pawn_moves_from(moves, src, occupied, enemy, color);
            proof {
                assert(moves@ + spec_pawn_section(v, pawns.0, white) =~= old(moves)@
                    + spec_pawn_section(v, pawns0.0, white));
            }
        }
        proof {
            assert(moves@ =~= old(moves)@ + spec_pawn_section(v, pawns0.0, white));
        }
    }

    /// Every pseudo-legal move of the position: all moves that obey piece
    /// movement rules, which may still leave the moving side's king in
    /// check.
    pub fn pseudo_legal(&self) -> (r: Vec<Move>)
        requires
            gen_safe(self.board@),
        ensures
            r@ == spec_pseudo_legal(self.board@),
    {
        let ghost v = self.board@;
        let mut moves: Vec<Move> = Vec::new();
        let color = self.board.color_to_move;
        let own_pieces = self.board.color_bb(color.index());
        let occupied = self.board.all_occupied();
        let enemy_pieces = Bitboard(occupied.0 ^ own_pieces.0);
        self.gen_pawn_moves(&mut moves, occupied, enemy_pieces, color);
        let ghost after_pawns = moves@;
        let knights0 = Bitboard(self.board.piece_bb(1).0 & own_pieces.0);
        let mut our_knights = knights0;
        loop
            invariant
                own_pieces.0 == spec_own(self.board@),
                enemy_pieces.0 == spec_enemy(self.board@),
                v == self.board@,
                moves@ + spec_knight_section(v, our_knights.0) == after_pawns
                    + spec_knight_section(v, knights0.0),
            ensures
                our_knights.0 == 0,
                moves@ + spec_knight_section(v, our_knights.0) == after_pawns
                    + spec_knight_section(v, knights0.0),
            decreases our_knights.0,
        {
            let ghost pre = our_knights.0;
            let sq_idx = match our_knights.pop_lsb() {
                Some(s) => s,
                None => {
                    break ;
                },
            };
            let sq = Square(sq_idx);
            proof {
                crate::board::bitboard::lemma_clear_lsb_lt(pre);
            }
            let attacks = Bitboard(self.tables.knight(sq).0 & !own_pieces.0);
            self.append_moves(&mut moves, sq, attacks, enemy_pieces);
            proof {
                assert(moves@ + spec_knight_section(v, our_knights.0) =~= after_pawns
                    + spec_knight_section(v, knights0.0));
            }
        }
        let ghost after_knights = moves@;
        let mut our_kings = Bitboard(self.board.piece_bb(5).0 & own_pieces.0);
        let ghost kings0 = our_kings.0;
        match our_kings.pop_lsb() {
            Some(sq_idx) => {
                let sq = Square(sq_idx);
                let attacks = Bitboard(self.tables.king(sq).0 & !own_pieces.0);
                self.append_moves(&mut moves, sq, attacks, enemy_pieces);
            },
            None => {},
        }
        proof {
            assert(moves@ =~= after_knights + spec_king_section(v, kings0));
        }
        let ghost after_kings = moves@;
        let bishops0 = Bitboard(self.board.piece_bb(2).0 & own_pieces.0);
        let mut our_bishops = bishops0;
        loop
            invariant
                own_pieces.0 == spec_own(self.board@),
                enemy_pieces.0 == spec_enemy(self.board@),
                occupied.0 == spec_occ(self.board@),
                v == self.board@,
                moves@ + spec_bishop_section(v, our_bishops.0) == after_kings
                    + spec_bishop_section(v, bishops0.0),
            ensures
                our_bishops.0 == 0,
                moves@ + spec_bishop_section(v, our_bishops.0) == after_kings
                    + spec_bishop_section(v, bishops0.0),
            decreases our_bishops.0,
        {
            let ghost pre = our_bishops.0;
            let sq_idx = match our_bishops.pop_lsb() {
                Some(s) => s,
                None => {
                    break ;
                },
            };
            let sq = Square(sq_idx);
            proof {
                crate::board::bitboard::lemma_clear_lsb_lt(pre);
            }
            let attacks = Bitboard(self.get_bishop_attacks(sq, occupied).0 & !own_pieces.0);
            self.append_moves(&mut moves, sq, attacks, enemy_pieces);
            proof {
                assert(moves@ + spec_bishop_section(v, our_bishops.0) =~= after_kings
                    + spec_bishop_section(v, bishops0.0));
            }
        }
        let ghost after_bishops = moves@;
        let rooks0 = Bitboard(self.board.piece_bb(3).0 & own_pieces.0);
        let mut our_rooks = rooks0;
        loop
            invariant
                own_pieces.0 == spec_own(self.board@),
                enemy_pieces.0 == spec_enemy(self.board@),
                occupied.0 == spec_occ(self.board@),
                v == self.board@,
                moves@ + spec_rook_section(v, our_rooks.0) == after_bishops + spec_rook_section(
                    v,
                    rooks0.0,
                ),
            ensures
                our_rooks.0 == 0,
                moves@ + spec_rook_section(v, our_rooks.0) == after_bishops + spec_rook_section(
                    v,
                    rooks0.0,
                ),
            decreases our_rooks.0,
        {
            let ghost pre = our_rooks.0;
            let sq_idx = match our_rooks.pop_lsb() {
                Some(s) => s,
                None => {
                    break ;
                },
            };
            let sq = Square(sq_idx);
            proof {
                crate::board::bitboard::lemma_clear_lsb_lt(pre);
            }
            let attacks = Bitboard(self.get_rook_attacks(sq, occupied).0 & !own_pieces.0);
            self.append_moves(&mut moves, sq, attacks, enemy_pieces);
            proof {
                assert(moves@ + spec_rook_section(v, our_rooks.0) =~= after_bishops
                    + spec_rook_section(v, rooks0.0));
            }
        }
        let ghost after_rooks = moves@;
        let queens0 = Bitboard(self.board.piece_bb(4).0 & own_pieces.0);
        let mut our_queens = queens0;
        loop
            invariant
                own_pieces.0 == spec_own(self.board@),
                enemy_pieces.0 == spec_enemy(self.board@),
                occupied.0 == spec_occ(self.board@),
                v == self.board@,
                moves@ + spec_queen_section(v, our_queens.0) == after_rooks + spec_queen_section(
                    v,
                    queens0.0,
                ),
            ensures
                our_queens.0 == 0,
                moves@ + spec_queen_section(v, our_queens.0) == after_rooks + spec_queen_section(
                    v,
                    queens0.0,
                ),
            decreases our_queens.0,
        {
            let ghost pre = our_queens.0;
            let sq_idx = match our_queens.pop_lsb() {
                Some(s) => s,
                None => {
                    break ;
                },
            };
            let sq = Square(sq_idx);
            proof {
                crate::board::bitboard::lemma_clear_lsb_lt(pre);
            }
            let attacks = Bitboard((self.get_bishop_attacks(sq, occupied).0 | self.get_rook_attacks(
                sq,
                occupied,
            ).0) & !own_pieces.0);
            self.append_moves(&mut moves, sq, attacks, enemy_pieces);
            proof {
                assert(moves@ + spec_queen_section(v, our_queens.0) =~= after_rooks
                    + spec_queen_section(v, queens0.0));
            }
        }
        self.gen_castling_moves(&mut moves, color);
        proof {
            assert(moves@ =~= spec_pseudo_legal(v));
        }
        moves
    }

    /// Every legal move of the position: the pseudo-legal moves that,
    /// applied to a clone, do not leave the moving side's king in check.
    pub fn legal(&self) -> (r: Vec<Move>)
        requires
            position_ok(self.board@),
        ensures
            r@ == spec_legal(self.board@),
    {
        let ghost v = self.board@;
        proof {
            lemma_pseudo_legal_sound(v);
        }
        let candidates = self.pseudo_legal();
        let mut legal_moves: Vec<Move> = Vec::new();
        let us = self.board.color_to_move;
        let mut i: usize = 0;
        proof {
            assert(candidates@.skip(0) =~= candidates@);
            assert(legal_moves@ + spec_filter_legal(v, candidates@) =~= spec_filter_legal(
                v,
                candidates@,
            ));
        }
        while i < candidates.len()
            invariant
                v == self.board@,
                position_ok(v),
                us == v.color_to_move,
                candidates@ == spec_pseudo_legal(v),
                all_ok(v, candidates@),
                i <= candidates@.len(),
                legal_moves@ + spec_filter_legal(v, candidates@.skip(i as int))
                    == spec_filter_legal(v, candidates@),
            decreases candidates@.len() - i,
        {
            let mv = candidates[i];
            proof {
                assert(gen_move_ok(v, candidates@[i as int]));
            }
            let mut next_board = self.board;
            let keep = match next_board.make_move(mv) {
                Ok(u) => !check_on(&self.tables, &next_board, us),
                Err(_) => false,
            };
            if keep {
                legal_moves.push(mv);
            }
            proof {
                assert(keep == keep_move(v, mv));
                assert(candidates@.skip(i as int).drop_first() =~= candidates@.skip(
                    i as int + 1,
                ));
                assert(candidates@.skip(i as int)[0] == candidates@[i as int]);
                assert(legal_moves@ + spec_filter_legal(v, candidates@.skip(i as int + 1)) =~= (
                spec_filter_legal(v, candidates@)));
            }
            i = i + 1;
        }
        proof {
            assert(candidates@.skip(candidates@.len() as int) =~= Seq::<Move>::empty());
            assert(legal_moves@ =~= spec_legal(v));
        }
        legal_moves
    }

    /// The perft node count of the position to the given depth: one node at
    /// depth zero, the number of legal moves at depth one, and otherwise
    /// the sum over every legal move of the count one level deeper.
    pub fn perft(&self, depth: u8) -> (r: u64)
        requires
            position_ok(self.board@),
            spec_perft(self.board@, depth) <= u64::MAX,
        ensures
            r == spec_perft(self.board@, depth),
        decreases depth,
    {
        let ghost v = self.board@;
        if depth == 0 {
            return 1;
        }
        proof {
            lemma_legal_sound(v);
        }
        let moves = self.legal();
        if depth == 1 {
            return moves.len() as u64;
        }
        let mut nodes: u64 = 0;
        let mut i: usize = 0;
        proof {
            assert(moves@.skip(0) =~= moves@);
        }
        while i < moves.len()
            invariant
                v == self.board@,
                position_ok(v),
                2 <= depth,
                moves@ == spec_legal(v),
                all_ok(v, moves@),
                forall|j: int| 0 <= j < moves@.len() ==> keep_move(v, #[trigger] moves@[j]),
                forall|j: int|
                    0 <= j < moves@.len() ==> move_sane(v, #[trigger] moves@[j])
                        && spec_make_move(v, moves@[j]) is Ok && position_ok(
                        spec_make_move(v, moves@[j])->Ok_0,
                    ),
                i <= moves@.len(),
                nodes + spec_perft_sum(v, moves@.skip(i as int), depth) == spec_perft(v, depth),
                spec_perft(v, depth) <= u64::MAX,
            decreases moves@.len() - i,
        {
            let mv = moves[i];
            proof {
                assert(gen_move_ok(v, moves@[i as int]));
                assert(moves@.skip(i as int)[0] == moves@[i as int]);
                assert(moves@.skip(i as int).drop_first() =~= moves@.skip(i as int + 1));
            }
            let mut next_board = self.board;
            let ok = next_board.make_move(mv).is_ok();
            if ok {
                let next_movegen = Movegen::new(next_board);
                nodes = nodes + next_movegen.perft(depth - 1);
            }
            i = i + 1;
        }
        proof {
            assert(moves@.skip(moves@.len() as int) =~= Seq::<Move>::empty());
        }
        nodes
    }
}

/// Emit the four promotion moves to one destination, in queen, rook,
/// bishop, knight order.
fn push_promotions(moves: &mut Vec<Move>, src: Square, dest: Square)
    requires
        src.0 < 64,
        dest.0 < 64,
    ensures
        final(moves)@ == old(moves)@ + spec_promo_seq(src.0, dest.0),
{
    moves.push(Move::new(MoveFlag(7), src, dest));
    moves.push(Move::new(MoveFlag(6), src, dest));
    moves.push(Move::new(MoveFlag(5), src, dest));
    moves.push(Move::new(MoveFlag(4), src, dest));
    proof {
        assert(moves@ =~= old(moves)@ + spec_promo_seq(src.0, dest.0));
    }
}

} // verus!
