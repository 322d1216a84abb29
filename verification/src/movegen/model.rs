//! The mathematical model of move generation: attack sets of the sliding
//! pieces as ray walks, the attack predicate, and the exact sequence of
//! moves the generator emits, defined by peeling lowest set bits.

use crate::board::bitboard::{clear_lsb64, lemma_clear_lsb_lt, lsb64, spec_step};
use crate::board::model::{sq_mask, BoardV};
use crate::color::Color;
use crate::game::game_move::{mk_move, Move};
use crate::movegen::attack_tables::{
    spec_black_pawn_attacks, spec_king_attacks, spec_knight_attacks, spec_white_pawn_attacks,
};
use vstd::prelude::*;

verus! {

/// The set of all occupied squares of a position.
pub open spec fn spec_occ(v: BoardV) -> u64 {
    v.bb_colors[0] | v.bb_colors[1]
}

/// The squares held by the side to move.
pub open spec fn spec_own(v: BoardV) -> u64 {
    v.bb_colors[v.color_to_move.spec_index()]
}

/// The squares held by the side not to move.
pub open spec fn spec_enemy(v: BoardV) -> u64 {
    spec_occ(v) ^ spec_own(v)
}

/// A ray walk: apply the masked one-step in direction `d` up to `fuel`
/// times, accumulating squares and stopping at the board edge or after the
/// first square that meets the blocker set `occ` (that square is included).
pub open spec fn spec_walk(b: u64, occ: u64, d: i8, fuel: nat) -> u64
    decreases fuel,
{
    if fuel == 0 {
        0
    } else {
        let n = spec_step(b, d);
        if n == 0 {
            0
        } else if n & occ != 0 {
            n
        } else {
            n | spec_walk(n, occ, d, (fuel - 1) as nat)
        }
    }
}

/// The full ray from a square: seven steps bound every ray on an 8 by 8
/// board.
pub open spec fn spec_ray(sq: u8, occ: u64, d: i8) -> u64 {
    spec_walk(sq_mask(sq), occ, d, 7)
}

/// The bishop attack set: the four diagonal rays with `occ` as blockers.
pub open spec fn spec_bishop_attacks(sq: u8, occ: u64) -> u64 {
    spec_ray(sq, occ, 9) | spec_ray(sq, occ, 7) | spec_ray(sq, occ, -7i8) | spec_ray(sq, occ, -9i8)
}

/// The rook attack set: the four orthogonal rays with `occ` as blockers.
pub open spec fn spec_rook_attacks(sq: u8, occ: u64) -> u64 {
    spec_ray(sq, occ, 8) | spec_ray(sq, occ, -8i8) | spec_ray(sq, occ, 1) | spec_ray(sq, occ, -1i8)
}

/// Whether `attacker` attacks square `sq`: a pawn, knight or king of that
/// color stands on an attacking square, or a rook-like or bishop-like piece
/// reaches `sq` along an unblocked ray.
pub open spec fn spec_attacked(v: BoardV, sq: u8, attacker: Color) -> bool {
    let attackers_bb = v.bb_colors[attacker.spec_index()];
    let occ = spec_occ(v);
    let pawn_att = if attacker.spec_other().0 == 1 {
        spec_white_pawn_attacks(sq)
    } else {
        spec_black_pawn_attacks(sq)
    };
    (pawn_att & v.bb_pieces[0] & attackers_bb != 0) || (spec_knight_attacks(sq) & v.bb_pieces[1]
        & attackers_bb != 0) || (spec_king_attacks(sq) & v.bb_pieces[5] & attackers_bb != 0) || (
    spec_rook_attacks(sq, occ) & (v.bb_pieces[3] | v.bb_pieces[4]) & attackers_bb != 0) || (
    spec_bishop_attacks(sq, occ) & (v.bb_pieces[2] | v.bb_pieces[4]) & attackers_bb != 0)
}

/// Whether `color`'s king is attacked by the other side; false when that
/// side has no king on the board.
pub open spec fn spec_in_check(v: BoardV, color: Color) -> bool {
    let king_bb = v.bb_pieces[5] & v.bb_colors[color.spec_index()];
    if king_bb == 0 {
        false
    } else {
        spec_attacked(v, lsb64(king_bb) as u8, color.spec_other())
    }
}

/// The moves emitted for one piece on `src` with destination set `attacks`:
/// one move per destination in ascending square order, flagged a capture
/// exactly when the destination meets `enemies`.
pub open spec fn spec_append_moves(src: u8, attacks: u64, enemies: u64) -> Seq<Move>
    decreases attacks,
    via spec_append_moves_dec
{
    if attacks == 0 {
        Seq::empty()
    } else {
        let d = lsb64(attacks) as u8;
        let flag: u8 = if sq_mask(d) & enemies != 0 {
            1
        } else {
            0
        };
        seq![mk_move(flag, src, d)] + spec_append_moves(src, clear_lsb64(attacks), enemies)
    }
}

#[via_fn]
proof fn spec_append_moves_dec(src: u8, attacks: u64, enemies: u64) {
    if attacks != 0 {
        lemma_clear_lsb_lt(attacks);
    }
}

/// The knight section: for each own knight in ascending square order, the
/// moves to its attack set outside the own pieces.
pub open spec fn spec_knight_section(v: BoardV, knights: u64) -> Seq<Move>
    decreases knights,
    via spec_knight_section_dec
{
    if knights == 0 {
        Seq::empty()
    } else {
        let sq = lsb64(knights) as u8;
        spec_append_moves(sq, spec_knight_attacks(sq) & !spec_own(v), spec_enemy(v))
            + spec_knight_section(v, clear_lsb64(knights))
    }
}

#[via_fn]
proof fn spec_knight_section_dec(v: BoardV, knights: u64) {
    if knights != 0 {
        lemma_clear_lsb_lt(knights);
    }
}

/// The king section: the moves of the lowest own king square, if any.
pub open spec fn spec_king_section(v: BoardV, kings: u64) -> Seq<Move> {
    if kings == 0 {
        Seq::empty()
    } else {
        let sq = lsb64(kings) as u8;
        spec_append_moves(sq, spec_king_attacks(sq) & !spec_own(v), spec_enemy(v))
    }
}

/// The bishop section: ray attacks from each own bishop.
pub open spec fn spec_bishop_section(v: BoardV, bishops: u64) -> Seq<Move>
    decreases bishops,
    via spec_bishop_section_dec
{
    if bishops == 0 {
        Seq::empty()
    } else {
        let sq = lsb64(bishops) as u8;
        spec_append_moves(sq, spec_bishop_attacks(sq, spec_occ(v)) & !spec_own(v), spec_enemy(v))
            + spec_bishop_section(v, clear_lsb64(bishops))
    }
}

#[via_fn]
proof fn spec_bishop_section_dec(v: BoardV, bishops: u64) {
    if bishops != 0 {
        lemma_clear_lsb_lt(bishops);
    }
}

/// The rook section: ray attacks from each own rook.
pub open spec fn spec_rook_section(v: BoardV, rooks: u64) -> Seq<Move>
    decreases rooks,
    via spec_rook_section_dec
{
    if rooks == 0 {
        Seq::empty()
    } else {
        let sq = lsb64(rooks) as u8;
        spec_append_moves(sq, spec_rook_attacks(sq, spec_occ(v)) & !spec_own(v), spec_enemy(v))
            + spec_rook_section(v, clear_lsb64(rooks))
    }
}

#[via_fn]
proof fn spec_rook_section_dec(v: BoardV, rooks: u64) {
    if rooks != 0 {
        lemma_clear_lsb_lt(rooks);
    }
}

/// The queen section: combined bishop and rook rays from each own queen.
pub open spec fn spec_queen_section(v: BoardV, queens: u64) -> Seq<Move>
    decreases queens,
    via spec_queen_section_dec
{
    if queens == 0 {
        Seq::empty()
    } else {
        let sq = lsb64(queens) as u8;
        spec_append_moves(
            sq,
            (spec_bishop_attacks(sq, spec_occ(v)) | spec_rook_attacks(sq, spec_occ(v)))
                & !spec_own(v),
            spec_enemy(v),
        ) + spec_queen_section(v, clear_lsb64(queens))
    }
}

#[via_fn]
proof fn spec_queen_section_dec(v: BoardV, queens: u64) {
    if queens != 0 {
        lemma_clear_lsb_lt(queens);
    }
}

/// The four promotion moves to one destination, in queen, rook, bishop,
/// knight order.
pub open spec fn spec_promo_seq(src: u8, dest: u8) -> Seq<Move> {
    seq![mk_move(7, src, dest), mk_move(6, src, dest), mk_move(5, src, dest), mk_move(4, src, dest)]
}

/// The push part of one pawn's moves: the single push to an empty square
/// (promoting on the last rank), and behind a non-promoting single push the
/// double push from the pawn's home rank when both squares are empty.
pub open spec fn spec_pawn_push(v: BoardV, src: u8, white: bool) -> Seq<Move> {
    let empty = !spec_occ(v);
    let m = sq_mask(src);
    let one = if white {
        spec_step(m, 8)
    } else {
        spec_step(m, -8i8)
    };
    if one != 0 && one & empty != 0 {
        let dest = lsb64(one) as u8;
        if (if white {
            dest / 8 == 7
        } else {
            dest / 8 == 0
        }) {
            spec_promo_seq(src, dest)
        } else {
            seq![mk_move(0, src, dest)] + (if m & (if white {
                0xFF00u64
            } else {
                0xFF000000000000u64
            }) != 0 {
                let two = if white {
                    spec_step(one, 8)
                } else {
                    spec_step(one, -8i8)
                };
                if two != 0 && two & empty != 0 {
                    seq![mk_move(0, src, lsb64(two) as u8)]
                } else {
                    Seq::empty()
                }
            } else {
                Seq::empty()
            })
        }
    } else {
        Seq::empty()
    }
}

/// The capture part of one pawn's moves: one move per enemy piece on the
/// two forward diagonals, promoting on the last rank.
pub open spec fn spec_pawn_caps(src: u8, caps: u64, white: bool) -> Seq<Move>
    decreases caps,
    via spec_pawn_caps_dec
{
    if caps == 0 {
        Seq::empty()
    } else {
        let dest = lsb64(caps) as u8;
        (if (if white {
            dest / 8 == 7
        } else {
            dest / 8 == 0
        }) {
            spec_promo_seq(src, dest)
        } else {
            seq![mk_move(1, src, dest)]
        }) + spec_pawn_caps(src, clear_lsb64(caps), white)
    }
}

#[via_fn]
proof fn spec_pawn_caps_dec(src: u8, caps: u64, white: bool) {
    if caps != 0 {
        lemma_clear_lsb_lt(caps);
    }
}

/// The en-passant part of one pawn's moves: a single en-passant capture
/// when the position names a target square, a forward diagonal of the pawn
/// reaches it, and the enemy pawn stands beside the pawn's rank.
pub open spec fn spec_pawn_ep(v: BoardV, src: u8, white: bool) -> Seq<Move> {
    match v.en_passant_square {
        Some(ep) => {
            let m = sq_mask(src);
            let epm = sq_mask(ep);
            let hit = if white {
                (spec_step(m, 9) & epm) != 0 || (spec_step(m, 7) & epm) != 0
            } else {
                (spec_step(m, -7i8) & epm) != 0 || (spec_step(m, -9i8) & epm) != 0
            };
            if hit {
                let cap = if white {
                    (ep - 8) as u8
                } else {
                    (ep + 8) as u8
                };
                if sq_mask(cap) & v.bb_pieces[0] & spec_enemy(v) != 0 {
                    seq![mk_move(2, src, ep)]
                } else {
                    Seq::empty()
                }
            } else {
                Seq::empty()
            }
        },
        None => Seq::empty(),
    }
}

/// Every move of one pawn: pushes, then captures, then en passant.
pub open spec fn spec_pawn_moves_from(v: BoardV, src: u8, white: bool) -> Seq<Move> {
    let m = sq_mask(src);
    let caps = if white {
        (spec_step(m, 9) | spec_step(m, 7)) & spec_enemy(v)
    } else {
        (spec_step(m, -7i8) | spec_step(m, -9i8)) & spec_enemy(v)
    };
    spec_pawn_push(v, src, white) + spec_pawn_caps(src, caps, white) + spec_pawn_ep(
        v,
        src,
        white,
    )
}

/// The pawn section: the moves of each own pawn in ascending square order.
pub open spec fn spec_pawn_section(v: BoardV, pawns: u64, white: bool) -> Seq<Move>
    decreases pawns,
    via spec_pawn_section_dec
{
    if pawns == 0 {
        Seq::empty()
    } else {
        let src = lsb64(pawns) as u8;
        spec_pawn_moves_from(v, src, white) + spec_pawn_section(v, clear_lsb64(pawns), white)
    }
}

#[via_fn]
proof fn spec_pawn_section_dec(v: BoardV, pawns: u64, white: bool) {
    if pawns != 0 {
        lemma_clear_lsb_lt(pawns);
    }
}

/// The castling section: for the side to move, the kingside then queenside
/// castling move whenever the right is held, the squares between king and
/// rook are empty, and none of the king's origin, path and destination
/// squares is attacked.
pub open spec fn spec_castle_moves(v: BoardV) -> Seq<Move> {
    let occ = spec_occ(v);
    if v.color_to_move.0 == 1 {
        (if v.castling_rights & 1 != 0 && occ & sq_mask(5) == 0 && occ & sq_mask(6) == 0
            && !spec_attacked(v, 4, Color(2)) && !spec_attacked(v, 5, Color(2)) && !spec_attacked(
            v,
            6,
            Color(2),
        ) {
            seq![mk_move(3, 4, 6)]
        } else {
            Seq::empty()
        }) + (if v.castling_rights & 2 != 0 && occ & sq_mask(3) == 0 && occ & sq_mask(2) == 0
            && occ & sq_mask(1) == 0 && !spec_attacked(v, 4, Color(2)) && !spec_attacked(
            v,
            3,
            Color(2),
        ) && !spec_attacked(v, 2, Color(2)) {
            seq![mk_move(3, 4, 2)]
        } else {
            Seq::empty()
        })
    } else {
        (if v.castling_rights & 4 != 0 && occ & sq_mask(61) == 0 && occ & sq_mask(62) == 0
            && !spec_attacked(v, 60, Color(1)) && !spec_attacked(v, 61, Color(1))
            && !spec_attacked(v, 62, Color(1)) {
            seq![mk_move(3, 60, 62)]
        } else {
            Seq::empty()
        }) + (if v.castling_rights & 8 != 0 && occ & sq_mask(59) == 0 && occ & sq_mask(58) == 0
            && occ & sq_mask(57) == 0 && !spec_attacked(v, 60, Color(1)) && !spec_attacked(
            v,
            59,
            Color(1),
        ) && !spec_attacked(v, 58, Color(1)) {
            seq![mk_move(3, 60, 58)]
        } else {
            Seq::empty()
        })
    }
}

/// Every pseudo-legal move of a position, in the order the generator emits
/// them: pawns, knights, the king, bishops, rooks, queens, castling.
pub open spec fn spec_pseudo_legal(v: BoardV) -> Seq<Move> {
    let own = spec_own(v);
    spec_pawn_section(v, v.bb_pieces[0] & own, v.color_to_move.0 == 1) + spec_knight_section(
        v,
        v.bb_pieces[1] & own,
    ) + spec_king_section(v, v.bb_pieces[5] & own) + spec_bishop_section(
        v,
        v.bb_pieces[2] & own,
    ) + spec_rook_section(v, v.bb_pieces[3] & own) + spec_queen_section(v, v.bb_pieces[4] & own)
        + spec_castle_moves(v)
}

/// Whether a pseudo-legal move survives the legality filter: applying it
/// succeeds and does not leave the moving side's own king attacked.
pub open spec fn keep_move(v: BoardV, m: Move) -> bool {
    match crate::board::model::spec_make_move(v, m) {
        Ok(v2) => !spec_in_check(v2, v.color_to_move),
        Err(_) => false,
    }
}

/// The legality filter over a sequence of candidate moves, keeping order.
pub open spec fn spec_filter_legal(v: BoardV, s: Seq<Move>) -> Seq<Move>
    decreases s.len(),
{
    if s.len() == 0 {
        Seq::empty()
    } else {
        (if keep_move(v, s[0]) {
            seq![s[0]]
        } else {
            Seq::empty()
        }) + spec_filter_legal(v, s.drop_first())
    }
}

/// Every legal move of a position: the pseudo-legal moves that survive the
/// make-and-test legality filter.
pub open spec fn spec_legal(v: BoardV) -> Seq<Move> {
    spec_filter_legal(v, spec_pseudo_legal(v))
}

/// The perft node count: one node at depth zero, the number of legal moves
/// at depth one, and otherwise the sum of the counts of the positions one
/// legal move deeper.
pub open spec fn spec_perft(v: BoardV, depth: u8) -> nat
    decreases depth, 1int, 0int,
{
    if depth == 0 {
        1
    } else {
        let moves = spec_legal(v);
        if depth == 1 {
            moves.len()
        } else {
            spec_perft_sum(v, moves, depth)
        }
    }
}

/// The sum of the perft counts one level below `v`, over a sequence of
/// moves to apply to it.
pub open spec fn spec_perft_sum(v: BoardV, moves: Seq<Move>, depth: u8) -> nat
    decreases depth, 0int, moves.len(),
{
    if moves.len() == 0 || depth == 0 {
        0
    } else {
        (match crate::board::model::spec_make_move(v, moves[0]) {
            Ok(v2) => spec_perft(v2, (depth - 1) as u8),
            Err(_) => 0,
        }) + spec_perft_sum(v, moves.drop_first(), depth)
    }
}

} // verus!
