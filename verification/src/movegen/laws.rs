//! Soundness of the move generator: every move it emits can be handed to
//! the transition - it respects the transition's preconditions, and if its
//! source square really holds a piece of the side to move it is sane in the
//! sense the preservation laws require.

use crate::board::bitboard::{
    bit64, clear_lsb64, lemma_bit_ops, lemma_clear_lsb_bits, lemma_lsb_facts, lemma_step_bits,
    lsb64, spec_step,
};
use crate::board::model::{
    make_move_safe, move_sane, position_ok, sq_mask, square_consistent, BoardV,
};
use crate::color::Color;
use crate::game::game_move::{lemma_move_roundtrip, mv_dest, mv_flag, mv_source, Move};
use crate::movegen::model::{
    keep_move, spec_append_moves, spec_bishop_section, spec_castle_moves, spec_enemy,
    spec_filter_legal, spec_king_section, spec_knight_section, spec_legal, spec_occ, spec_own,
    spec_pawn_caps, spec_pawn_ep, spec_pawn_moves_from, spec_pawn_push, spec_pawn_section,
    spec_promo_seq, spec_pseudo_legal, spec_queen_section, spec_rook_section,
};
use vstd::prelude::*;

verus! {

/// What soundness grants of one generated move: the transition's
/// preconditions hold, and when the source square holds a piece of the side
/// to move the move is sane.  (A castling move generated for a position
/// whose king square is empty fails the mover check and is rejected by the
/// transition, so sanity is conditional on the mover.)
pub open spec fn gen_move_ok(v: BoardV, m: Move) -> bool {
    let src = mv_source(m);
    let mover_ok = v.pieces[src as int].0 != 0 && v.pieces[src as int].spec_color()
        == v.color_to_move;
    make_move_safe(v, m) && (mover_ok ==> move_sane(v, m)) && (mover_ok || (mv_flag(m) == 3 && ((
    mv_dest(m) < 8 && src == 4 && v.color_to_move.0 == 1 && v.castling_rights & 3 != 0) || (
    mv_dest(m) >= 8 && src == 60 && v.color_to_move.0 == 2 && v.castling_rights & 12 != 0))))
}

/// Every move of a sequence is accepted by the generator-soundness
/// predicate.
pub open spec fn all_ok(v: BoardV, s: Seq<Move>) -> bool {
    forall|i: int| 0 <= i < s.len() ==> gen_move_ok(v, #[trigger] s[i])
}

/// Soundness passes through concatenation.
proof fn lemma_all_ok_concat(v: BoardV, a: Seq<Move>, b: Seq<Move>)
    requires
        all_ok(v, a),
        all_ok(v, b),
    ensures
        all_ok(v, a + b),
{
    assert forall|i: int| 0 <= i < (a + b).len() implies gen_move_ok(v, #[trigger] (a + b)[i]) by {
        if i < a.len() {
            assert((a + b)[i] == a[i]);
        } else {
            assert((a + b)[i] == b[i - a.len()]);
        }
    }
}

/// A well-formed position has a well-formed mailbox: every entry is empty
/// or a piece with a real kind and color.
proof fn lemma_position_mailbox_ok(v: BoardV)
    requires
        position_ok(v),
    ensures
        crate::board::model::mailbox_ok(v),
{
    assert forall|s: int| 0 <= s < 64 implies (#[trigger] v.pieces[s]).valid() by {
        assert(square_consistent(v, s as u64));
    }
}

/// A square set below the side's own pieces points at real pieces of the
/// side to move; the piece found there shares the side's color.
proof fn lemma_own_square(v: BoardV, s: u8)
    requires
        position_ok(v),
        s < 64,
        bit64(spec_own(v), s as u64),
    ensures
        v.pieces[s as int].0 != 0,
        v.pieces[s as int].valid(),
        v.pieces[s as int].spec_color() == v.color_to_move,
{
    assert(square_consistent(v, s as u64));
    let p = v.pieces[s as int];
    assert(p.0 != 0);
    assert(p.spec_color().spec_index() == v.color_to_move.spec_index());
}

/// The moves emitted for one non-pawn piece are all sound: each goes from
/// the piece's own square to a square outside its own pieces, flagged a
/// capture exactly when an enemy stands there.
proof fn lemma_simple_moves_ok(v: BoardV, src: u8, attacks: u64, enemies: u64)
    requires
        position_ok(v),
        src < 64,
        bit64(spec_own(v), src as u64),
        v.pieces[src as int].kind() != 1,
        forall|i: u64| #[trigger] bit64(attacks, i) ==> !bit64(spec_own(v), i),
        enemies == spec_enemy(v),
    ensures
        all_ok(v, spec_append_moves(src, attacks, enemies)),
    decreases attacks,
{
    lemma_bit_ops();
    lemma_own_square(v, src);
    lemma_position_mailbox_ok(v);
    if attacks != 0 {
        let d = lsb64(attacks) as u8;
        lemma_lsb_facts(attacks);
        lemma_clear_lsb_bits(attacks);
        crate::board::bitboard::lemma_clear_lsb_lt(attacks);
        assert(bit64(attacks, d as u64));
        assert(d < 64);
        let flag: u8 = if sq_mask(d) & enemies != 0 {
            1
        } else {
            0
        };
        lemma_move_roundtrip(flag, src, d);
        let m = crate::game::game_move::mk_move(flag, src, d);
        assert(!bit64(spec_own(v), d as u64));
        assert(square_consistent(v, d as u64));
        assert(bit64(sq_mask(d) & enemies, d as u64) <==> bit64(enemies, d as u64));
        assert((sq_mask(d) & enemies != 0) <==> bit64(enemies, d as u64)) by {
            if sq_mask(d) & enemies != 0 {
                lemma_lsb_facts(sq_mask(d) & enemies);
                let j = lsb64(sq_mask(d) & enemies);
                assert(bit64(sq_mask(d), j) && bit64(enemies, j));
                assert(j == d);
            }
            if bit64(enemies, d as u64) {
                assert(bit64(sq_mask(d) & enemies, d as u64));
            }
        }
        assert(spec_own(v) == v.bb_colors[0] || spec_own(v) == v.bb_colors[1]);
        assert(bit64(spec_enemy(v), d as u64) ==> bit64(spec_occ(v), d as u64));
        assert(!bit64(spec_enemy(v), d as u64) && !bit64(spec_own(v), d as u64) ==> !bit64(
            spec_occ(v),
            d as u64,
        ));
        assert(gen_move_ok(v, m)) by {
            assert(mv_flag(m) == flag && mv_source(m) == src && mv_dest(m) == d);
            if flag == 0 {
                assert(!bit64(spec_occ(v), d as u64));
                assert(v.pieces[d as int].0 == 0);
            } else {
                assert(bit64(spec_occ(v), d as u64));
                assert(v.pieces[d as int].0 != 0);
            }
            assert(src != d);
        }
        lemma_simple_moves_ok(v, src, clear_lsb64(attacks), enemies);
        lemma_all_ok_concat(
            v,
            seq![m],
            spec_append_moves(src, clear_lsb64(attacks), enemies),
        );
    }
}

/// A section that walks one kind's own pieces and emits their attack-set
/// moves is sound; the attack set handed to each piece already excludes the
/// side's own squares.
proof fn lemma_knight_section_ok(v: BoardV, knights: u64)
    requires
        position_ok(v),
        forall|i: u64| #[trigger] bit64(knights, i) ==> bit64(v.bb_pieces[1], i) && bit64(
            spec_own(v),
            i,
        ),
    ensures
        all_ok(v, spec_knight_section(v, knights)),
    decreases knights,
{
    lemma_bit_ops();
    if knights != 0 {
        let sq = lsb64(knights) as u8;
        lemma_lsb_facts(knights);
        lemma_clear_lsb_bits(knights);
        crate::board::bitboard::lemma_clear_lsb_lt(knights);
        assert(square_consistent(v, sq as u64));
        assert(v.pieces[sq as int].kind() == 2);
        assert(forall|i: u64|
            #[trigger] bit64(
                crate::movegen::attack_tables::spec_knight_attacks(sq) & !spec_own(v),
                i,
            ) ==> !bit64(spec_own(v), i));
        lemma_simple_moves_ok(
            v,
            sq,
            crate::movegen::attack_tables::spec_knight_attacks(sq) & !spec_own(v),
            spec_enemy(v),
        );
        lemma_knight_section_ok(v, clear_lsb64(knights));
        lemma_all_ok_concat(
            v,
            spec_append_moves(
                sq,
                crate::movegen::attack_tables::spec_knight_attacks(sq) & !spec_own(v),
                spec_enemy(v),
            ),
            spec_knight_section(v, clear_lsb64(knights)),
        );
    }
}

/// The king section is sound.
proof fn lemma_king_section_ok(v: BoardV, kings: u64)
    requires
        position_ok(v),
        forall|i: u64| #[trigger] bit64(kings, i) ==> bit64(v.bb_pieces[5], i) && bit64(
            spec_own(v),
            i,
        ),
    ensures
        all_ok(v, spec_king_section(v, kings)),
{
    lemma_bit_ops();
    if kings != 0 {
        let sq = lsb64(kings) as u8;
        lemma_lsb_facts(kings);
        assert(square_consistent(v, sq as u64));
        assert(v.pieces[sq as int].kind() == 6);
        lemma_simple_moves_ok(
            v,
            sq,
            crate::movegen::attack_tables::spec_king_attacks(sq) & !spec_own(v),
            spec_enemy(v),
        );
    }
}

/// The bishop section is sound.
proof fn lemma_bishop_section_ok(v: BoardV, bishops: u64)
    requires
        position_ok(v),
        forall|i: u64| #[trigger] bit64(bishops, i) ==> bit64(v.bb_pieces[2], i) && bit64(
            spec_own(v),
            i,
        ),
    ensures
        all_ok(v, spec_bishop_section(v, bishops)),
    decreases bishops,
{
    lemma_bit_ops();
    if bishops != 0 {
        let sq = lsb64(bishops) as u8;
        lemma_lsb_facts(bishops);
        lemma_clear_lsb_bits(bishops);
        crate::board::bitboard::lemma_clear_lsb_lt(bishops);
        assert(square_consistent(v, sq as u64));
        assert(v.pieces[sq as int].kind() == 3);
        let att = crate::movegen::model::spec_bishop_attacks(sq, spec_occ(v)) & !spec_own(v);
        lemma_simple_moves_ok(v, sq, att, spec_enemy(v));
        lemma_bishop_section_ok(v, clear_lsb64(bishops));
        lemma_all_ok_concat(
            v,
            spec_append_moves(sq, att, spec_enemy(v)),
            spec_bishop_section(v, clear_lsb64(bishops)),
        );
    }
}

/// The rook section is sound.
proof fn lemma_rook_section_ok(v: BoardV, rooks: u64)
    requires
        position_ok(v),
        forall|i: u64| #[trigger] bit64(rooks, i) ==> bit64(v.bb_pieces[3], i) && bit64(
            spec_own(v),
            i,
        ),
    ensures
        all_ok(v, spec_rook_section(v, rooks)),
    decreases rooks,
{
    lemma_bit_ops();
    if rooks != 0 {
        let sq = lsb64(rooks) as u8;
        lemma_lsb_facts(rooks);
        lemma_clear_lsb_bits(rooks);
        crate::board::bitboard::lemma_clear_lsb_lt(rooks);
        assert(square_consistent(v, sq as u64));
        assert(v.pieces[sq as int].kind() == 4);
        let att = crate::movegen::model::spec_rook_attacks(sq, spec_occ(v)) & !spec_own(v);
        lemma_simple_moves_ok(v, sq, att, spec_enemy(v));
        lemma_rook_section_ok(v, clear_lsb64(rooks));
        lemma_all_ok_concat(
            v,
            spec_append_moves(sq, att, spec_enemy(v)),
            spec_rook_section(v, clear_lsb64(rooks)),
        );
    }
}

/// The queen section is sound.
proof fn lemma_queen_section_ok(v: BoardV, queens: u64)
    requires
        position_ok(v),
        forall|i: u64| #[trigger] bit64(queens, i) ==> bit64(v.bb_pieces[4], i) && bit64(
            spec_own(v),
            i,
        ),
    ensures
        all_ok(v, spec_queen_section(v, queens)),
    decreases queens,
{
    lemma_bit_ops();
    if queens != 0 {
        let sq = lsb64(queens) as u8;
        lemma_lsb_facts(queens);
        lemma_clear_lsb_bits(queens);
        crate::board::bitboard::lemma_clear_lsb_lt(queens);
        assert(square_consistent(v, sq as u64));
        assert(v.pieces[sq as int].kind() == 5);
        let att = (crate::movegen::model::spec_bishop_attacks(sq, spec_occ(v))
            | crate::movegen::model::spec_rook_attacks(sq, spec_occ(v))) & !spec_own(v);
        lemma_simple_moves_ok(v, sq, att, spec_enemy(v));
        lemma_queen_section_ok(v, clear_lsb64(queens));
        lemma_all_ok_concat(
            v,
            spec_append_moves(sq, att, spec_enemy(v)),
            spec_queen_section(v, clear_lsb64(queens)),
        );
    }
}

/// The castling section is sound: its guards check the right, the empty
/// squares and the unattacked path, and the rook-rights invariant supplies
/// the rook of the right color on its home corner.
proof fn lemma_castle_moves_ok(v: BoardV)
    requires
        position_ok(v),
    ensures
        all_ok(v, spec_castle_moves(v)),
{
    lemma_bit_ops();
    lemma_position_mailbox_ok(v);
    assert(12u8 & 7 == 4 && 12u8 >> 3 == 1 && 20u8 & 7 == 4 && 20u8 >> 3 == 2) by (bit_vector);
    let cr = v.castling_rights;
    assert((cr & 1 != 0 ==> cr & 3 != 0) && (cr & 2 != 0 ==> cr & 3 != 0) && (cr & 4 != 0 ==> cr
        & 12 != 0) && (cr & 8 != 0 ==> cr & 12 != 0)) by (bit_vector);
    assert forall|s: u8| s < 64 && spec_occ(v) & sq_mask(s) == 0 implies v.pieces[s as int].0
        == 0 by {
        assert(square_consistent(v, s as u64));
        assert(!bit64(spec_occ(v), s as u64)) by {
            if bit64(spec_occ(v), s as u64) {
                assert(bit64(spec_occ(v) & sq_mask(s), s as u64));
                crate::board::bitboard::lemma_lsb_facts(spec_occ(v) & sq_mask(s));
            }
        }
    }
    if v.color_to_move.0 == 1 {
        let occ = spec_occ(v);
        let a: Seq<Move> = if v.castling_rights & 1 != 0 && occ & sq_mask(5) == 0 && occ
            & sq_mask(6) == 0 && !crate::movegen::model::spec_attacked(v, 4, Color(2))
            && !crate::movegen::model::spec_attacked(v, 5, Color(2))
            && !crate::movegen::model::spec_attacked(v, 6, Color(2)) {
            seq![crate::game::game_move::mk_move(3, 4, 6)]
        } else {
            Seq::empty()
        };
        let b: Seq<Move> = if v.castling_rights & 2 != 0 && occ & sq_mask(3) == 0 && occ
            & sq_mask(2) == 0 && occ & sq_mask(1) == 0 && !crate::movegen::model::spec_attacked(
            v,
            4,
            Color(2),
        ) && !crate::movegen::model::spec_attacked(v, 3, Color(2))
            && !crate::movegen::model::spec_attacked(v, 2, Color(2)) {
            seq![crate::game::game_move::mk_move(3, 4, 2)]
        } else {
            Seq::empty()
        };
        assert(spec_castle_moves(v) == a + b);
        assert(all_ok(v, a)) by {
            if a.len() > 0 {
                lemma_move_roundtrip(3, 4, 6);
                assert(v.pieces[7].0 == 12);
                assert(v.pieces[6 as int].0 == 0 && v.pieces[5 as int].0 == 0);
                assert(gen_move_ok(v, a[0]));
            }
        }
        assert(all_ok(v, b)) by {
            if b.len() > 0 {
                lemma_move_roundtrip(3, 4, 2);
                assert(v.pieces[0].0 == 12);
                assert(v.pieces[2 as int].0 == 0 && v.pieces[3 as int].0 == 0);
                assert(gen_move_ok(v, b[0]));
            }
        }
        lemma_all_ok_concat(v, a, b);
    } else {
        let occ = spec_occ(v);
        let a: Seq<Move> = if v.castling_rights & 4 != 0 && occ & sq_mask(61) == 0 && occ
            & sq_mask(62) == 0 && !crate::movegen::model::spec_attacked(v, 60, Color(1))
            && !crate::movegen::model::spec_attacked(v, 61, Color(1))
            && !crate::movegen::model::spec_attacked(v, 62, Color(1)) {
            seq![crate::game::game_move::mk_move(3, 60, 62)]
        } else {
            Seq::empty()
        };
        let b: Seq<Move> = if v.castling_rights & 8 != 0 && occ & sq_mask(59) == 0 && occ
            & sq_mask(58) == 0 && occ & sq_mask(57) == 0
            && !crate::movegen::model::spec_attacked(v, 60, Color(1))
            && !crate::movegen::model::spec_attacked(v, 59, Color(1))
            && !crate::movegen::model::spec_attacked(v, 58, Color(1)) {
            seq![crate::game::game_move::mk_move(3, 60, 58)]
        } else {
            Seq::empty()
        };
        assert(spec_castle_moves(v) == a + b);
        assert(all_ok(v, a)) by {
            if a.len() > 0 {
                lemma_move_roundtrip(3, 60, 62);
                assert(v.pieces[63].0 == 20);
                assert(v.pieces[62 as int].0 == 0 && v.pieces[61 as int].0 == 0);
                assert(gen_move_ok(v, a[0]));
            }
        }
        assert(all_ok(v, b)) by {
            if b.len() > 0 {
                lemma_move_roundtrip(3, 60, 58);
                assert(v.pieces[56].0 == 20);
                assert(v.pieces[58 as int].0 == 0 && v.pieces[59 as int].0 == 0);
                assert(gen_move_ok(v, b[0]));
            }
        }
        lemma_all_ok_concat(v, a, b);
    }
}

/// The squares of the two pawn home-rank masks.
proof fn lemma_rank_masks()
    by (bit_vector)
    ensures
        forall|i: u64| #[trigger] bit64(0xFF00u64, i) <==> 8 <= i < 16,
        forall|i: u64| #[trigger] bit64(0xFF000000000000u64, i) <==> 48 <= i < 56,
{
}

/// A word meets a word exactly when they share a set bit.
proof fn lemma_meet(x: u64, y: u64)
    ensures
        x & y != 0 <==> exists|i: u64| bit64(x, i) && bit64(y, i),
{
    lemma_bit_ops();
    if x & y != 0 {
        lemma_lsb_facts(x & y);
        let j = lsb64(x & y);
        assert(bit64(x, j) && bit64(y, j));
    }
    if exists|i: u64| bit64(x, i) && bit64(y, i) {
        let i = choose|i: u64| bit64(x, i) && bit64(y, i);
        assert(bit64(x & y, i));
    }
}

/// The push part of one pawn's moves is sound.
proof fn lemma_pawn_push_ok(v: BoardV, src: u8, white: bool)
    requires
        position_ok(v),
        src < 64,
        bit64(v.bb_pieces[0], src as u64),
        bit64(spec_own(v), src as u64),
        white == (v.color_to_move.0 == 1),
    ensures
        all_ok(v, spec_pawn_push(v, src, white)),
{
    lemma_bit_ops();
    lemma_step_bits();
    lemma_rank_masks();
    lemma_own_square(v, src);
    lemma_position_mailbox_ok(v);
    assert(square_consistent(v, src as u64));
    assert(v.pieces[src as int].kind() == 1);
    let empty = !spec_occ(v);
    let m = sq_mask(src);
    let one = if white {
        spec_step(m, 8)
    } else {
        spec_step(m, -8i8)
    };
    if one != 0 && one & empty != 0 {
        lemma_meet(one, empty);
        let j = choose|i: u64| bit64(one, i) && bit64(empty, i);
        lemma_lsb_facts(one);
        let dest = lsb64(one) as u8;
        assert(bit64(m, src as u64));
        if white {
            assert(bit64(one, dest as u64) ==> dest == src + 8);
        } else {
            assert(bit64(one, dest as u64) ==> src == dest + 8);
        }
        assert(j == dest as u64);
        assert(bit64(empty, dest as u64));
        assert(square_consistent(v, dest as u64));
        assert(v.pieces[dest as int].0 == 0);
        let last = if white {
            dest / 8 == 7
        } else {
            dest / 8 == 0
        };
        if last {
            lemma_move_roundtrip(7, src, dest);
            lemma_move_roundtrip(6, src, dest);
            lemma_move_roundtrip(5, src, dest);
            lemma_move_roundtrip(4, src, dest);
            assert(all_ok(v, spec_promo_seq(src, dest)));
        } else {
            lemma_move_roundtrip(0, src, dest);
            let head = seq![crate::game::game_move::mk_move(0, src, dest)];
            assert(all_ok(v, head)) by {
                assert(gen_move_ok(v, head[0]));
            }
            let home = if white {
                0xFF00u64
            } else {
                0xFF000000000000u64
            };
            let tail: Seq<Move> = if m & home != 0 {
                let two = if white {
                    spec_step(one, 8)
                } else {
                    spec_step(one, -8i8)
                };
                if two != 0 && two & empty != 0 {
                    seq![crate::game::game_move::mk_move(0, src, lsb64(two) as u8)]
                } else {
                    Seq::empty()
                }
            } else {
                Seq::empty()
            };
            assert(all_ok(v, tail)) by {
                if m & home != 0 {
                    lemma_meet(m, home);
                    let h = choose|i: u64| bit64(m, i) && bit64(home, i);
                    assert(h == src as u64);
                    let two = if white {
                        spec_step(one, 8)
                    } else {
                        spec_step(one, -8i8)
                    };
                    if two != 0 && two & empty != 0 {
                        lemma_meet(two, empty);
                        let j2 = choose|i: u64| bit64(two, i) && bit64(empty, i);
                        lemma_lsb_facts(two);
                        let dest2 = lsb64(two) as u8;
                        if white {
                            assert(bit64(two, dest2 as u64) ==> dest2 == src + 16);
                        } else {
                            assert(bit64(two, dest2 as u64) ==> src == dest2 + 16);
                        }
                        assert(j2 == dest2 as u64);
                        assert(square_consistent(v, dest2 as u64));
                        assert(v.pieces[dest2 as int].0 == 0);
                        lemma_move_roundtrip(0, src, dest2);
                        assert(gen_move_ok(v, tail[0])) by {
                            if white {
                                assert(8 <= src < 16);
                                assert(dest2 / 8 == 3);
                            } else {
                                assert(48 <= src < 56);
                                assert(dest2 / 8 == 4);
                            }
                        }
                    }
                }
            }
            lemma_all_ok_concat(v, head, tail);
        }
    }
}

/// The capture part of one pawn's moves is sound.
proof fn lemma_pawn_caps_ok(v: BoardV, src: u8, caps: u64, white: bool)
    requires
        position_ok(v),
        src < 64,
        bit64(v.bb_pieces[0], src as u64),
        bit64(spec_own(v), src as u64),
        white == (v.color_to_move.0 == 1),
        forall|i: u64| #[trigger] bit64(caps, i) ==> bit64(spec_enemy(v), i),
    ensures
        all_ok(v, spec_pawn_caps(src, caps, white)),
    decreases caps,
{
    lemma_bit_ops();
    lemma_own_square(v, src);
    lemma_position_mailbox_ok(v);
    assert(square_consistent(v, src as u64));
    if caps != 0 {
        lemma_lsb_facts(caps);
        lemma_clear_lsb_bits(caps);
        crate::board::bitboard::lemma_clear_lsb_lt(caps);
        let dest = lsb64(caps) as u8;
        assert(bit64(caps, dest as u64));
        assert(bit64(spec_enemy(v), dest as u64));
        assert(spec_own(v) == v.bb_colors[0] || spec_own(v) == v.bb_colors[1]);
        assert(bit64(spec_occ(v), dest as u64));
        assert(!bit64(spec_own(v), dest as u64));
        assert(square_consistent(v, dest as u64));
        assert(v.pieces[dest as int].0 != 0);
        assert(src != dest);
        let head: Seq<Move> = if (if white {
            dest / 8 == 7
        } else {
            dest / 8 == 0
        }) {
            spec_promo_seq(src, dest)
        } else {
            seq![crate::game::game_move::mk_move(1, src, dest)]
        };
        assert(all_ok(v, head)) by {
            lemma_move_roundtrip(7, src, dest);
            lemma_move_roundtrip(6, src, dest);
            lemma_move_roundtrip(5, src, dest);
            lemma_move_roundtrip(4, src, dest);
            lemma_move_roundtrip(1, src, dest);
        }
        lemma_pawn_caps_ok(v, src, clear_lsb64(caps), white);
        lemma_all_ok_concat(v, head, spec_pawn_caps(src, clear_lsb64(caps), white));
    }
}

/// The en-passant part of one pawn's moves is sound.
proof fn lemma_pawn_ep_ok(v: BoardV, src: u8, white: bool)
    requires
        position_ok(v),
        src < 64,
        bit64(v.bb_pieces[0], src as u64),
        bit64(spec_own(v), src as u64),
        white == (v.color_to_move.0 == 1),
    ensures
        all_ok(v, spec_pawn_ep(v, src, white)),
{
    lemma_bit_ops();
    lemma_step_bits();
    lemma_own_square(v, src);
    lemma_position_mailbox_ok(v);
    assert(square_consistent(v, src as u64));
    match v.en_passant_square {
        Some(ep) => {
            assert(ep < 64);
            let m = sq_mask(src);
            let epm = sq_mask(ep);
            assert(bit64(m, src as u64));
            let hit = if white {
                (spec_step(m, 9) & epm) != 0 || (spec_step(m, 7) & epm) != 0
            } else {
                (spec_step(m, -7i8) & epm) != 0 || (spec_step(m, -9i8) & epm) != 0
            };
            if hit {
                if white {
                    lemma_meet(spec_step(m, 9), epm);
                    lemma_meet(spec_step(m, 7), epm);
                    assert(src + 9 == ep || src + 7 == ep);
                } else {
                    lemma_meet(spec_step(m, -7i8), epm);
                    lemma_meet(spec_step(m, -9i8), epm);
                    assert(ep + 7 == src || ep + 9 == src);
                }
                let cap = if white {
                    (ep - 8) as u8
                } else {
                    (ep + 8) as u8
                };
                if sq_mask(cap) & v.bb_pieces[0] & spec_enemy(v) != 0 {
                    lemma_meet(sq_mask(cap) & v.bb_pieces[0], spec_enemy(v));
                    let j = choose|i: u64|
                        bit64(sq_mask(cap) & v.bb_pieces[0], i) && bit64(spec_enemy(v), i);
                    assert(j == cap as u64);
                    assert(bit64(v.bb_pieces[0], cap as u64));
                    assert(square_consistent(v, cap as u64));
                    assert(v.pieces[cap as int].0 != 0);
                    lemma_move_roundtrip(2, src, ep);
                    assert(gen_move_ok(v, crate::game::game_move::mk_move(2, src, ep)));
                }
            }
        },
        None => {},
    }
}

/// Every move of one pawn is sound.
proof fn lemma_pawn_moves_from_ok(v: BoardV, src: u8, white: bool)
    requires
        position_ok(v),
        src < 64,
        bit64(v.bb_pieces[0], src as u64),
        bit64(spec_own(v), src as u64),
        white == (v.color_to_move.0 == 1),
    ensures
        all_ok(v, spec_pawn_moves_from(v, src, white)),
{
    lemma_bit_ops();
    lemma_pawn_push_ok(v, src, white);
    let m = sq_mask(src);
    let caps = if white {
        (spec_step(m, 9) | spec_step(m, 7)) & spec_enemy(v)
    } else {
        (spec_step(m, -7i8) | spec_step(m, -9i8)) & spec_enemy(v)
    };
    lemma_pawn_caps_ok(v, src, caps, white);
    lemma_pawn_ep_ok(v, src, white);
    lemma_all_ok_concat(v, spec_pawn_push(v, src, white), spec_pawn_caps(src, caps, white));
    lemma_all_ok_concat(
        v,
        spec_pawn_push(v, src, white) + spec_pawn_caps(src, caps, white),
        spec_pawn_ep(v, src, white),
    );
}

/// The pawn section is sound.
proof fn lemma_pawn_section_ok(v: BoardV, pawns: u64, white: bool)
    requires
        position_ok(v),
        white == (v.color_to_move.0 == 1),
        forall|i: u64| #[trigger] bit64(pawns, i) ==> bit64(v.bb_pieces[0], i) && bit64(
            spec_own(v),
            i,
        ),
    ensures
        all_ok(v, spec_pawn_section(v, pawns, white)),
    decreases pawns,
{
    lemma_bit_ops();
    if pawns != 0 {
        let src = lsb64(pawns) as u8;
        lemma_lsb_facts(pawns);
        lemma_clear_lsb_bits(pawns);
        crate::board::bitboard::lemma_clear_lsb_lt(pawns);
        lemma_pawn_moves_from_ok(v, src, white);
        lemma_pawn_section_ok(v, clear_lsb64(pawns), white);
        lemma_all_ok_concat(
            v,
            spec_pawn_moves_from(v, src, white),
            spec_pawn_section(v, clear_lsb64(pawns), white),
        );
    }
}

/// Every pseudo-legal move of a well-formed position is sound: the
/// transition's preconditions hold of it, and if its source square holds a
/// piece of the side to move it is sane.
pub proof fn lemma_pseudo_legal_sound(v: BoardV)
    requires
        position_ok(v),
    ensures
        all_ok(v, spec_pseudo_legal(v)),
{
    lemma_bit_ops();
    let own = spec_own(v);
    assert(forall|k: int, i: u64|
        0 <= k < 6 ==> (#[trigger] bit64(v.bb_pieces[k] & own, i) ==> bit64(v.bb_pieces[k], i)
            && bit64(own, i)));
    let p = spec_pawn_section(v, v.bb_pieces[0] & own, v.color_to_move.0 == 1);
    let n = spec_knight_section(v, v.bb_pieces[1] & own);
    let k = spec_king_section(v, v.bb_pieces[5] & own);
    let b = spec_bishop_section(v, v.bb_pieces[2] & own);
    let r = spec_rook_section(v, v.bb_pieces[3] & own);
    let q = spec_queen_section(v, v.bb_pieces[4] & own);
    let c = spec_castle_moves(v);
    lemma_pawn_section_ok(v, v.bb_pieces[0] & own, v.color_to_move.0 == 1);
    lemma_knight_section_ok(v, v.bb_pieces[1] & own);
    lemma_king_section_ok(v, v.bb_pieces[5] & own);
    lemma_bishop_section_ok(v, v.bb_pieces[2] & own);
    lemma_rook_section_ok(v, v.bb_pieces[3] & own);
    lemma_queen_section_ok(v, v.bb_pieces[4] & own);
    lemma_castle_moves_ok(v);
    lemma_all_ok_concat(v, p, n);
    lemma_all_ok_concat(v, p + n, k);
    lemma_all_ok_concat(v, p + n + k, b);
    lemma_all_ok_concat(v, p + n + k + b, r);
    lemma_all_ok_concat(v, p + n + k + b + r, q);
    lemma_all_ok_concat(v, p + n + k + b + r + q, c);
}

/// The legality filter keeps only moves it was given, and each kept move
/// passed the make-and-test check.
proof fn lemma_filter_ok(v: BoardV, s: Seq<Move>)
    requires
        all_ok(v, s),
    ensures
        all_ok(v, spec_filter_legal(v, s)),
        forall|i: int|
            0 <= i < spec_filter_legal(v, s).len() ==> keep_move(
                v,
                #[trigger] spec_filter_legal(v, s)[i],
            ),
    decreases s.len(),
{
    if s.len() > 0 {
        assert(gen_move_ok(v, s[0]));
        assert(all_ok(v, s.drop_first())) by {
            assert(forall|i: int|
                0 <= i < s.drop_first().len() ==> #[trigger] s.drop_first()[i] == s[i + 1]);
        }
        lemma_filter_ok(v, s.drop_first());
        let head: Seq<Move> = if keep_move(v, s[0]) {
            seq![s[0]]
        } else {
            Seq::empty()
        };
        lemma_all_ok_concat(v, head, spec_filter_legal(v, s.drop_first()));
        assert forall|i: int|
            0 <= i < spec_filter_legal(v, s).len() implies keep_move(
            v,
            #[trigger] spec_filter_legal(v, s)[i],
        ) by {
            if i < head.len() {
                assert(spec_filter_legal(v, s)[i] == s[0]);
            } else {
                assert(spec_filter_legal(v, s)[i] == spec_filter_legal(v, s.drop_first())[i
                    - head.len()]);
            }
        }
    }
}

/// Every legal move of a well-formed position is sound, sane, survives the
/// make-and-test check, and leads to a well-formed position: the bridge
/// between the generator and the preservation laws, and the fact that
/// perft's recursion stays on well-formed positions.
pub proof fn lemma_legal_sound(v: BoardV)
    requires
        position_ok(v),
    ensures
        all_ok(v, spec_legal(v)),
        forall|i: int|
            0 <= i < spec_legal(v).len() ==> keep_move(v, #[trigger] spec_legal(v)[i]),
        forall|i: int|
            0 <= i < spec_legal(v).len() ==> move_sane(v, #[trigger] spec_legal(v)[i])
                && crate::board::model::spec_make_move(v, spec_legal(v)[i]) is Ok && position_ok(
                crate::board::model::spec_make_move(v, spec_legal(v)[i])->Ok_0,
            ),
{
    lemma_pseudo_legal_sound(v);
    lemma_filter_ok(v, spec_pseudo_legal(v));
    assert forall|i: int| 0 <= i < spec_legal(v).len() implies move_sane(
        v,
        #[trigger] spec_legal(v)[i],
    ) && crate::board::model::spec_make_move(v, spec_legal(v)[i]) is Ok && position_ok(
        crate::board::model::spec_make_move(v, spec_legal(v)[i])->Ok_0,
    ) by {
        let m = spec_legal(v)[i];
        assert(gen_move_ok(v, m) && keep_move(v, m));
        assert(crate::board::model::spec_make_move(v, m) is Ok);
        assert(v.pieces[mv_source(m) as int].0 != 0 && v.pieces[mv_source(
            m,
        ) as int].spec_color() == v.color_to_move);
        assert(move_sane(v, m));
        crate::board::laws::lemma_make_move_preserves(v, m);
    }
}


/// Under the full castling-rights invariant of the position model - rooks
/// and kings both at home for every held right - every pseudo-legal move's
/// source square holds a piece of the side to move, and every pseudo-legal
/// move is sane.  (Without the king half, a castling move generated off a
/// held right can name an empty king square; the transition then rejects
/// it.)
pub proof fn lemma_pseudo_legal_movers(v: BoardV)
    requires
        position_ok(v),
        crate::board::model::castle_kings_ok(v),
    ensures
        forall|i: int|
            0 <= i < spec_pseudo_legal(v).len() ==> ({
                let m = #[trigger] spec_pseudo_legal(v)[i];
                v.pieces[mv_source(m) as int].0 != 0 && v.pieces[mv_source(
                    m,
                ) as int].spec_color() == v.color_to_move && move_sane(v, m)
            }),
{
    lemma_pseudo_legal_sound(v);
    assert(14u8 >> 3 == 1 && 22u8 >> 3 == 2) by (bit_vector);
    assert forall|i: int| 0 <= i < spec_pseudo_legal(v).len() implies ({
        let m = #[trigger] spec_pseudo_legal(v)[i];
        v.pieces[mv_source(m) as int].0 != 0 && v.pieces[mv_source(m) as int].spec_color()
            == v.color_to_move && move_sane(v, m)
    }) by {
        let m = spec_pseudo_legal(v)[i];
        assert(gen_move_ok(v, m));
        let src = mv_source(m);
        if !(v.pieces[src as int].0 != 0 && v.pieces[src as int].spec_color()
            == v.color_to_move) {
            if mv_dest(m) < 8 {
                assert(v.pieces[4].0 == 14);
                assert(false);
            } else {
                assert(v.pieces[60].0 == 22);
                assert(false);
            }
        }
    }
}


/// The castling moves, characterized over the mailbox: each of the four
/// castling moves is emitted exactly when its side is to move, its right
/// is held, the squares between king and rook are empty (for a queenside
/// castle this includes the b-file square beside the rook), and none of
/// the king's origin, path and destination squares is attacked by the
/// other side.
#[verifier::rlimit(100)]
pub proof fn lemma_castle_moves_characterized(v: BoardV)
    requires
        position_ok(v),
    ensures
        spec_castle_moves(v).contains(crate::game::game_move::mk_move(3, 4, 6)) <==> (
        v.color_to_move.0 == 1 && v.castling_rights & 1 != 0 && v.pieces[5].0 == 0 && v.pieces[
        6].0 == 0 && !crate::movegen::model::spec_attacked(v, 4, Color(2))
            && !crate::movegen::model::spec_attacked(v, 5, Color(2))
            && !crate::movegen::model::spec_attacked(v, 6, Color(2))),
        spec_castle_moves(v).contains(crate::game::game_move::mk_move(3, 4, 2)) <==> (
        v.color_to_move.0 == 1 && v.castling_rights & 2 != 0 && v.pieces[3].0 == 0 && v.pieces[
        2].0 == 0 && v.pieces[1].0 == 0 && !crate::movegen::model::spec_attacked(v, 4, Color(2))
            && !crate::movegen::model::spec_attacked(v, 3, Color(2))
            && !crate::movegen::model::spec_attacked(v, 2, Color(2))),
        spec_castle_moves(v).contains(crate::game::game_move::mk_move(3, 60, 62)) <==> (
        v.color_to_move.0 == 2 && v.castling_rights & 4 != 0 && v.pieces[61].0 == 0 && v.pieces[
        62].0 == 0 && !crate::movegen::model::spec_attacked(v, 60, Color(1))
            && !crate::movegen::model::spec_attacked(v, 61, Color(1))
            && !crate::movegen::model::spec_attacked(v, 62, Color(1))),
        spec_castle_moves(v).contains(crate::game::game_move::mk_move(3, 60, 58)) <==> (
        v.color_to_move.0 == 2 && v.castling_rights & 8 != 0 && v.pieces[59].0 == 0 && v.pieces[
        58].0 == 0 && v.pieces[57].0 == 0 && !crate::movegen::model::spec_attacked(
            v,
            60,
            Color(1),
        ) && !crate::movegen::model::spec_attacked(v, 59, Color(1))
            && !crate::movegen::model::spec_attacked(v, 58, Color(1))),
{
    lemma_bit_ops();
    lemma_move_roundtrip(3, 4, 6);
    lemma_move_roundtrip(3, 4, 2);
    lemma_move_roundtrip(3, 60, 62);
    lemma_move_roundtrip(3, 60, 58);
    assert forall|t: u8| t < 64 implies (spec_occ(v) & sq_mask(t) == 0 <==> v.pieces[t as int].0
        == 0) by {
        assert(square_consistent(v, t as u64));
        if bit64(spec_occ(v), t as u64) {
            assert(bit64(spec_occ(v) & sq_mask(t), t as u64));
        }
        if spec_occ(v) & sq_mask(t) != 0 {
            lemma_lsb_facts(spec_occ(v) & sq_mask(t));
            let j = lsb64(spec_occ(v) & sq_mask(t));
            assert(bit64(spec_occ(v), j) && bit64(sq_mask(t), j));
            assert(j == t);
        }
    }
    let ks_w = crate::game::game_move::mk_move(3, 4, 6);
    let qs_w = crate::game::game_move::mk_move(3, 4, 2);
    let ks_b = crate::game::game_move::mk_move(3, 60, 62);
    let qs_b = crate::game::game_move::mk_move(3, 60, 58);
    assert(ks_w != qs_w && ks_w != ks_b && ks_w != qs_b && qs_w != ks_b && qs_w != qs_b && ks_b
        != qs_b);
    let s = spec_castle_moves(v);
    let occ = spec_occ(v);
    if v.color_to_move.0 == 1 {
        let gk = v.castling_rights & 1 != 0 && occ & sq_mask(5) == 0 && occ & sq_mask(6) == 0
            && !crate::movegen::model::spec_attacked(v, 4, Color(2))
            && !crate::movegen::model::spec_attacked(v, 5, Color(2))
            && !crate::movegen::model::spec_attacked(v, 6, Color(2));
        let gq = v.castling_rights & 2 != 0 && occ & sq_mask(3) == 0 && occ & sq_mask(2) == 0
            && occ & sq_mask(1) == 0 && !crate::movegen::model::spec_attacked(v, 4, Color(2))
            && !crate::movegen::model::spec_attacked(v, 3, Color(2))
            && !crate::movegen::model::spec_attacked(v, 2, Color(2));
        let a: Seq<Move> = if gk {
            seq![ks_w]
        } else {
            Seq::empty()
        };
        let b: Seq<Move> = if gq {
            seq![qs_w]
        } else {
            Seq::empty()
        };
        assert(s == a + b);
        assert(forall|i: int| 0 <= i < s.len() ==> #[trigger] s[i] == ks_w || s[i] == qs_w);
        assert(s.contains(ks_w) <==> gk) by {
            if gk {
                assert(s[0] == ks_w);
            }
            if s.contains(ks_w) {
                let i = choose|i: int| 0 <= i < s.len() && s[i] == ks_w;
                assert(i < a.len() || s[i] == b[i - a.len()]);
                assert(a.len() > 0);
            }
        }
        assert(s.contains(qs_w) <==> gq) by {
            if gq {
                assert(s[a.len() as int] == qs_w);
            }
            if s.contains(qs_w) {
                let i = choose|i: int| 0 <= i < s.len() && s[i] == qs_w;
                if i < a.len() {
                    assert(s[i] == a[i]);
                    assert(false);
                }
                assert(b.len() > 0);
            }
        }
        assert(!s.contains(ks_b)) by {
            if s.contains(ks_b) {
                let i = choose|i: int| 0 <= i < s.len() && s[i] == ks_b;
            }
        }
        assert(!s.contains(qs_b)) by {
            if s.contains(qs_b) {
                let i = choose|i: int| 0 <= i < s.len() && s[i] == qs_b;
            }
        }
    } else {
        let gk = v.castling_rights & 4 != 0 && occ & sq_mask(61) == 0 && occ & sq_mask(62) == 0
            && !crate::movegen::model::spec_attacked(v, 60, Color(1))
            && !crate::movegen::model::spec_attacked(v, 61, Color(1))
            && !crate::movegen::model::spec_attacked(v, 62, Color(1));
        let gq = v.castling_rights & 8 != 0 && occ & sq_mask(59) == 0 && occ & sq_mask(58) == 0
            && occ & sq_mask(57) == 0 && !crate::movegen::model::spec_attacked(v, 60, Color(1))
            && !crate::movegen::model::spec_attacked(v, 59, Color(1))
            && !crate::movegen::model::spec_attacked(v, 58, Color(1));
        let a: Seq<Move> = if gk {
            seq![ks_b]
        } else {
            Seq::empty()
        };
        let b: Seq<Move> = if gq {
            seq![qs_b]
        } else {
            Seq::empty()
        };
        assert(s == a + b);
        assert(forall|i: int| 0 <= i < s.len() ==> #[trigger] s[i] == ks_b || s[i] == qs_b);
        assert(s.contains(ks_b) <==> gk) by {
            if gk {
                assert(s[0] == ks_b);
            }
            if s.contains(ks_b) {
                let i = choose|i: int| 0 <= i < s.len() && s[i] == ks_b;
                assert(i < a.len() || s[i] == b[i - a.len()]);
                assert(a.len() > 0);
            }
        }
        assert(s.contains(qs_b) <==> gq) by {
            if gq {
                assert(s[a.len() as int] == qs_b);
            }
            if s.contains(qs_b) {
                let i = choose|i: int| 0 <= i < s.len() && s[i] == qs_b;
                if i < a.len() {
                    assert(s[i] == a[i]);
                    assert(false);
                }
                assert(b.len() > 0);
            }
        }
        assert(!s.contains(ks_w)) by {
            if s.contains(ks_w) {
                let i = choose|i: int| 0 <= i < s.len() && s[i] == ks_w;
            }
        }
        assert(!s.contains(qs_w)) by {
            if s.contains(qs_w) {
                let i = choose|i: int| 0 <= i < s.len() && s[i] == qs_w;
            }
        }
    }
}


/// Every move emitted for one piece carries that piece's square as its
/// source.
proof fn lemma_append_moves_sources(src: u8, attacks: u64, enemies: u64)
    requires
        src < 64,
    ensures
        forall|i: int|
            0 <= i < spec_append_moves(src, attacks, enemies).len() ==> mv_source(
                #[trigger] spec_append_moves(src, attacks, enemies)[i],
            ) == src,
    decreases attacks,
{
    if attacks != 0 {
        let d = lsb64(attacks) as u8;
        lemma_lsb_facts(attacks);
        crate::board::bitboard::lemma_clear_lsb_lt(attacks);
        let flag: u8 = if sq_mask(d) & enemies != 0 {
            1
        } else {
            0
        };
        lemma_move_roundtrip(flag, src, d);
        lemma_append_moves_sources(src, clear_lsb64(attacks), enemies);
        assert forall|i: int|
            0 <= i < spec_append_moves(src, attacks, enemies).len() implies mv_source(
            #[trigger] spec_append_moves(src, attacks, enemies)[i],
        ) == src by {
            if i > 0 {
                assert(spec_append_moves(src, attacks, enemies)[i] == spec_append_moves(
                    src,
                    clear_lsb64(attacks),
                    enemies,
                )[i - 1]);
            }
        }
    }
}

/// Every push move of one pawn carries that pawn's square as its source.
proof fn lemma_pawn_push_sources(v: BoardV, src: u8, white: bool)
    requires
        src < 64,
    ensures
        forall|i: int|
            0 <= i < spec_pawn_push(v, src, white).len() ==> mv_source(
                #[trigger] spec_pawn_push(v, src, white)[i],
            ) == src,
{
    assert forall|d: u8, f: u8| d < 64 && f < 16 implies mv_source(
        #[trigger] crate::game::game_move::mk_move(f, src, d),
    ) == src by {
        lemma_move_roundtrip(f, src, d);
    }
    let m = sq_mask(src);
    let empty = !spec_occ(v);
    let one = if white {
        spec_step(m, 8)
    } else {
        spec_step(m, -8i8)
    };
    if one != 0 && one & empty != 0 {
        lemma_lsb_facts(one);
        let two = if white {
            spec_step(one, 8)
        } else {
            spec_step(one, -8i8)
        };
        if two != 0 && two & empty != 0 {
            lemma_lsb_facts(two);
        }
    }
}

/// Every move of one pawn's group carries that pawn's square as its
/// source.
proof fn lemma_pawn_group_sources(v: BoardV, src: u8, white: bool)
    requires
        position_ok(v),
        src < 64,
    ensures
        forall|i: int|
            0 <= i < spec_pawn_moves_from(v, src, white).len() ==> mv_source(
                #[trigger] spec_pawn_moves_from(v, src, white)[i],
            ) == src,
{
    lemma_pawn_push_sources(v, src, white);
    let m = sq_mask(src);
    let caps = if white {
        (spec_step(m, 9) | spec_step(m, 7)) & spec_enemy(v)
    } else {
        (spec_step(m, -7i8) | spec_step(m, -9i8)) & spec_enemy(v)
    };
    lemma_pawn_caps_sources(src, caps, white);
    let pu = spec_pawn_push(v, src, white);
    let ca = spec_pawn_caps(src, caps, white);
    let ep = spec_pawn_ep(v, src, white);
    assert(forall|i: int| 0 <= i < ep.len() ==> mv_source(#[trigger] ep[i]) == src) by {
        match v.en_passant_square {
            Some(e) => {
                assert(e < 64);
                lemma_move_roundtrip(2, src, e);
            },
            None => {},
        }
    }
    assert forall|i: int|
        0 <= i < spec_pawn_moves_from(v, src, white).len() implies mv_source(
        #[trigger] spec_pawn_moves_from(v, src, white)[i],
    ) == src by {
        if i < pu.len() {
            assert(spec_pawn_moves_from(v, src, white)[i] == pu[i]);
        } else if i < pu.len() + ca.len() {
            assert(spec_pawn_moves_from(v, src, white)[i] == ca[i - pu.len()]);
        } else {
            assert(spec_pawn_moves_from(v, src, white)[i] == ep[i - pu.len() - ca.len()]);
        }
    }
}

/// Every capture move of one pawn carries that pawn's square as its
/// source.
proof fn lemma_pawn_caps_sources(src: u8, caps: u64, white: bool)
    requires
        src < 64,
    ensures
        forall|i: int|
            0 <= i < spec_pawn_caps(src, caps, white).len() ==> mv_source(
                #[trigger] spec_pawn_caps(src, caps, white)[i],
            ) == src,
    decreases caps,
{
    if caps != 0 {
        let d = lsb64(caps) as u8;
        lemma_lsb_facts(caps);
        crate::board::bitboard::lemma_clear_lsb_lt(caps);
        lemma_move_roundtrip(7, src, d);
        lemma_move_roundtrip(6, src, d);
        lemma_move_roundtrip(5, src, d);
        lemma_move_roundtrip(4, src, d);
        lemma_move_roundtrip(1, src, d);
        lemma_pawn_caps_sources(src, clear_lsb64(caps), white);
        let head: Seq<Move> = if (if white {
            d / 8 == 7
        } else {
            d / 8 == 0
        }) {
            spec_promo_seq(src, d)
        } else {
            seq![crate::game::game_move::mk_move(1, src, d)]
        };
        assert forall|i: int|
            0 <= i < spec_pawn_caps(src, caps, white).len() implies mv_source(
            #[trigger] spec_pawn_caps(src, caps, white)[i],
        ) == src by {
            if i < head.len() {
                assert(spec_pawn_caps(src, caps, white)[i] == head[i]);
            } else {
                assert(spec_pawn_caps(src, caps, white)[i] == spec_pawn_caps(
                    src,
                    clear_lsb64(caps),
                    white,
                )[i - head.len()]);
            }
        }
    }
}


/// A pawn one rank short of promotion emits only promotion moves: its
/// push square lies on the last rank, each of its capture targets lies on
/// the last rank, and the en-passant square can never adjoin it.
proof fn lemma_pawn_group_promotes(v: BoardV, src: u8, white: bool)
    requires
        position_ok(v),
        src < 64,
        white == (v.color_to_move.0 == 1),
        white ==> src / 8 == 6,
        !white ==> src / 8 == 1,
    ensures
        forall|i: int|
            0 <= i < spec_pawn_moves_from(v, src, white).len() ==> 4 <= mv_flag(
                #[trigger] spec_pawn_moves_from(v, src, white)[i],
            ) <= 7,
{
    lemma_bit_ops();
    lemma_step_bits();
    let m = sq_mask(src);
    assert(bit64(m, src as u64));
    let empty = !spec_occ(v);
    let one = if white {
        spec_step(m, 8)
    } else {
        spec_step(m, -8i8)
    };
    let caps = if white {
        (spec_step(m, 9) | spec_step(m, 7)) & spec_enemy(v)
    } else {
        (spec_step(m, -7i8) | spec_step(m, -9i8)) & spec_enemy(v)
    };
    let pu = spec_pawn_push(v, src, white);
    let ca = spec_pawn_caps(src, caps, white);
    let ep = spec_pawn_ep(v, src, white);
    assert(forall|i: int| 0 <= i < pu.len() ==> 4 <= mv_flag(#[trigger] pu[i]) <= 7) by {
        if one != 0 && one & empty != 0 {
            lemma_lsb_facts(one);
            let dest = lsb64(one) as u8;
            if white {
                assert(bit64(one, dest as u64) ==> dest == src + 8);
            } else {
                assert(bit64(one, dest as u64) ==> src == dest + 8);
            }
            lemma_move_roundtrip(7, src, dest);
            lemma_move_roundtrip(6, src, dest);
            lemma_move_roundtrip(5, src, dest);
            lemma_move_roundtrip(4, src, dest);
        }
    }
    assert(forall|i: u64| #[trigger] bit64(caps, i) ==> (if white {
        i / 8 == 7
    } else {
        i / 8 == 0
    }));
    lemma_last_rank_promotes(v, src, caps, white);
    assert(ep.len() == 0) by {
        match v.en_passant_square {
            Some(e) => {
                assert(e < 64 && (white ==> e / 8 == 5) && (!white ==> e / 8 == 2));
                let epm = sq_mask(e);
                if white {
                    if spec_step(m, 9) & epm != 0 {
                        lemma_meet(spec_step(m, 9), epm);
                        assert(false);
                    }
                    if spec_step(m, 7) & epm != 0 {
                        lemma_meet(spec_step(m, 7), epm);
                        assert(false);
                    }
                } else {
                    if spec_step(m, -7i8) & epm != 0 {
                        lemma_meet(spec_step(m, -7i8), epm);
                        assert(false);
                    }
                    if spec_step(m, -9i8) & epm != 0 {
                        lemma_meet(spec_step(m, -9i8), epm);
                        assert(false);
                    }
                }
            },
            None => {},
        }
    }
    assert forall|i: int|
        0 <= i < spec_pawn_moves_from(v, src, white).len() implies 4 <= mv_flag(
        #[trigger] spec_pawn_moves_from(v, src, white)[i],
    ) <= 7 by {
        if i < pu.len() {
            assert(spec_pawn_moves_from(v, src, white)[i] == pu[i]);
        } else if i < pu.len() + ca.len() {
            assert(spec_pawn_moves_from(v, src, white)[i] == ca[i - pu.len()]);
        } else {
            assert(spec_pawn_moves_from(v, src, white)[i] == ep[i - pu.len() - ca.len()]);
        }
    }
}

/// In the whole pawn section, the moves that leave the given last-rank
/// pawn's square are all promotions.
proof fn lemma_pawn_section_promotes(v: BoardV, pawns: u64, white: bool, src: u8)
    requires
        position_ok(v),
        src < 64,
        white == (v.color_to_move.0 == 1),
        white ==> src / 8 == 6,
        !white ==> src / 8 == 1,
    ensures
        forall|i: int|
            0 <= i < spec_pawn_section(v, pawns, white).len() && mv_source(
                #[trigger] spec_pawn_section(v, pawns, white)[i],
            ) == src ==> 4 <= mv_flag(spec_pawn_section(v, pawns, white)[i]) <= 7,
    decreases pawns,
{
    if pawns != 0 {
        let head = lsb64(pawns) as u8;
        lemma_lsb_facts(pawns);
        crate::board::bitboard::lemma_clear_lsb_lt(pawns);
        if head == src {
            lemma_pawn_group_promotes(v, src, white);
        } else {
            lemma_pawn_group_sources(v, head, white);
        }
        lemma_pawn_section_promotes(v, clear_lsb64(pawns), white, src);
        let g = spec_pawn_moves_from(v, head, white);
        assert forall|i: int|
            0 <= i < spec_pawn_section(v, pawns, white).len() && mv_source(
                #[trigger] spec_pawn_section(v, pawns, white)[i],
            ) == src implies 4 <= mv_flag(spec_pawn_section(v, pawns, white)[i]) <= 7 by {
            if i < g.len() {
                assert(spec_pawn_section(v, pawns, white)[i] == g[i]);
            } else {
                assert(spec_pawn_section(v, pawns, white)[i] == spec_pawn_section(
                    v,
                    clear_lsb64(pawns),
                    white,
                )[i - g.len()]);
            }
        }
    }
}

/// The pawn section carries every move of each pawn it walks.
proof fn lemma_pawn_section_contains_group(v: BoardV, pawns: u64, white: bool, src: u8)
    requires
        src < 64,
        bit64(pawns, src as u64),
    ensures
        forall|j: int|
            0 <= j < spec_pawn_moves_from(v, src, white).len() ==> spec_pawn_section(
                v,
                pawns,
                white,
            ).contains(#[trigger] spec_pawn_moves_from(v, src, white)[j]),
    decreases pawns,
{
    assert(pawns != 0) by {
        if pawns == 0 {
            assert(!bit64(0u64, src as u64)) by (bit_vector);
        }
    }
    let head = lsb64(pawns) as u8;
    lemma_lsb_facts(pawns);
    lemma_clear_lsb_bits(pawns);
    crate::board::bitboard::lemma_clear_lsb_lt(pawns);
    let g = spec_pawn_moves_from(v, head, white);
    let tail = spec_pawn_section(v, clear_lsb64(pawns), white);
    if head == src {
        assert forall|j: int| 0 <= j < spec_pawn_moves_from(v, src, white).len() implies
            spec_pawn_section(v, pawns, white).contains(
            #[trigger] spec_pawn_moves_from(v, src, white)[j],
        ) by {
            assert(spec_pawn_section(v, pawns, white)[j] == g[j]);
        }
    } else {
        assert(bit64(clear_lsb64(pawns), src as u64));
        lemma_pawn_section_contains_group(v, clear_lsb64(pawns), white, src);
        assert forall|j: int| 0 <= j < spec_pawn_moves_from(v, src, white).len() implies
            spec_pawn_section(v, pawns, white).contains(
            #[trigger] spec_pawn_moves_from(v, src, white)[j],
        ) by {
            let mv = spec_pawn_moves_from(v, src, white)[j];
            assert(tail.contains(mv));
            let t = choose|t: int| 0 <= t < tail.len() && tail[t] == mv;
            assert(spec_pawn_section(v, pawns, white)[g.len() + t] == mv);
        }
    }
}


/// Every knight-section move starts on a square of the walked set.
proof fn lemma_knight_section_sources(v: BoardV, knights: u64)
    ensures
        forall|i: int|
            0 <= i < spec_knight_section(v, knights).len() ==> bit64(
                knights,
                mv_source(#[trigger] spec_knight_section(v, knights)[i]) as u64,
            ),
    decreases knights,
{
    if knights != 0 {
        let sq = lsb64(knights) as u8;
        lemma_lsb_facts(knights);
        lemma_clear_lsb_bits(knights);
        crate::board::bitboard::lemma_clear_lsb_lt(knights);
        lemma_append_moves_sources(
            sq,
            crate::movegen::attack_tables::spec_knight_attacks(sq) & !spec_own(v),
            spec_enemy(v),
        );
        lemma_knight_section_sources(v, clear_lsb64(knights));
        let g = spec_append_moves(
            sq,
            crate::movegen::attack_tables::spec_knight_attacks(sq) & !spec_own(v),
            spec_enemy(v),
        );
        assert forall|i: int| 0 <= i < spec_knight_section(v, knights).len() implies bit64(
            knights,
            mv_source(#[trigger] spec_knight_section(v, knights)[i]) as u64,
        ) by {
            if i < g.len() {
                assert(spec_knight_section(v, knights)[i] == g[i]);
            } else {
                assert(spec_knight_section(v, knights)[i] == spec_knight_section(
                    v,
                    clear_lsb64(knights),
                )[i - g.len()]);
            }
        }
    }
}

/// Every king-section move starts on a square of the walked set.
proof fn lemma_king_section_sources(v: BoardV, kings: u64)
    ensures
        forall|i: int|
            0 <= i < spec_king_section(v, kings).len() ==> bit64(
                kings,
                mv_source(#[trigger] spec_king_section(v, kings)[i]) as u64,
            ),
{
    if kings != 0 {
        let sq = lsb64(kings) as u8;
        lemma_lsb_facts(kings);
        lemma_append_moves_sources(
            sq,
            crate::movegen::attack_tables::spec_king_attacks(sq) & !spec_own(v),
            spec_enemy(v),
        );
    }
}

/// Every bishop-section move starts on a square of the walked set.
proof fn lemma_bishop_section_sources(v: BoardV, bishops: u64)
    ensures
        forall|i: int|
            0 <= i < spec_bishop_section(v, bishops).len() ==> bit64(
                bishops,
                mv_source(#[trigger] spec_bishop_section(v, bishops)[i]) as u64,
            ),
    decreases bishops,
{
    if bishops != 0 {
        let sq = lsb64(bishops) as u8;
        lemma_lsb_facts(bishops);
        lemma_clear_lsb_bits(bishops);
        crate::board::bitboard::lemma_clear_lsb_lt(bishops);
        let g = spec_append_moves(
            sq,
            crate::movegen::model::spec_bishop_attacks(sq, spec_occ(v)) & !spec_own(v),
            spec_enemy(v),
        );
        lemma_append_moves_sources(
            sq,
            crate::movegen::model::spec_bishop_attacks(sq, spec_occ(v)) & !spec_own(v),
            spec_enemy(v),
        );
        lemma_bishop_section_sources(v, clear_lsb64(bishops));
        assert forall|i: int| 0 <= i < spec_bishop_section(v, bishops).len() implies bit64(
            bishops,
            mv_source(#[trigger] spec_bishop_section(v, bishops)[i]) as u64,
        ) by {
            if i < g.len() {
                assert(spec_bishop_section(v, bishops)[i] == g[i]);
            } else {
                assert(spec_bishop_section(v, bishops)[i] == spec_bishop_section(
                    v,
                    clear_lsb64(bishops),
                )[i - g.len()]);
            }
        }
    }
}

/// Every rook-section move starts on a square of the walked set.
proof fn lemma_rook_section_sources(v: BoardV, rooks: u64)
    ensures
        forall|i: int|
            0 <= i < spec_rook_section(v, rooks).len() ==> bit64(
                rooks,
                mv_source(#[trigger] spec_rook_section(v, rooks)[i]) as u64,
            ),
    decreases rooks,
{
    if rooks != 0 {
        let sq = lsb64(rooks) as u8;
        lemma_lsb_facts(rooks);
        lemma_clear_lsb_bits(rooks);
        crate::board::bitboard::lemma_clear_lsb_lt(rooks);
        let g = spec_append_moves(
            sq,
            crate::movegen::model::spec_rook_attacks(sq, spec_occ(v)) & !spec_own(v),
            spec_enemy(v),
        );
        lemma_append_moves_sources(
            sq,
            crate::movegen::model::spec_rook_attacks(sq, spec_occ(v)) & !spec_own(v),
            spec_enemy(v),
        );
        lemma_rook_section_sources(v, clear_lsb64(rooks));
        assert forall|i: int| 0 <= i < spec_rook_section(v, rooks).len() implies bit64(
            rooks,
            mv_source(#[trigger] spec_rook_section(v, rooks)[i]) as u64,
        ) by {
            if i < g.len() {
                assert(spec_rook_section(v, rooks)[i] == g[i]);
            } else {
                assert(spec_rook_section(v, rooks)[i] == spec_rook_section(
                    v,
                    clear_lsb64(rooks),
                )[i - g.len()]);
            }
        }
    }
}

/// Every queen-section move starts on a square of the walked set.
proof fn lemma_queen_section_sources(v: BoardV, queens: u64)
    ensures
        forall|i: int|
            0 <= i < spec_queen_section(v, queens).len() ==> bit64(
                queens,
                mv_source(#[trigger] spec_queen_section(v, queens)[i]) as u64,
            ),
    decreases queens,
{
    if queens != 0 {
        let sq = lsb64(queens) as u8;
        lemma_lsb_facts(queens);
        lemma_clear_lsb_bits(queens);
        crate::board::bitboard::lemma_clear_lsb_lt(queens);
        let att = (crate::movegen::model::spec_bishop_attacks(sq, spec_occ(v))
            | crate::movegen::model::spec_rook_attacks(sq, spec_occ(v))) & !spec_own(v);
        let g = spec_append_moves(sq, att, spec_enemy(v));
        lemma_append_moves_sources(sq, att, spec_enemy(v));
        lemma_queen_section_sources(v, clear_lsb64(queens));
        assert forall|i: int| 0 <= i < spec_queen_section(v, queens).len() implies bit64(
            queens,
            mv_source(#[trigger] spec_queen_section(v, queens)[i]) as u64,
        ) by {
            if i < g.len() {
                assert(spec_queen_section(v, queens)[i] == g[i]);
            } else {
                assert(spec_queen_section(v, queens)[i] == spec_queen_section(
                    v,
                    clear_lsb64(queens),
                )[i - g.len()]);
            }
        }
    }
}

/// Every castling move starts on a king home square.
proof fn lemma_castle_moves_sources(v: BoardV)
    ensures
        forall|i: int|
            0 <= i < spec_castle_moves(v).len() ==> (mv_source(
                #[trigger] spec_castle_moves(v)[i],
            ) == 4 || mv_source(spec_castle_moves(v)[i]) == 60),
{
    lemma_move_roundtrip(3, 4, 6);
    lemma_move_roundtrip(3, 4, 2);
    lemma_move_roundtrip(3, 60, 62);
    lemma_move_roundtrip(3, 60, 58);
}


/// A pawn one rank short of promotion contributes only promotion moves to
/// the pseudo-legal list: every emitted move leaving its square carries a
/// promotion flag, and when the square ahead of it is empty the four
/// promotion pushes to that square are all emitted.
#[verifier::rlimit(100)]
pub proof fn lemma_last_rank_pawn_pseudo_legal(v: BoardV, src: u8)
    requires
        position_ok(v),
        src < 64,
        bit64(v.bb_pieces[0], src as u64),
        bit64(spec_own(v), src as u64),
        v.color_to_move.0 == 1 ==> src / 8 == 6,
        v.color_to_move.0 != 1 ==> src / 8 == 1,
    ensures
        forall|i: int|
            0 <= i < spec_pseudo_legal(v).len() && mv_source(#[trigger] spec_pseudo_legal(v)[i])
                == src ==> 4 <= mv_flag(spec_pseudo_legal(v)[i]) <= 7,
        ({
            let dest = if v.color_to_move.0 == 1 {
                (src + 8) as u8
            } else {
                (src - 8) as u8
            };
            v.pieces[dest as int].0 == 0 ==> spec_pseudo_legal(v).contains(
                crate::game::game_move::mk_move(7, src, dest),
            ) && spec_pseudo_legal(v).contains(crate::game::game_move::mk_move(6, src, dest))
                && spec_pseudo_legal(v).contains(crate::game::game_move::mk_move(5, src, dest))
                && spec_pseudo_legal(v).contains(crate::game::game_move::mk_move(4, src, dest))
        }),
{
    lemma_bit_ops();
    let white = v.color_to_move.0 == 1;
    let own = spec_own(v);
    assert(square_consistent(v, src as u64));
    let p = spec_pawn_section(v, v.bb_pieces[0] & own, white);
    let n = spec_knight_section(v, v.bb_pieces[1] & own);
    let k = spec_king_section(v, v.bb_pieces[5] & own);
    let b = spec_bishop_section(v, v.bb_pieces[2] & own);
    let r = spec_rook_section(v, v.bb_pieces[3] & own);
    let q = spec_queen_section(v, v.bb_pieces[4] & own);
    let c = spec_castle_moves(v);
    lemma_pawn_section_promotes(v, v.bb_pieces[0] & own, white, src);
    lemma_knight_section_sources(v, v.bb_pieces[1] & own);
    lemma_king_section_sources(v, v.bb_pieces[5] & own);
    lemma_bishop_section_sources(v, v.bb_pieces[2] & own);
    lemma_rook_section_sources(v, v.bb_pieces[3] & own);
    lemma_queen_section_sources(v, v.bb_pieces[4] & own);
    lemma_castle_moves_sources(v);
    assert(!bit64(v.bb_pieces[1], src as u64) && !bit64(v.bb_pieces[5], src as u64) && !bit64(
        v.bb_pieces[2],
        src as u64,
    ) && !bit64(v.bb_pieces[3], src as u64) && !bit64(v.bb_pieces[4], src as u64));
    assert forall|i: int|
        0 <= i < spec_pseudo_legal(v).len() && mv_source(#[trigger] spec_pseudo_legal(v)[i])
            == src implies 4 <= mv_flag(spec_pseudo_legal(v)[i]) <= 7 by {
        let s1 = p + n;
        let s2 = s1 + k;
        let s3 = s2 + b;
        let s4 = s3 + r;
        let s5 = s4 + q;
        if i < p.len() {
            assert(spec_pseudo_legal(v)[i] == p[i]);
        } else if i < s1.len() {
            assert(spec_pseudo_legal(v)[i] == n[i - p.len()]);
            assert(bit64(v.bb_pieces[1] & own, src as u64));
            assert(false);
        } else if i < s2.len() {
            assert(spec_pseudo_legal(v)[i] == k[i - s1.len()]);
            assert(bit64(v.bb_pieces[5] & own, src as u64));
            assert(false);
        } else if i < s3.len() {
            assert(spec_pseudo_legal(v)[i] == b[i - s2.len()]);
            assert(bit64(v.bb_pieces[2] & own, src as u64));
            assert(false);
        } else if i < s4.len() {
            assert(spec_pseudo_legal(v)[i] == r[i - s3.len()]);
            assert(bit64(v.bb_pieces[3] & own, src as u64));
            assert(false);
        } else if i < s5.len() {
            assert(spec_pseudo_legal(v)[i] == q[i - s4.len()]);
            assert(bit64(v.bb_pieces[4] & own, src as u64));
            assert(false);
        } else {
            assert(spec_pseudo_legal(v)[i] == c[i - s5.len()]);
            assert(false);
        }
    }
    let dest = if white {
        (src + 8) as u8
    } else {
        (src - 8) as u8
    };
    if v.pieces[dest as int].0 == 0 {
        lemma_step_bits();
        let m = sq_mask(src);
        assert(bit64(m, src as u64));
        let caps = if white {
            (spec_step(m, 9) | spec_step(m, 7)) & spec_enemy(v)
        } else {
            (spec_step(m, -7i8) | spec_step(m, -9i8)) & spec_enemy(v)
        };
        lemma_last_rank_promotes(v, src, caps, white);
        assert(spec_pawn_push(v, src, white) == spec_promo_seq(src, dest));
        let g = spec_pawn_moves_from(v, src, white);
        assert(g[0] == crate::game::game_move::mk_move(7, src, dest) && g[1]
            == crate::game::game_move::mk_move(6, src, dest) && g[2]
            == crate::game::game_move::mk_move(5, src, dest) && g[3]
            == crate::game::game_move::mk_move(4, src, dest)) by {
            let pu = spec_pawn_push(v, src, white);
            assert(forall|j: int| 0 <= j < pu.len() ==> #[trigger] g[j] == pu[j]);
        }
        assert(bit64(v.bb_pieces[0] & own, src as u64));
        lemma_pawn_section_contains_group(v, v.bb_pieces[0] & own, white, src);
        assert forall|j: int| 0 <= j < 4 implies spec_pseudo_legal(v).contains(
            #[trigger] g[j],
        ) by {
            assert(p.contains(g[j]));
            let t = choose|t: int| 0 <= t < p.len() && p[t] == g[j];
            assert(spec_pseudo_legal(v)[t] == p[t]);
        }
        assert(spec_pseudo_legal(v).contains(g[0]) && spec_pseudo_legal(v).contains(g[1])
            && spec_pseudo_legal(v).contains(g[2]) && spec_pseudo_legal(v).contains(g[3]));
    }
}


/// The capture part of a last-rank pawn's moves carries all four
/// promotions to each of its capture targets.
proof fn lemma_pawn_caps_contains(src: u8, caps: u64, white: bool, d: u8)
    requires
        src < 64,
        d < 64,
        bit64(caps, d as u64),
        white ==> d / 8 == 7,
        !white ==> d / 8 == 0,
    ensures
        spec_pawn_caps(src, caps, white).contains(crate::game::game_move::mk_move(7, src, d)),
        spec_pawn_caps(src, caps, white).contains(crate::game::game_move::mk_move(6, src, d)),
        spec_pawn_caps(src, caps, white).contains(crate::game::game_move::mk_move(5, src, d)),
        spec_pawn_caps(src, caps, white).contains(crate::game::game_move::mk_move(4, src, d)),
    decreases caps,
{
    assert(caps != 0) by {
        if caps == 0 {
            assert(!bit64(0u64, d as u64)) by (bit_vector);
        }
    }
    let head = lsb64(caps) as u8;
    lemma_lsb_facts(caps);
    lemma_clear_lsb_bits(caps);
    crate::board::bitboard::lemma_clear_lsb_lt(caps);
    let hd: Seq<Move> = if (if white {
        head / 8 == 7
    } else {
        head / 8 == 0
    }) {
        spec_promo_seq(src, head)
    } else {
        seq![crate::game::game_move::mk_move(1, src, head)]
    };
    if head == d {
        assert(spec_pawn_caps(src, caps, white)[0] == crate::game::game_move::mk_move(
            7,
            src,
            d,
        ));
        assert(spec_pawn_caps(src, caps, white)[1] == crate::game::game_move::mk_move(
            6,
            src,
            d,
        ));
        assert(spec_pawn_caps(src, caps, white)[2] == crate::game::game_move::mk_move(
            5,
            src,
            d,
        ));
        assert(spec_pawn_caps(src, caps, white)[3] == crate::game::game_move::mk_move(
            4,
            src,
            d,
        ));
    } else {
        assert(bit64(clear_lsb64(caps), d as u64));
        lemma_pawn_caps_contains(src, clear_lsb64(caps), white, d);
        let tail = spec_pawn_caps(src, clear_lsb64(caps), white);
        assert forall|f: u8| 4 <= f <= 7 implies spec_pawn_caps(src, caps, white).contains(
            #[trigger] crate::game::game_move::mk_move(f, src, d),
        ) by {
            let mv = crate::game::game_move::mk_move(f, src, d);
            assert(tail.contains(mv));
            let t = choose|t: int| 0 <= t < tail.len() && tail[t] == mv;
            assert(spec_pawn_caps(src, caps, white)[hd.len() + t] == mv);
        }
    }
}

/// A pawn one rank short of promotion that can capture an enemy piece on
/// a forward diagonal emits all four promotion moves to that square.
#[verifier::rlimit(100)]
pub proof fn lemma_last_rank_pawn_capture_promotes(v: BoardV, src: u8, d: u8)
    requires
        position_ok(v),
        src < 64,
        d < 64,
        bit64(v.bb_pieces[0], src as u64),
        bit64(spec_own(v), src as u64),
        v.color_to_move.0 == 1 ==> src / 8 == 6,
        v.color_to_move.0 != 1 ==> src / 8 == 1,
        v.pieces[d as int].0 != 0,
        v.pieces[d as int].spec_color() == v.color_to_move.spec_other(),
        v.color_to_move.0 == 1 ==> ((d == src + 9 && d % 8 != 0) || (d == src + 7 && d % 8
            != 7)),
        v.color_to_move.0 != 1 ==> ((d + 7 == src && d % 8 != 0) || (d + 9 == src && d % 8
            != 7)),
    ensures
        spec_pseudo_legal(v).contains(crate::game::game_move::mk_move(7, src, d)),
        spec_pseudo_legal(v).contains(crate::game::game_move::mk_move(6, src, d)),
        spec_pseudo_legal(v).contains(crate::game::game_move::mk_move(5, src, d)),
        spec_pseudo_legal(v).contains(crate::game::game_move::mk_move(4, src, d)),
{
    lemma_bit_ops();
    lemma_step_bits();
    let white = v.color_to_move.0 == 1;
    let own = spec_own(v);
    let m = sq_mask(src);
    assert(bit64(m, src as u64));
    assert(square_consistent(v, src as u64));
    assert(square_consistent(v, d as u64));
    assert(bit64(spec_enemy(v), d as u64)) by {
        let p = v.pieces[d as int];
        assert(p.spec_color().spec_index() != v.color_to_move.spec_index());
        assert(spec_own(v) == v.bb_colors[v.color_to_move.spec_index()]);
        assert(bit64(v.bb_colors[p.spec_color().spec_index()], d as u64));
        assert(!bit64(spec_own(v), d as u64));
        assert(bit64(spec_occ(v), d as u64));
    }
    let caps = if white {
        (spec_step(m, 9) | spec_step(m, 7)) & spec_enemy(v)
    } else {
        (spec_step(m, -7i8) | spec_step(m, -9i8)) & spec_enemy(v)
    };
    assert(bit64(caps, d as u64));
    lemma_pawn_caps_contains(src, caps, white, d);
    let pu = spec_pawn_push(v, src, white);
    let ca = spec_pawn_caps(src, caps, white);
    let g = spec_pawn_moves_from(v, src, white);
    assert(bit64(v.bb_pieces[0] & own, src as u64));
    lemma_pawn_section_contains_group(v, v.bb_pieces[0] & own, white, src);
    let p = spec_pawn_section(v, v.bb_pieces[0] & own, white);
    assert forall|f: u8| 4 <= f <= 7 implies spec_pseudo_legal(v).contains(
        #[trigger] crate::game::game_move::mk_move(f, src, d),
    ) by {
        let mv = crate::game::game_move::mk_move(f, src, d);
        assert(ca.contains(mv));
        let t = choose|t: int| 0 <= t < ca.len() && ca[t] == mv;
        assert(g[pu.len() + t] == mv);
        assert(p.contains(mv));
        let u = choose|u: int| 0 <= u < p.len() && p[u] == mv;
        assert(spec_pseudo_legal(v)[u] == p[u]);
    }
}

/// A knight in a corner attacks exactly two squares.
pub proof fn lemma_knight_corner_two_targets()
    ensures
        crate::movegen::attack_tables::spec_knight_attacks(0) == (1u64 << 10) | (1u64 << 17),
        crate::movegen::attack_tables::spec_knight_attacks(7) == (1u64 << 13) | (1u64 << 22),
        crate::movegen::attack_tables::spec_knight_attacks(56) == (1u64 << 41) | (1u64 << 50),
        crate::movegen::attack_tables::spec_knight_attacks(63) == (1u64 << 46) | (1u64 << 53),
        crate::board::bitboard::pop64(crate::movegen::attack_tables::spec_knight_attacks(0)) == 2,
        crate::board::bitboard::pop64(crate::movegen::attack_tables::spec_knight_attacks(7)) == 2,
        crate::board::bitboard::pop64(crate::movegen::attack_tables::spec_knight_attacks(56))
            == 2,
        crate::board::bitboard::pop64(crate::movegen::attack_tables::spec_knight_attacks(63))
            == 2,
{
    reveal_with_fuel(crate::board::bitboard::pop64, 4);
    assert(crate::movegen::attack_tables::spec_knight_attacks(0) == (1u64 << 10) | (1u64 << 17)
        && crate::movegen::attack_tables::spec_knight_attacks(7) == (1u64 << 13) | (1u64 << 22)
        && crate::movegen::attack_tables::spec_knight_attacks(56) == (1u64 << 41) | (1u64 << 50)
        && crate::movegen::attack_tables::spec_knight_attacks(63) == (1u64 << 46) | (1u64
        << 53)) by (bit_vector);
    assert(clear_lsb64((1u64 << 10) | (1u64 << 17)) == (1u64 << 17) && clear_lsb64(1u64 << 17)
        == 0 && clear_lsb64((1u64 << 13) | (1u64 << 22)) == (1u64 << 22) && clear_lsb64(
        1u64 << 22,
    ) == 0 && clear_lsb64((1u64 << 41) | (1u64 << 50)) == (1u64 << 50) && clear_lsb64(
        1u64 << 50,
    ) == 0 && clear_lsb64((1u64 << 46) | (1u64 << 53)) == (1u64 << 53) && clear_lsb64(
        1u64 << 53,
    ) == 0 && (1u64 << 10) | (1u64 << 17) != 0 && 1u64 << 17 != 0 && (1u64 << 13) | (1u64 << 22)
        != 0 && 1u64 << 22 != 0 && (1u64 << 41) | (1u64 << 50) != 0 && 1u64 << 50 != 0 && (1u64
        << 46) | (1u64 << 53) != 0 && 1u64 << 53 != 0) by (bit_vector);
}

/// The queenside castling move is emitted only when the b-file square
/// beside the rook is empty: b1 for white, b8 for black.
#[verifier::rlimit(90)]
pub proof fn lemma_queenside_needs_b_file_empty(v: BoardV)
    requires
        position_ok(v),
    ensures
        forall|i: int|
            0 <= i < spec_castle_moves(v).len() && mv_dest(#[trigger] spec_castle_moves(v)[i])
                == 2 ==> v.pieces[1].0 == 0,
        forall|i: int|
            0 <= i < spec_castle_moves(v).len() && mv_dest(#[trigger] spec_castle_moves(v)[i])
                == 58 ==> v.pieces[57].0 == 0,
{
    lemma_bit_ops();
    assert forall|s: u8| s < 64 && spec_occ(v) & sq_mask(s) == 0 implies v.pieces[s as int].0
        == 0 by {
        assert(square_consistent(v, s as u64));
        if bit64(spec_occ(v), s as u64) {
            assert(bit64(spec_occ(v) & sq_mask(s), s as u64));
        }
    }
    assert forall|i: int|
        0 <= i < spec_castle_moves(v).len() && mv_dest(#[trigger] spec_castle_moves(v)[i])
            == 2 implies v.pieces[1].0 == 0 by {
        lemma_move_roundtrip(3, 4, 6);
        lemma_move_roundtrip(3, 4, 2);
        lemma_move_roundtrip(3, 60, 62);
        lemma_move_roundtrip(3, 60, 58);
    }
    assert forall|i: int|
        0 <= i < spec_castle_moves(v).len() && mv_dest(#[trigger] spec_castle_moves(v)[i])
            == 58 implies v.pieces[57].0 == 0 by {
        lemma_move_roundtrip(3, 4, 6);
        lemma_move_roundtrip(3, 4, 2);
        lemma_move_roundtrip(3, 60, 62);
        lemma_move_roundtrip(3, 60, 58);
    }
}

/// A pawn one rank short of promotion pushes only by promoting: with the
/// square ahead empty, its push part is exactly the four promotion moves to
/// that square, and every capture it makes lands on the last rank and
/// carries a promotion flag.
pub proof fn lemma_last_rank_promotes(v: BoardV, src: u8, caps: u64, white: bool)
    requires
        position_ok(v),
        src < 64,
        white == (v.color_to_move.0 == 1),
        white ==> src / 8 == 6,
        !white ==> src / 8 == 1,
    ensures
        (if white {
            v.pieces[(src + 8) as int].0 == 0
        } else {
            v.pieces[(src - 8) as int].0 == 0
        }) ==> spec_pawn_push(v, src, white) == spec_promo_seq(
            src,
            if white {
                (src + 8) as u8
            } else {
                (src - 8) as u8
            },
        ),
        (forall|i: u64| #[trigger] bit64(caps, i) ==> (if white {
            i / 8 == 7
        } else {
            i / 8 == 0
        })) ==> forall|j: int|
            0 <= j < spec_pawn_caps(src, caps, white).len() ==> 4 <= mv_flag(
                #[trigger] spec_pawn_caps(src, caps, white)[j],
            ) <= 7,
    decreases caps,
{
    lemma_bit_ops();
    lemma_step_bits();
    let m = sq_mask(src);
    assert(bit64(m, src as u64));
    let ahead = if white {
        (src + 8) as u8
    } else {
        (src - 8) as u8
    };
    let one = if white {
        spec_step(m, 8)
    } else {
        spec_step(m, -8i8)
    };
    assert(bit64(one, ahead as u64));
    if (if white {
        v.pieces[(src + 8) as int].0 == 0
    } else {
        v.pieces[(src - 8) as int].0 == 0
    }) {
        assert(square_consistent(v, ahead as u64));
        assert(bit64(!spec_occ(v), ahead as u64));
        assert(one & !spec_occ(v) != 0) by {
            assert(bit64(one & !spec_occ(v), ahead as u64));
        }
        lemma_lsb_facts(one);
        assert(lsb64(one) == ahead as u64);
    }
    if forall|i: u64| #[trigger] bit64(caps, i) ==> (if white {
        i / 8 == 7
    } else {
        i / 8 == 0
    }) {
        if caps != 0 {
            lemma_lsb_facts(caps);
            lemma_clear_lsb_bits(caps);
            crate::board::bitboard::lemma_clear_lsb_lt(caps);
            let dest = lsb64(caps) as u8;
            assert(bit64(caps, dest as u64));
            lemma_move_roundtrip(7, src, dest);
            lemma_move_roundtrip(6, src, dest);
            lemma_move_roundtrip(5, src, dest);
            lemma_move_roundtrip(4, src, dest);
            lemma_last_rank_promotes(v, src, clear_lsb64(caps), white);
            assert forall|j: int|
                0 <= j < spec_pawn_caps(src, caps, white).len() implies 4 <= mv_flag(
                #[trigger] spec_pawn_caps(src, caps, white)[j],
            ) <= 7 by {
                let head = spec_promo_seq(src, dest);
                if j < head.len() {
                    assert(spec_pawn_caps(src, caps, white)[j] == head[j]);
                } else {
                    assert(spec_pawn_caps(src, caps, white)[j] == spec_pawn_caps(
                        src,
                        clear_lsb64(caps),
                        white,
                    )[j - head.len()]);
                }
            }
        }
    }
}

} // verus!
