//! The invariant laws of the position transition: applying any sanely
//! generated move to a well-formed position yields a well-formed position,
//! flips the side to move, never gains a castling right, and keeps the
//! en-passant square sound.

use crate::board::bitboard::{bit64, lemma_bit_ops, pop64};
use crate::board::model::{
    bv_place_at, bv_remove_at, occupied_count, castle_rook_dest, castle_rook_src, consistent,
    corner_rights_cleared, ep_capture_square, ep_ok, move_sane, position_ok, promotion_kind,
    quiet_ep, rook_rights_ok, source_rights, spec_capture_move, spec_castling_move,
    spec_en_passant_move, spec_make_move, sq_mask, square_consistent, BoardV,
};
use crate::game::defs::cr_subset;
use crate::game::game_move::{lemma_mv_bounds, mv_dest, mv_flag, mv_source, Move};
use crate::piece::Piece;
use vstd::prelude::*;

verus! {

/// Removing the piece on a square keeps the three encodings in agreement.
proof fn lemma_remove_preserves(v: BoardV, s: u8)
    requires
        consistent(v),
        s < 64,
        v.pieces[s as int].0 != 0,
    ensures
        consistent(bv_remove_at(v, s)),
        bv_remove_at(v, s).pieces == v.pieces.update(s as int, Piece(0)),
{
    lemma_bit_ops();
    assert(square_consistent(v, s as u64));
    let p = v.pieces[s as int];
    assert(p.valid());
    let k = p.spec_kind_index();
    let c = p.spec_color().spec_index();
    assert(0 <= k < 6 && 0 <= c < 2);
    let w = bv_remove_at(v, s);
    assert forall|t: u64| t < 64 implies square_consistent(w, t) by {
        assert(square_consistent(v, t));
        assert(square_consistent(v, s as u64));
        assert(forall|kk: int| 0 <= kk < 6 && kk != k ==> w.bb_pieces[kk] == v.bb_pieces[kk]);
        assert(forall|cc: int| 0 <= cc < 2 && cc != c ==> w.bb_colors[cc] == v.bb_colors[cc]);
        assert(bit64(sq_mask(s), t) <==> t == s);
        assert(bit64(w.bb_pieces[k], t) <==> (bit64(v.bb_pieces[k], t) && t != s));
        assert(bit64(w.bb_colors[c], t) <==> (bit64(v.bb_colors[c], t) && t != s));
    }
}

/// Placing a piece on an empty square keeps the three encodings in
/// agreement.
pub proof fn lemma_place_preserves(v: BoardV, s: u8, p: Piece)
    requires
        consistent(v),
        s < 64,
        v.pieces[s as int].0 == 0,
        p.valid(),
        p.0 != 0,
    ensures
        consistent(bv_place_at(v, s, p)),
        bv_place_at(v, s, p).pieces == v.pieces.update(s as int, p),
{
    lemma_bit_ops();
    assert(square_consistent(v, s as u64));
    let k = p.spec_kind_index();
    let c = p.spec_color().spec_index();
    assert(0 <= k < 6 && 0 <= c < 2);
    let w = bv_place_at(v, s, p);
    assert forall|t: u64| t < 64 implies square_consistent(w, t) by {
        assert(square_consistent(v, t));
        assert(square_consistent(v, s as u64));
        assert(forall|kk: int| 0 <= kk < 6 && kk != k ==> w.bb_pieces[kk] == v.bb_pieces[kk]);
        assert(forall|cc: int| 0 <= cc < 2 && cc != c ==> w.bb_colors[cc] == v.bb_colors[cc]);
        assert(bit64(sq_mask(s), t) <==> t == s);
        assert(bit64(w.bb_pieces[k], t) <==> (bit64(v.bb_pieces[k], t) || t == s));
        assert(bit64(w.bb_colors[c], t) <==> (bit64(v.bb_colors[c], t) || t == s));
    }
}

/// Two views that place the same pieces on the same boards are consistent
/// together: the cross-index invariant reads nothing but the three
/// encodings.
pub proof fn lemma_same_placement(a: BoardV, b: BoardV)
    requires
        consistent(a),
        a.bb_pieces == b.bb_pieces,
        a.bb_colors == b.bb_colors,
        a.pieces == b.pieces,
    ensures
        consistent(b),
{
    assert forall|t: u64| t < 64 implies square_consistent(b, t) by {
        assert(square_consistent(a, t));
    }
}

/// The transition succeeds on every sanely generated move: a sane move
/// passes the mover check and finds its victim or its rook where the
/// procedure looks for them.
pub proof fn lemma_make_move_ok(v: BoardV, m: Move)
    requires
        consistent(v),
        move_sane(v, m),
    ensures
        spec_make_move(v, m) is Ok,
{
    lemma_mv_bounds(m);
    let src = mv_source(m);
    let dest = mv_dest(m);
    let flag = mv_flag(m);
    let mover = v.pieces[src as int];
    let color = mover.spec_color();
    let lifted = bv_remove_at(v, src);
    if flag == 1 {
        assert(lifted.pieces[dest as int] == v.pieces[dest as int]);
    }
    if flag == 2 {
        let cap = ep_capture_square(dest, color);
        assert(cap != src);
        assert(lifted.pieces[cap as int] == v.pieces[cap as int]);
    }
}

/// After any successful transition the side to move is the opposite of the
/// side that moved.
pub proof fn lemma_side_alternates(v: BoardV, m: Move)
    requires
        spec_make_move(v, m) is Ok,
    ensures
        spec_make_move(v, m)->Ok_0.color_to_move == v.color_to_move.spec_other(),
{
}

/// How the transition treats the castling rights, stated bit by bit: the
/// rights after a successful move are a subset of the rights before it and
/// of the source-square adjustment, a king move or a rook move off a home
/// corner clears the matching bits in that adjustment, a castling move
/// clears both of the mover's bits, and a capture of a rook on a home
/// corner (plain or promoting) clears that corner's bit.
pub proof fn lemma_rights_decompose(v: BoardV, m: Move)
    requires
        spec_make_move(v, m) is Ok,
    ensures
        ({
            let src = mv_source(m);
            let dest = mv_dest(m);
            let flag = mv_flag(m);
            let mover = v.pieces[src as int];
            let r0 = v.castling_rights;
            let s1 = source_rights(r0, mover, src);
            let r1 = spec_make_move(v, m)->Ok_0.castling_rights;
            let victim = bv_remove_at(v, src).pieces[dest as int];
            cr_subset(r1, r0) && cr_subset(r1, s1) && (s1 & 1 == 0 ==> r1 & 1 == 0) && (s1 & 2
                == 0 ==> r1 & 2 == 0) && (s1 & 4 == 0 ==> r1 & 4 == 0) && (s1 & 8 == 0 ==> r1 & 8
                == 0) && (r1 & 1 != 0 ==> r0 & 1 != 0) && (r1 & 2 != 0 ==> r0 & 2 != 0) && (r1
                & 4 != 0 ==> r0 & 4 != 0) && (r1 & 8 != 0 ==> r0 & 8 != 0) && (mover.kind() == 6
                ==> (mover.color_bits() == 1 ==> s1 & 1 == 0 && s1 & 2 == 0) && (
            mover.color_bits() != 1 ==> s1 & 4 == 0 && s1 & 8 == 0)) && (mover.kind() == 4 ==> (
            src == 0 ==> s1 & 2 == 0) && (src == 7 ==> s1 & 1 == 0) && (src == 56 ==> s1 & 8
                == 0) && (src == 63 ==> s1 & 4 == 0)) && (flag == 3 ==> (
            mover.spec_color().spec_index() == 0 ==> r1 & 1 == 0 && r1 & 2 == 0) && (
            mover.spec_color().spec_index() != 0 ==> r1 & 4 == 0 && r1 & 8 == 0)) && ((flag == 1
                || 4 <= flag <= 7) && victim.kind() == 4 ==> (dest == 0 ==> r1 & 2 == 0) && (
            dest == 7 ==> r1 & 1 == 0) && (dest == 56 ==> r1 & 8 == 0) && (dest == 63 ==> r1 & 4
                == 0))
        }),
{
    lemma_mv_bounds(m);
    let src = mv_source(m);
    let dest = mv_dest(m);
    let flag = mv_flag(m);
    let mover = v.pieces[src as int];
    let r0 = v.castling_rights;
    let s1 = source_rights(r0, mover, src);
    let r1 = spec_make_move(v, m)->Ok_0.castling_rights;
    let victim = bv_remove_at(v, src).pieces[dest as int];
    let vb = victim.0;
    assert(vb & 7 == 4 ==> vb != 0) by (bit_vector);
    assert(s1 == r0 || s1 == (r0 & !3) || s1 == (r0 & !12) || s1 == (r0 & !2) || s1 == (r0
        & !1) || s1 == (r0 & !8) || s1 == (r0 & !4));
    assert((s1 == r0 || s1 == (r0 & !3) || s1 == (r0 & !12) || s1 == (r0 & !2) || s1 == (r0
        & !1) || s1 == (r0 & !8) || s1 == (r0 & !4)) ==> s1 & !r0 == 0) by (bit_vector);
    assert(r1 == s1 || r1 == (s1 & !3) || r1 == (s1 & !12) || r1 == (s1 & !2) || r1 == (s1
        & !1) || r1 == (s1 & !8) || r1 == (s1 & !4));
    assert((r1 == s1 || r1 == (s1 & !3) || r1 == (s1 & !12) || r1 == (s1 & !2) || r1 == (s1
        & !1) || r1 == (s1 & !8) || r1 == (s1 & !4)) ==> r1 & !s1 == 0) by (bit_vector);
    assert(s1 & !r0 == 0 && r1 & !s1 == 0 ==> r1 & !r0 == 0 && (s1 & 1 == 0 ==> r1 & 1 == 0) && (
    s1 & 2 == 0 ==> r1 & 2 == 0) && (s1 & 4 == 0 ==> r1 & 4 == 0) && (s1 & 8 == 0 ==> r1 & 8
        == 0) && (r1 & 1 != 0 ==> r0 & 1 != 0) && (r1 & 2 != 0 ==> r0 & 2 != 0) && (r1 & 4 != 0
        ==> r0 & 4 != 0) && (r1 & 8 != 0 ==> r0 & 8 != 0)) by (bit_vector);
    assert((r0 & !3) & 3 == 0 && (r0 & !12) & 12 == 0 && (r0 & !2) & 2 == 0 && (r0 & !1) & 1
        == 0 && (r0 & !8) & 8 == 0 && (r0 & !4) & 4 == 0) by (bit_vector);
    assert((s1 & !3) & 3 == 0 && (s1 & !12) & 12 == 0 && (s1 & !2) & 2 == 0 && (s1 & !1) & 1
        == 0 && (s1 & !8) & 8 == 0 && (s1 & !4) & 4 == 0) by (bit_vector);
    assert((r0 & !3) & 1 == 0 && (r0 & !3) & 2 == 0 && (r0 & !12) & 4 == 0 && (r0 & !12) & 8
        == 0) by (bit_vector);
    assert((s1 & !3) & 1 == 0 && (s1 & !3) & 2 == 0 && (s1 & !12) & 4 == 0 && (s1 & !12) & 8
        == 0) by (bit_vector);
    let lifted = bv_remove_at(v, src);
    let v1 = BoardV { castling_rights: source_rights(lifted.castling_rights, mover, src), ..lifted };
    assert(v1.castling_rights == s1);
    if flag == 3 {
        if mover.spec_color().spec_index() == 0 {
            assert(r1 == (s1 & !3));
        } else {
            assert(r1 == (s1 & !12));
        }
    }
    if flag == 1 {
        let v2 = spec_capture_move(v1, dest);
        assert(r1 == v2.castling_rights);
        if victim.kind() == 4 {
            assert(v2.castling_rights == corner_rights_cleared(s1, dest));
        }
    }
    if 4 <= flag <= 7 {
        if victim.0 != 0 {
            let v2 = spec_capture_move(v1, dest);
            assert(r1 == v2.castling_rights);
            if victim.kind() == 4 {
                assert(v2.castling_rights == corner_rights_cleared(s1, dest));
            }
        } else {
            assert(r1 == s1);
        }
    }
    if (flag == 1 || 4 <= flag <= 7) && victim.kind() == 4 {
        assert(r1 == corner_rights_cleared(s1, dest));
        if dest == 0 {
            assert(r1 == (s1 & !2));
        } else if dest == 7 {
            assert(r1 == (s1 & !1));
        } else if dest == 56 {
            assert(r1 == (s1 & !8));
        } else if dest == 63 {
            assert(r1 == (s1 & !4));
        }
    }
    if mover.kind() == 6 {
        if mover.color_bits() == 1 {
            assert(s1 == (r0 & !3));
        } else {
            assert(s1 == (r0 & !12));
        }
    }
    if mover.kind() == 4 {
        if src == 0 {
            assert(s1 == (r0 & !2));
        } else if src == 7 {
            assert(s1 == (r0 & !1));
        } else if src == 56 {
            assert(s1 == (r0 & !8));
        } else if src == 63 {
            assert(s1 == (r0 & !4));
        }
    }
}

/// No transition ever gains a castling right: the rights after a successful
/// move are a subset of the rights before it.
pub proof fn lemma_rights_monotone(v: BoardV, m: Move)
    requires
        spec_make_move(v, m) is Ok,
    ensures
        cr_subset(spec_make_move(v, m)->Ok_0.castling_rights, v.castling_rights),
{
    lemma_rights_decompose(v, m);
}

/// Applying a sanely generated move to a well-formed position yields a
/// well-formed position: the transition succeeds, the cross-index
/// invariant of the three encodings is preserved, the side to move flips,
/// the rights never grow, held castling rights keep their rooks at home,
/// and the en-passant square stays sound.  This is the central
/// preservation law of the transition.
#[verifier::rlimit(80)]
pub proof fn lemma_make_move_preserves(v: BoardV, m: Move)
    requires
        position_ok(v),
        move_sane(v, m),
    ensures
        spec_make_move(v, m) is Ok,
        position_ok(spec_make_move(v, m)->Ok_0),
        spec_make_move(v, m)->Ok_0.color_to_move == v.color_to_move.spec_other(),
        cr_subset(spec_make_move(v, m)->Ok_0.castling_rights, v.castling_rights),
{
    lemma_bit_ops();
    lemma_make_move_ok(v, m);
    lemma_rights_decompose(v, m);
    lemma_mv_bounds(m);
    assert(12u8 & 7 == 4 && 20u8 & 7 == 4 && 12u8 >> 3 == 1 && 20u8 >> 3 == 2) by (bit_vector);
    let src = mv_source(m);
    let dest = mv_dest(m);
    let flag = mv_flag(m);
    let mover = v.pieces[src as int];
    let color = mover.spec_color();
    let lifted = bv_remove_at(v, src);
    let v1 = BoardV { castling_rights: source_rights(lifted.castling_rights, mover, src), ..lifted };
    assert(square_consistent(v, src as u64));
    assert(mover.valid());
    lemma_remove_preserves(v, src);
    lemma_same_placement(lifted, v1);
    assert(consistent(v1));
    let after = spec_make_move(v, m)->Ok_0;
    if flag == 0 {
        let q0 = BoardV { en_passant_square: quiet_ep(mover, color, src, dest), ..v1 };
        lemma_same_placement(v1, q0);
        lemma_place_preserves(q0, dest, mover);
        lemma_same_placement(bv_place_at(q0, dest, mover), after);
        assert(consistent(after));
        assert(after.pieces == v.pieces.update(src as int, Piece(0)).update(dest as int, mover));
    } else if flag == 1 {
        let va = BoardV {
            castling_rights: if v1.pieces[dest as int].kind() == 4 {
                corner_rights_cleared(v1.castling_rights, dest)
            } else {
                v1.castling_rights
            },
            ..v1
        };
        let v2 = spec_capture_move(v1, dest);
        assert(v2 == bv_remove_at(va, dest));
        lemma_same_placement(v1, va);
        lemma_remove_preserves(va, dest);
        assert(consistent(v2));
        let v3 = BoardV { en_passant_square: None, ..v2 };
        lemma_same_placement(v2, v3);
        lemma_place_preserves(v3, dest, mover);
        lemma_same_placement(bv_place_at(v3, dest, mover), after);
        assert(consistent(after));
        assert(after.pieces == v.pieces.update(src as int, Piece(0)).update(
            dest as int,
            Piece(0),
        ).update(dest as int, mover));
    } else if flag == 2 {
        let cap = ep_capture_square(dest, color);
        assert(cap != src && cap != dest && cap < 64);
        let v2 = spec_en_passant_move(v1, dest, color);
        lemma_remove_preserves(v1, cap);
        lemma_same_placement(bv_remove_at(v1, cap), v2);
        assert(consistent(v2));
        lemma_place_preserves(v2, dest, mover);
        lemma_same_placement(bv_place_at(v2, dest, mover), after);
        assert(consistent(after));
        assert(after.pieces == v.pieces.update(src as int, Piece(0)).update(
            cap as int,
            Piece(0),
        ).update(dest as int, mover));
    } else if flag == 3 {
        let rs = castle_rook_src(dest);
        let rd = castle_rook_dest(dest);
        let rook = v1.pieces[rs as int];
        let ci = color.spec_index();
        let v2 = spec_castling_move(v1, dest, ci);
        let w = bv_place_at(bv_remove_at(v1, rs), rd, rook);
        assert(rs != src && rook == v.pieces[rs as int]);
        assert(square_consistent(v, rs as u64));
        assert(rook.valid() && rook.0 != 0);
        assert(rook.spec_color().spec_index() == ci);
        lemma_remove_preserves(v1, rs);
        lemma_place_preserves(bv_remove_at(v1, rs), rd, rook);
        assert(v2.bb_pieces =~= w.bb_pieces);
        assert(v2.bb_colors =~= w.bb_colors);
        assert(v2.pieces =~= w.pieces);
        lemma_same_placement(w, v2);
        assert(consistent(v2));
        assert(v2.pieces[dest as int].0 == 0);
        lemma_place_preserves(v2, dest, mover);
        lemma_same_placement(bv_place_at(v2, dest, mover), after);
        assert(consistent(after));
        assert(after.pieces == v.pieces.update(src as int, Piece(0)).update(
            rd as int,
            rook,
        ).update(rs as int, Piece(0)).update(dest as int, mover));
    } else {
        let victim = v1.pieces[dest as int];
        let va = BoardV {
            castling_rights: if victim.kind() == 4 {
                corner_rights_cleared(v1.castling_rights, dest)
            } else {
                v1.castling_rights
            },
            ..v1
        };
        let v2 = if victim.0 != 0 {
            spec_capture_move(v1, dest)
        } else {
            v1
        };
        if victim.0 != 0 {
            assert(v2 == bv_remove_at(va, dest));
            lemma_same_placement(v1, va);
            lemma_remove_preserves(va, dest);
        }
        assert(consistent(v2));
        let promoted = Piece((color.0 << 3) | promotion_kind(flag));
        assert(promoted.valid() && promoted.0 != 0 && promoted.spec_color() == color) by {
            let c = color.0;
            let k = promotion_kind(flag);
            assert((c == 1 || c == 2) && 2 <= k <= 5 ==> ((c << 3) | k) & 7 == k && ((c << 3)
                | k) >> 3 == c && ((c << 3) | k) != 0) by (bit_vector);
        }
        let v3 = BoardV { en_passant_square: None, ..v2 };
        lemma_same_placement(v2, v3);
        lemma_place_preserves(v3, dest, promoted);
        lemma_same_placement(bv_place_at(v3, dest, promoted), after);
        assert(consistent(after));
        assert(victim.0 != 0 ==> after.pieces == v.pieces.update(src as int, Piece(0)).update(
            dest as int,
            Piece(0),
        ).update(dest as int, promoted));
        assert(victim.0 == 0 ==> after.pieces == v.pieces.update(src as int, Piece(0)).update(
            dest as int,
            promoted,
        ));
    }
    assert(after.color_to_move == v.color_to_move.spec_other());
    assert(ep_ok(after)) by {
        if flag == 0 {
            match quiet_ep(mover, color, src, dest) {
                Some(e) => {
                    assert(mover.kind() == 1);
                    if color.0 == 1 {
                        assert(src / 8 == 1 && dest / 8 == 3);
                        assert(dest == src + 16 && v.pieces[(src + 8) as int].0 == 0);
                        assert(e == src + 8);
                        assert(8 <= src < 16);
                        assert(e / 8 == 2);
                    } else {
                        assert(src / 8 == 6 && dest / 8 == 4);
                        assert(dest + 16 == src && v.pieces[(src - 8) as int].0 == 0);
                        assert(e == src - 8);
                        assert(48 <= src < 56);
                        assert(e / 8 == 5);
                    }
                    assert(e != src && e != dest);
                    assert(after.pieces[e as int].0 == 0);
                },
                None => {},
            }
        }
    }
    assert(rook_rights_ok(after)) by {
        lemma_corner_kept(v, m, 7, 1);
        lemma_corner_kept(v, m, 0, 2);
        lemma_corner_kept(v, m, 63, 4);
        lemma_corner_kept(v, m, 56, 8);
    }
}

/// If a corner's castling right survives a sanely generated move, the move
/// left that corner square untouched, so the rook recorded there before the
/// move still stands there after it.
#[verifier::rlimit(80)]
proof fn lemma_corner_kept(v: BoardV, m: Move, q: u8, beta: u8)
    requires
        position_ok(v),
        move_sane(v, m),
        (q == 7 && beta == 1) || (q == 0 && beta == 2) || (q == 63 && beta == 4) || (q == 56
            && beta == 8),
    ensures
        spec_make_move(v, m)->Ok_0.castling_rights & beta != 0 ==> spec_make_move(
            v,
            m,
        )->Ok_0.pieces[q as int] == v.pieces[q as int] && v.castling_rights & beta != 0,
{
    lemma_make_move_ok(v, m);
    lemma_rights_decompose(v, m);
    lemma_mv_bounds(m);
    assert(12u8 & 7 == 4 && 20u8 & 7 == 4 && 12u8 >> 3 == 1 && 20u8 >> 3 == 2) by (bit_vector);
    let src = mv_source(m);
    let dest = mv_dest(m);
    let flag = mv_flag(m);
    let mover = v.pieces[src as int];
    let color = mover.spec_color();
    let after = spec_make_move(v, m)->Ok_0;
    let r1 = after.castling_rights;
    if r1 & beta != 0 {
        assert(v.castling_rights & beta != 0);
        assert(v.pieces[q as int].0 == (if q < 8 {
            12u8
        } else {
            20u8
        }));
        if src == q {
            assert(mover.kind() == 4);
            assert(false);
        }
        if flag == 0 {
            assert(dest != q);
        } else if flag == 1 {
            if dest == q {
                assert(bv_remove_at(v, src).pieces[dest as int] == v.pieces[q as int]);
                assert(false);
            }
        } else if flag == 2 {
            let cap = ep_capture_square(dest, color);
            assert(dest != q && cap != q);
        } else if flag == 3 {
            let rs = castle_rook_src(dest);
            let rd = castle_rook_dest(dest);
            if color.spec_index() == 0 {
                assert(dest < 8);
                assert(beta == 4 || beta == 8);
                assert(rs != q && rd != q && dest != q);
            } else {
                assert(dest >= 8);
                assert(beta == 1 || beta == 2);
                assert(rs != q && rd != q && dest != q);
            }
        } else {
            if dest == q {
                assert(bv_remove_at(v, src).pieces[dest as int] == v.pieces[q as int]);
                assert(false);
            }
        }
    }
}


/// A word whose set bits are exactly the occupied mailbox squares counts
/// them.
proof fn lemma_count_matches(v: BoardV, x: u64, n: int)
    requires
        n <= 64,
        forall|s: u64| s < n ==> (bit64(x, s) <==> (#[trigger] v.pieces[s as int]).0 != 0),
    ensures
        crate::board::bitboard::count_bits_below(x, n) == occupied_count(v, n),
    decreases n,
{
    if n > 0 {
        lemma_count_matches(v, x, n - 1);
    }
}

/// The three encodings count the same pieces: the union of the six kind
/// boards, the union of the two color boards, and the occupied mailbox
/// entries all have the same cardinality.
pub proof fn lemma_counts_agree(v: BoardV)
    requires
        consistent(v),
    ensures
        pop64(
            v.bb_pieces[0] | v.bb_pieces[1] | v.bb_pieces[2] | v.bb_pieces[3] | v.bb_pieces[4]
                | v.bb_pieces[5],
        ) == occupied_count(v, 64),
        pop64(v.bb_colors[0] | v.bb_colors[1]) == occupied_count(v, 64),
{
    lemma_bit_ops();
    let up = v.bb_pieces[0] | v.bb_pieces[1] | v.bb_pieces[2] | v.bb_pieces[3] | v.bb_pieces[4]
        | v.bb_pieces[5];
    let uc = v.bb_colors[0] | v.bb_colors[1];
    assert forall|s: u64| s < 64 implies (bit64(up, s) <==> (#[trigger] v.pieces[s as int]).0
        != 0) by {
        assert(square_consistent(v, s));
    }
    assert forall|s: u64| s < 64 implies (bit64(uc, s) <==> (#[trigger] v.pieces[s as int]).0
        != 0) by {
        assert(square_consistent(v, s));
    }
    lemma_count_matches(v, up, 64);
    lemma_count_matches(v, uc, 64);
    crate::board::bitboard::lemma_pop64_count(up);
    crate::board::bitboard::lemma_pop64_count(uc);
}

/// Moving the king gives up both of the mover's castling rights.
pub proof fn lemma_king_move_clears_rights(v: BoardV, m: Move)
    requires
        spec_make_move(v, m) is Ok,
        v.pieces[mv_source(m) as int].kind() == 6,
    ensures
        v.pieces[mv_source(m) as int].color_bits() == 1 ==> spec_make_move(
            v,
            m,
        )->Ok_0.castling_rights & 1 == 0 && spec_make_move(v, m)->Ok_0.castling_rights & 2 == 0,
        v.pieces[mv_source(m) as int].color_bits() != 1 ==> spec_make_move(
            v,
            m,
        )->Ok_0.castling_rights & 4 == 0 && spec_make_move(v, m)->Ok_0.castling_rights & 8 == 0,
{
    lemma_rights_decompose(v, m);
}

/// Capturing whatever stands on a rook home corner, when it is a rook,
/// gives up that corner's castling right, on a plain capture and on a
/// capturing promotion alike.
pub proof fn lemma_corner_capture_clears_rights(v: BoardV, m: Move)
    requires
        spec_make_move(v, m) is Ok,
        mv_flag(m) == 1 || 4 <= mv_flag(m) <= 7,
        bv_remove_at(v, mv_source(m)).pieces[mv_dest(m) as int].kind() == 4,
    ensures
        mv_dest(m) == 0 ==> spec_make_move(v, m)->Ok_0.castling_rights & 2 == 0,
        mv_dest(m) == 7 ==> spec_make_move(v, m)->Ok_0.castling_rights & 1 == 0,
        mv_dest(m) == 56 ==> spec_make_move(v, m)->Ok_0.castling_rights & 8 == 0,
        mv_dest(m) == 63 ==> spec_make_move(v, m)->Ok_0.castling_rights & 4 == 0,
{
    lemma_rights_decompose(v, m);
}

/// The en-passant target left by a sanely generated move names the pawn
/// that just double-pushed: it lies on the capturable rank for the new
/// side to move, and the pawn of the side that moved stands one rank
/// behind it.
pub proof fn lemma_en_passant_target(v: BoardV, m: Move)
    requires
        position_ok(v),
        move_sane(v, m),
    ensures
        spec_make_move(v, m) is Ok,
        match spec_make_move(v, m)->Ok_0.en_passant_square {
            Some(e) => {
                let after = spec_make_move(v, m)->Ok_0;
                (after.color_to_move.0 == 2 ==> e / 8 == 2 && after.pieces[(e + 8) as int]
                    == Piece(9)) && (after.color_to_move.0 == 1 ==> e / 8 == 5 && after.pieces[(
                e - 8) as int] == Piece(17))
            },
            None => true,
        },
{
    lemma_make_move_preserves(v, m);
    lemma_mv_bounds(m);
    let src = mv_source(m);
    let dest = mv_dest(m);
    let flag = mv_flag(m);
    let mover = v.pieces[src as int];
    let color = mover.spec_color();
    let after = spec_make_move(v, m)->Ok_0;
    if flag == 0 {
        match quiet_ep(mover, color, src, dest) {
            Some(e) => {
                assert(mover.kind() == 1 && mover.valid());
                if color.0 == 1 {
                    assert(mover == Piece(9)) by {
                        let b = mover.0;
                        assert(b & 7 == 1 && b >> 3 == 1 ==> b == 9) by (bit_vector);
                    }
                    assert(dest == src + 16 && e == src + 8);
                    assert(after.pieces[dest as int] == mover);
                } else {
                    assert(mover == Piece(17)) by {
                        let b = mover.0;
                        assert(b & 7 == 1 && b >> 3 == 2 ==> b == 17) by (bit_vector);
                    }
                    assert(dest + 16 == src && e == src - 8);
                    assert(after.pieces[dest as int] == mover);
                }
            },
            None => {},
        }
    }
}

} // verus!
