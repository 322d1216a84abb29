//! Construction of a position from the standard textual position record:
//! six whitespace-separated fields giving the placement, the active color,
//! the castling rights, the en-passant target, and the two move clocks.
//! The parser accepts exactly the well-formed records ([`record_ok`]); a
//! successfully parsed position is proved to satisfy the cross-index
//! consistency invariant and to carry exactly what the fields say, while
//! whole-position conditions the record format does not express (rooks and
//! kings behind held rights, an empty en-passant square) are accepted
//! literally and checked separately by [`Board::position_valid`].

use crate::board::bitboard::{bit64, lemma_bit_ops, Bitboard};
use crate::board::defs::Square;
use crate::board::laws::{lemma_place_preserves, lemma_same_placement};
use crate::board::model::{bv_place_at, consistent, empty_board_v, square_consistent, BoardV};
use crate::board::Board;
use crate::color::Color;
use crate::game::defs::CastlingRights;
use crate::piece::Piece;
use vstd::prelude::*;
use vstd::string::StringSliceAdditionalSpecFns;

verus! {

/// An ASCII whitespace byte, as the field separator of the record.
pub open spec fn is_ws(b: u8) -> bool {
    b == 32 || b == 9 || b == 10 || b == 13 || b == 11 || b == 12
}


/// The first index at or after `i` that does not hold a separator.
pub open spec fn spec_skip_ws(s: Seq<u8>, i: int) -> int
    decreases s.len() - i,
{
    if 0 <= i < s.len() && is_ws(s[i]) {
        spec_skip_ws(s, i + 1)
    } else {
        i
    }
}

/// The first index at or after `i` that holds a separator, or the end.
pub open spec fn spec_token_end(s: Seq<u8>, i: int) -> int
    decreases s.len() - i,
{
    if 0 <= i < s.len() && !is_ws(s[i]) {
        spec_token_end(s, i + 1)
    } else {
        i
    }
}

/// The bounds of the record's field number `k`, counting from zero.
pub open spec fn field_bounds(s: Seq<u8>, k: nat) -> (int, int)
    decreases k,
{
    if k == 0 {
        let ts = spec_skip_ws(s, 0);
        (ts, spec_token_end(s, ts))
    } else {
        let prev = field_bounds(s, (k - 1) as nat);
        let ts = spec_skip_ws(s, prev.1);
        (ts, spec_token_end(s, ts))
    }
}

/// The decimal value of the digits in `[i, te)` on top of `acc`, or
/// nothing when a byte is no digit.
pub open spec fn spec_digits_value(s: Seq<u8>, i: int, te: int, acc: int) -> Option<int>
    decreases te - i,
{
    if i >= te {
        Some(acc)
    } else if 48 <= s[i] <= 57 {
        spec_digits_value(s, i + 1, te, acc * 10 + (s[i] - 48))
    } else {
        None
    }
}

/// Appending digits never shrinks the value being read.
proof fn lemma_digits_monotone(s: Seq<u8>, i: int, te: int, acc: int)
    requires
        acc >= 0,
        spec_digits_value(s, i, te, acc) is Some,
    ensures
        spec_digits_value(s, i, te, acc)->Some_0 >= acc,
    decreases te - i,
{
    if i < te && 48 <= s[i] <= 57 {
        lemma_digits_monotone(s, i + 1, te, acc * 10 + (s[i] - 48));
    }
}

/// The castling-rights bits named by the letters in `[i, te)` on top of
/// `acc`, or nothing when a letter is unknown.
pub open spec fn spec_rights_value(s: Seq<u8>, i: int, te: int, acc: u8) -> Option<u8>
    decreases te - i,
{
    if i >= te {
        Some(acc)
    } else if s[i] == 75 {
        spec_rights_value(s, i + 1, te, acc | 1)
    } else if s[i] == 81 {
        spec_rights_value(s, i + 1, te, acc | 2)
    } else if s[i] == 107 {
        spec_rights_value(s, i + 1, te, acc | 4)
    } else if s[i] == 113 {
        spec_rights_value(s, i + 1, te, acc | 8)
    } else {
        None
    }
}

/// Skip separators and return the bounds of the next field, or `None` at
/// the end of the record.
fn next_token(bytes: &[u8], from: usize) -> (r: Option<(usize, usize)>)
    requires
        from <= bytes@.len(),
    ensures
        ({
            let sts = spec_skip_ws(bytes@, from as int);
            if sts == bytes@.len() {
                r is None
            } else {
                r == Some((sts as usize, spec_token_end(bytes@, sts) as usize))
            }
        }),
        match r {
            Some((ts, te)) => from <= ts < te <= bytes@.len(),
            None => true,
        },
{
    let n = bytes.len();
    let mut ts = from;
    while ts < n && (bytes[ts] == 32 || bytes[ts] == 9 || bytes[ts] == 10 || bytes[ts] == 13
        || bytes[ts] == 11 || bytes[ts] == 12)
        invariant
            from <= ts <= n,
            n == bytes@.len(),
            spec_skip_ws(bytes@, from as int) == spec_skip_ws(bytes@, ts as int),
        decreases n - ts,
    {
        ts = ts + 1;
    }
    assert(spec_skip_ws(bytes@, ts as int) == ts);
    if ts == n {
        return None;
    }
    let mut te = ts;
    while te < n && !(bytes[te] == 32 || bytes[te] == 9 || bytes[te] == 10 || bytes[te] == 13
        || bytes[te] == 11 || bytes[te] == 12)
        invariant
            ts <= te <= n,
            n == bytes@.len(),
            spec_token_end(bytes@, ts as int) == spec_token_end(bytes@, te as int),
        decreases n - te,
    {
        te = te + 1;
    }
    assert(spec_token_end(bytes@, te as int) == te);
    Some((ts, te))
}

/// Read an unsigned decimal integer no larger than `max` from one field.
fn parse_clock(bytes: &[u8], ts: usize, te: usize, max: u32) -> (r: Result<u32, String>)
    requires
        ts < te <= bytes@.len(),
        max <= 0xFFFF,
    ensures
        match spec_digits_value(bytes@, ts as int, te as int, 0) {
            Some(v) => if v <= max {
                r == Ok::<u32, String>(v as u32)
            } else {
                r is Err
            },
            None => r is Err,
        },
{
    let mut value: u32 = 0;
    let mut i = ts;
    while i < te
        invariant
            ts <= i <= te <= bytes@.len(),
            value <= max,
            max <= 0xFFFF,
            spec_digits_value(bytes@, ts as int, te as int, 0) == spec_digits_value(
                bytes@,
                i as int,
                te as int,
                value as int,
            ),
        decreases te - i,
    {
        let d = bytes[i];
        if d < 48 || d > 57 {
            return Err("the clock field holds a character that is no digit".to_owned());
        }
        let step = value * 10 + ((d - 48) as u32);
        if step > max {
            proof {
                match spec_digits_value(bytes@, i + 1, te as int, step as int) {
                    Some(v) => {
                        lemma_digits_monotone(bytes@, i + 1, te as int, step as int);
                    },
                    None => {},
                }
            }
            return Err("the clock field is out of range".to_owned());
        }
        value = step;
        i = i + 1;
    }
    Ok(value)
}



/// The piece a placement letter names, as a colored piece code: upper case
/// for white, lower case for black.
pub open spec fn letter_piece(b: u8) -> Option<Piece> {
    if b == 80 {
        Some(Piece((1u8 << 3) | 1))
    } else if b == 78 {
        Some(Piece((1u8 << 3) | 2))
    } else if b == 66 {
        Some(Piece((1u8 << 3) | 3))
    } else if b == 82 {
        Some(Piece((1u8 << 3) | 4))
    } else if b == 81 {
        Some(Piece((1u8 << 3) | 5))
    } else if b == 75 {
        Some(Piece((1u8 << 3) | 6))
    } else if b == 112 {
        Some(Piece((2u8 << 3) | 1))
    } else if b == 110 {
        Some(Piece((2u8 << 3) | 2))
    } else if b == 98 {
        Some(Piece((2u8 << 3) | 3))
    } else if b == 114 {
        Some(Piece((2u8 << 3) | 4))
    } else if b == 113 {
        Some(Piece((2u8 << 3) | 5))
    } else if b == 107 {
        Some(Piece((2u8 << 3) | 6))
    } else {
        None
    }
}

/// The board the placement field `[i, te)` builds on top of `v`, reading
/// with a cursor at `rank` and `file`: a digit skips files, a slash starts
/// the next rank down, a piece letter inside the board places its piece,
/// and anything else fails the parse.
pub open spec fn spec_place(s: Seq<u8>, i: int, te: int, v: BoardV, rank: int, file: int) -> Option<
    BoardV,
>
    decreases te - i,
{
    if i >= te {
        Some(v)
    } else if s[i] == 47 {
        spec_place(s, i + 1, te, v, if rank > -1 {
            rank - 1
        } else {
            rank
        }, 0)
    } else if 48 <= s[i] <= 57 {
        let nf = file + (s[i] - 48);
        spec_place(s, i + 1, te, v, rank, if nf > 8 {
            8
        } else {
            nf
        })
    } else if 0 <= rank && file < 8 && letter_piece(s[i]) is Some {
        spec_place(
            s,
            i + 1,
            te,
            bv_place_at(v, (rank * 8 + file) as u8, letter_piece(s[i])->Some_0),
            rank,
            file + 1,
        )
    } else {
        None
    }
}

/// The two scanning functions stay within the record.
proof fn lemma_scan_bounds(s: Seq<u8>, i: int)
    requires
        0 <= i <= s.len(),
    ensures
        i <= spec_skip_ws(s, i) <= s.len(),
        i <= spec_token_end(s, i) <= s.len(),
    decreases s.len() - i,
{
    if i < s.len() {
        lemma_scan_bounds(s, i + 1);
    }
}

/// What the metadata fields of a successfully parsed record say: the
/// second field names the side to move, the third field's letters give the
/// castling rights, the fourth gives the en-passant square or a dash, and
/// the last two fields are the decimal move clocks.
pub open spec fn parsed_meta(s: Seq<u8>, b: BoardV) -> bool {
    let f1 = field_bounds(s, 1);
    let f2 = field_bounds(s, 2);
    let f3 = field_bounds(s, 3);
    let f4 = field_bounds(s, 4);
    let f5 = field_bounds(s, 5);
    f1.1 - f1.0 == 1 && (s[f1.0] == 119 || s[f1.0] == 98) && b.color_to_move == (if s[f1.0]
        == 119 {
        Color(1)
    } else {
        Color(2)
    }) && (if f2.1 - f2.0 == 1 && s[f2.0] == 45 {
        b.castling_rights == 0
    } else {
        spec_rights_value(s, f2.0, f2.1, 0) == Some(b.castling_rights)
    }) && (if f3.1 - f3.0 == 1 && s[f3.0] == 45 {
        b.en_passant_square is None
    } else {
        f3.1 - f3.0 == 2 && 97 <= s[f3.0] <= 104 && 49 <= s[f3.0 + 1] <= 56
            && b.en_passant_square == Some((((s[f3.0 + 1] - 49) * 8 + (s[f3.0] - 97))) as u8)
    }) && spec_digits_value(s, f4.0, f4.1, 0) == Some(b.halfmove_clock as int)
        && spec_digits_value(s, f5.0, f5.1, 0) == Some(b.fullmove_number as int)
}


/// A well-formed position record: six fields are present, the placement
/// field builds a board, the active color is one of the two sides, the
/// castling field is a dash or known right letters, the en-passant field
/// is a dash or a board square on the capturable rank for the side to
/// move, and the two clocks are decimal numbers in range.  The parser
/// accepts exactly these records.
pub open spec fn record_ok(s: Seq<u8>) -> bool {
    let f0 = field_bounds(s, 0);
    let f1 = field_bounds(s, 1);
    let f2 = field_bounds(s, 2);
    let f3 = field_bounds(s, 3);
    let f4 = field_bounds(s, 4);
    let f5 = field_bounds(s, 5);
    let white = s[f1.0] == 119;
    f0.0 < s.len() && f1.0 < s.len() && f2.0 < s.len() && f3.0 < s.len() && f4.0 < s.len()
        && f5.0 < s.len() && spec_place(
        s,
        f0.0,
        f0.1,
        crate::board::model::empty_board_v(),
        7,
        0,
    ) is Some && f1.1 - f1.0 == 1 && (s[f1.0] == 119 || s[f1.0] == 98) && ((f2.1 - f2.0 == 1
        && s[f2.0] == 45) || spec_rights_value(s, f2.0, f2.1, 0) is Some) && ((f3.1 - f3.0 == 1
        && s[f3.0] == 45) || (f3.1 - f3.0 == 2 && 97 <= s[f3.0] <= 104 && 49 <= s[f3.0 + 1]
        <= 56 && (white ==> s[f3.0 + 1] == 54) && (!white ==> s[f3.0 + 1] == 51))) && (
    match spec_digits_value(s, f4.0, f4.1, 0) {
        Some(v) => v <= 255,
        None => false,
    }) && (match spec_digits_value(s, f5.0, f5.1, 0) {
        Some(v) => v <= 0xFFFF,
        None => false,
    })
}

/// Every mailbox entry at or above the placement cursor, in the record's
/// top-down order, is still empty: entries are filled left to right on
/// descending ranks, so the square about to be written never holds a piece.
spec fn ahead_empty(v: BoardV, rank: int, file: int) -> bool {
    forall|s: int|
        0 <= s < 64 && (#[trigger] v.pieces[s]).0 != 0 ==> (s / 8 > rank || (s / 8 == rank && s
            % 8 < file))
}

impl Board {
    /// Parse a position record.  On success the returned position's three
    /// piece encodings agree, its side to move is a real side, its
    /// en-passant square, when present, is a board square on the capturable
    /// rank for the side to move, and the metadata fields carry exactly
    /// what the record's second through sixth fields say.
    pub fn from_fen(fen: &str) -> (r: Result<Board, String>)
        ensures
            r matches Ok(b) ==> consistent(b@) && b@.color_to_move.valid() && (match b@
                .en_passant_square {
                Some(e) => e < 64 && (b@.color_to_move.0 == 1 ==> e / 8 == 5) && (b@
                    .color_to_move.0 == 2 ==> e / 8 == 2),
                None => true,
            }) && parsed_meta(fen.spec_bytes(), b@) && (match spec_place(
                fen.spec_bytes(),
                field_bounds(fen.spec_bytes(), 0).0,
                field_bounds(fen.spec_bytes(), 0).1,
                crate::board::model::empty_board_v(),
                7,
                0,
            ) {
                Some(p) => b@.bb_pieces == p.bb_pieces && b@.bb_colors == p.bb_colors
                    && b@.pieces == p.pieces,
                None => false,
            }),
            r is Ok <==> record_ok(fen.spec_bytes()),
    {
        let bytes = fen.as_bytes();
        // the record's length bounds every scan index
        let ghost record_len = bytes.len();
        proof {
            lemma_scan_bounds(bytes@, 0);
            lemma_scan_bounds(bytes@, spec_skip_ws(bytes@, 0));
        }
        let t1 = next_token(bytes, 0);
        let (p1s, p1e) = match t1 {
            Some(t) => t,
            None => {
                proof {
                    assert(field_bounds(bytes@, 0).0 == bytes@.len());
                    assert(!record_ok(bytes@));
                }
                return Err("the record must have 6 fields".to_owned());
            },
        };
        proof {
            assert((p1s as int, p1e as int) == field_bounds(bytes@, 0));
            lemma_scan_bounds(bytes@, p1e as int);
            lemma_scan_bounds(bytes@, spec_skip_ws(bytes@, p1e as int));
        }
        let t2 = next_token(bytes, p1e);
        let (p2s, p2e) = match t2 {
            Some(t) => t,
            None => {
                proof {
                    assert(field_bounds(bytes@, 1).0 == bytes@.len());
                    assert(!record_ok(bytes@));
                }
                return Err("the record must have 6 fields".to_owned());
            },
        };
        proof {
            assert((p2s as int, p2e as int) == field_bounds(bytes@, 1));
            lemma_scan_bounds(bytes@, p2e as int);
            lemma_scan_bounds(bytes@, spec_skip_ws(bytes@, p2e as int));
        }
        let t3 = next_token(bytes, p2e);
        let (p3s, p3e) = match t3 {
            Some(t) => t,
            None => {
                proof {
                    assert(field_bounds(bytes@, 2).0 == bytes@.len());
                    assert(!record_ok(bytes@));
                }
                return Err("the record must have 6 fields".to_owned());
            },
        };
        proof {
            assert((p3s as int, p3e as int) == field_bounds(bytes@, 2));
            lemma_scan_bounds(bytes@, p3e as int);
            lemma_scan_bounds(bytes@, spec_skip_ws(bytes@, p3e as int));
        }
        let t4 = next_token(bytes, p3e);
        let (p4s, p4e) = match t4 {
            Some(t) => t,
            None => {
                proof {
                    assert(field_bounds(bytes@, 3).0 == bytes@.len());
                    assert(!record_ok(bytes@));
                }
                return Err("the record must have 6 fields".to_owned());
            },
        };
        proof {
            assert((p4s as int, p4e as int) == field_bounds(bytes@, 3));
            lemma_scan_bounds(bytes@, p4e as int);
            lemma_scan_bounds(bytes@, spec_skip_ws(bytes@, p4e as int));
        }
        let t5 = next_token(bytes, p4e);
        let (p5s, p5e) = match t5 {
            Some(t) => t,
            None => {
                proof {
                    assert(field_bounds(bytes@, 4).0 == bytes@.len());
                    assert(!record_ok(bytes@));
                }
                return Err("the record must have 6 fields".to_owned());
            },
        };
        proof {
            assert((p5s as int, p5e as int) == field_bounds(bytes@, 4));
            lemma_scan_bounds(bytes@, p5e as int);
            lemma_scan_bounds(bytes@, spec_skip_ws(bytes@, p5e as int));
        }
        let t6 = next_token(bytes, p5e);
        let (p6s, p6e) = match t6 {
            Some(t) => t,
            None => {
                proof {
                    assert(field_bounds(bytes@, 5).0 == bytes@.len());
                    assert(!record_ok(bytes@));
                }
                return Err("the record must have 6 fields".to_owned());
            },
        };
        proof {
            assert((p6s as int, p6e as int) == field_bounds(bytes@, 5));
        }
        let mut board = Board::empty();
        proof {
            lemma_bit_ops();
            assert forall|t: u64| t < 64 implies square_consistent(board@, t) by {
                assert(!bit64(0u64, t));
            }
            assert(consistent(board@));
            assert(ahead_empty(board@, 7, 0));
        }
        let mut rank: i32 = 7;
        let mut file: u8 = 0;
        let mut i = p1s;
        proof {
            assert(board@ == empty_board_v());
        }
        while i < p1e
            invariant
                p1s <= i <= p1e <= bytes@.len(),
                bytes@ == fen.spec_bytes(),
                (p1s as int, p1e as int) == field_bounds(bytes@, 0),
                consistent(board@),
                -1 <= rank <= 7,
                file <= 8,
                ahead_empty(board@, rank as int, file as int),
                board@.color_to_move == Color(1),
                board@.en_passant_square is None,
                spec_place(bytes@, p1s as int, p1e as int, empty_board_v(), 7, 0) == spec_place(
                    bytes@,
                    i as int,
                    p1e as int,
                    board@,
                    rank as int,
                    file as int,
                ),
            decreases p1e - i,
        {
            let ghost pre_board = board@;
            let ghost pre_rank = rank as int;
            let ghost pre_file = file as int;
            let c = bytes[i];
            if c == 47 {
                // a rank separator
                proof {
                    assert(ahead_empty(board@, rank - 1, 0));
                }
                if rank > -1 {
                    rank = rank - 1;
                }
                file = 0;
            } else if 48 <= c && c <= 57 {
                let d = (c - 48) as u8;
                let nf = file + d;
                file = if nf > 8 {
                    8
                } else {
                    nf
                };
            } else {
                if rank < 0 || file >= 8 {
                    proof {
                        assert(spec_place(bytes@, i as int, p1e as int, board@, rank as int, file as int) is None);
                        assert(!record_ok(bytes@));
                    }
                    return Err("the placement overruns the board".to_owned());
                }
                let color = if 65 <= c && c <= 90 {
                    Color(1)
                } else {
                    Color(2)
                };
                let lower = if 65 <= c && c <= 90 {
                    c + 32
                } else {
                    c
                };
                let piece_type: Piece = if lower == 112 {
                    Piece(1)
                } else if lower == 110 {
                    Piece(2)
                } else if lower == 98 {
                    Piece(3)
                } else if lower == 114 {
                    Piece(4)
                } else if lower == 113 {
                    Piece(5)
                } else if lower == 107 {
                    Piece(6)
                } else {
                    proof {
                        assert(letter_piece(bytes@[i as int]) is None);
                        assert(spec_place(bytes@, i as int, p1e as int, board@, rank as int, file as int) is None);
                        assert(!record_ok(bytes@));
                    }
                    return Err("the placement holds a letter that names no piece".to_owned());
                };
                let piece = Piece::new(color, piece_type);
                proof {
                    assert(letter_piece(bytes@[i as int]) == Some(piece));
                }
                let sq = (rank as u8) * 8 + file;
                let sq_idx = sq as usize;
                let ghost before = board@;
                proof {
                    assert(board@.pieces[sq as int].0 == 0);
                }
                let kind_index = piece.index();
                let color_index = color.index();
                let mask = Bitboard::square_mask(Square(sq));
                board.pieces[sq_idx] = piece;
                let bp = board.bb_pieces[kind_index];
                board.bb_pieces[kind_index] = Bitboard(bp.0 | mask.0);
                let bc = board.bb_colors[color_index];
                board.bb_colors[color_index] = Bitboard(bc.0 | mask.0);
                proof {
                    assert(board@ =~= bv_place_at(before, sq, piece));
                    lemma_place_preserves(before, sq, piece);
                    assert(consistent(board@));
                    assert(ahead_empty(board@, rank as int, file + 1));
                }
                file = file + 1;
            }
            proof {
                assert(spec_place(bytes@, i as int, p1e as int, pre_board, pre_rank, pre_file)
                    == spec_place(bytes@, i + 1, p1e as int, board@, rank as int, file as int));
            }
            i = i + 1;
        }
        proof {
            assert(spec_place(bytes@, p1s as int, p1e as int, empty_board_v(), 7, 0) == Some(
                board@,
            ));
        }
        let ghost placed = board@;
        let color = if p2e - p2s == 1 && bytes[p2s] == 119 {
            Color(1)
        } else if p2e - p2s == 1 && bytes[p2s] == 98 {
            Color(2)
        } else {
            proof {
                assert(!record_ok(bytes@));
            }
            return Err("the active-color field is neither of the two sides".to_owned());
        };
        let mut rights: u8 = 0;
        if !(p3e - p3s == 1 && bytes[p3s] == 45) {
            let mut j = p3s;
            while j < p3e
                invariant
                    p3s <= j <= p3e <= bytes@.len(),
                    bytes@ == fen.spec_bytes(),
                    (p3s as int, p3e as int) == field_bounds(bytes@, 2),
                    !(p3e - p3s == 1 && bytes@[p3s as int] == 45),
                    spec_rights_value(bytes@, p3s as int, p3e as int, 0) == spec_rights_value(
                        bytes@,
                        j as int,
                        p3e as int,
                        rights,
                    ),
                decreases p3e - j,
            {
                let c = bytes[j];
                if c == 75 {
                    rights = rights | 1;
                } else if c == 81 {
                    rights = rights | 2;
                } else if c == 107 {
                    rights = rights | 4;
                } else if c == 113 {
                    rights = rights | 8;
                } else {
                    proof {
                        assert(spec_rights_value(bytes@, p3s as int, p3e as int, 0) is None);
                        assert(!record_ok(bytes@));
                    }
                    return Err("the castling field holds an unknown character".to_owned());
                }
                j = j + 1;
            }
        }
        let mut ep: Option<Square> = None;
        if !(p4e - p4s == 1 && bytes[p4s] == 45) {
            if p4e - p4s != 2 {
                proof {
                    assert(!record_ok(bytes@));
                }
                return Err("the en-passant field is malformed".to_owned());
            }
            let file_char = bytes[p4s];
            let rank_char = bytes[p4s + 1];
            if file_char < 97 || file_char > 104 || rank_char < 49 || rank_char > 56 {
                proof {
                    assert(!record_ok(bytes@));
                }
                return Err("the en-passant square is out of bounds".to_owned());
            }
            let file_idx = (file_char - 97) as u8;
            let rank_idx = (rank_char - 49) as u8;
            if (color.0 == 1 && rank_idx != 5) || (color.0 == 2 && rank_idx != 2) {
                proof {
                    assert(!record_ok(bytes@));
                }
                return Err(
                    "the en-passant square is on the wrong rank for the side to move".to_owned(),
                );
            }
            ep = Some(Square(rank_idx * 8 + file_idx));
        }
        let halfmove = match parse_clock(bytes, p5s, p5e, 255) {
            Ok(n) => n as u8,
            Err(e) => {
                proof {
                    assert(!record_ok(bytes@));
                }
                return Err(e);
            },
        };
        let fullmove = match parse_clock(bytes, p6s, p6e, 0xFFFF) {
            Ok(n) => n as u16,
            Err(e) => {
                proof {
                    assert(!record_ok(bytes@));
                }
                return Err(e);
            },
        };
        board.color_to_move = color;
        board.castling_rights = CastlingRights(rights);
        board.en_passant_square = ep;
        board.halfmove_clock = halfmove;
        board.fullmove_number = fullmove;
        proof {
            lemma_same_placement(placed, board@);
            let bv = bytes@;
            if !(p3e - p3s == 1 && bv[p3s as int] == 45) {
                assert(spec_rights_value(bv, p3s as int, p3e as int, 0) == Some(rights));
            }
            let f4 = field_bounds(bv, 4);
            let f5 = field_bounds(bv, 5);
            match spec_digits_value(bv, f4.0, f4.1, 0) {
                Some(v) => {
                    lemma_digits_monotone(bv, f4.0, f4.1, 0);
                },
                None => {},
            }
            match spec_digits_value(bv, f5.0, f5.1, 0) {
                Some(v) => {
                    lemma_digits_monotone(bv, f5.0, f5.1, 0);
                },
                None => {},
            }
            assert(parsed_meta(bv, board@));
            assert(record_ok(bv));
        }
        Ok(board)
    }
}

} // verus!
