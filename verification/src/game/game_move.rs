use crate::board::defs::Square;
use vstd::prelude::*;

verus! {

/// The flag field of a packed move: quiet, capture, en passant, castling, or
/// one of the four promotions.
#[derive(Debug, Clone, Copy, PartialEq, Eq)]
pub struct MoveFlag(pub u8);

impl MoveFlag {
    /// A quiet move, `MoveFlag(0)`.
    pub fn quiet() -> (r: MoveFlag)
        ensures
            r.0 == 0,
    {
        MoveFlag(0)
    }

    /// A capture, `MoveFlag(1)`.
    pub fn capture() -> (r: MoveFlag)
        ensures
            r.0 == 1,
    {
        MoveFlag(1)
    }

    /// An en-passant capture, `MoveFlag(2)`.
    pub fn en_passant() -> (r: MoveFlag)
        ensures
            r.0 == 2,
    {
        MoveFlag(2)
    }

    /// A castling move, `MoveFlag(3)`.
    pub fn castling() -> (r: MoveFlag)
        ensures
            r.0 == 3,
    {
        MoveFlag(3)
    }

    /// A promotion to a knight, `MoveFlag(4)`.
    pub fn promotion_knight() -> (r: MoveFlag)
        ensures
            r.0 == 4,
    {
        MoveFlag(4)
    }

    /// A promotion to a bishop, `MoveFlag(5)`.
    pub fn promotion_bishop() -> (r: MoveFlag)
        ensures
            r.0 == 5,
    {
        MoveFlag(5)
    }

    /// A promotion to a rook, `MoveFlag(6)`.
    pub fn promotion_rook() -> (r: MoveFlag)
        ensures
            r.0 == 6,
    {
        MoveFlag(6)
    }

    /// A promotion to a queen, `MoveFlag(7)`.
    pub fn promotion_queen() -> (r: MoveFlag)
        ensures
            r.0 == 7,
    {
        MoveFlag(7)
    }
}

/// A `u16` packing a whole move: the 4 most significant bits are the
/// [`MoveFlag`], the next 6 bits the source square, the low 6 bits the
/// destination square.
#[derive(Debug, Clone, Copy, PartialEq, Eq)]
pub struct Move(pub u16);

/// The flag bits of a packed move.
pub open spec fn mv_flag(m: Move) -> u8 {
    (m.0 >> 12) as u8
}

/// The source square of a packed move.
pub open spec fn mv_source(m: Move) -> u8 {
    ((m.0 >> 6) & 63) as u8
}

/// The destination square of a packed move.
pub open spec fn mv_dest(m: Move) -> u8 {
    (m.0 & 63) as u8
}


/// The lower-case letter of a file, a through h.
pub open spec fn file_char(f: u8) -> char {
    if f == 0 {
        'a'
    } else if f == 1 {
        'b'
    } else if f == 2 {
        'c'
    } else if f == 3 {
        'd'
    } else if f == 4 {
        'e'
    } else if f == 5 {
        'f'
    } else if f == 6 {
        'g'
    } else {
        'h'
    }
}

/// The digit of a rank, 1 through 8.
pub open spec fn rank_char(r: u8) -> char {
    if r == 0 {
        '1'
    } else if r == 1 {
        '2'
    } else if r == 2 {
        '3'
    } else if r == 3 {
        '4'
    } else if r == 4 {
        '5'
    } else if r == 5 {
        '6'
    } else if r == 6 {
        '7'
    } else {
        '8'
    }
}

/// The algebraic name of a square: its file letter then its rank digit.
pub open spec fn algebraic_chars(s: u8) -> Seq<char> {
    seq![file_char(s % 8), rank_char(s / 8)]
}

/// The printable form of a move:
/// `<source>[x]<destination>[=N|=B|=R|=Q]`, with the `x` exactly on a
/// capture flag and the promotion suffix exactly on a promotion flag.
pub open spec fn move_chars(m: Move) -> Seq<char> {
    algebraic_chars(mv_source(m)) + (if mv_flag(m) == 1 {
        seq!['x']
    } else {
        Seq::empty()
    }) + algebraic_chars(mv_dest(m)) + (if mv_flag(m) == 4 {
        seq!['=', 'N']
    } else if mv_flag(m) == 5 {
        seq!['=', 'B']
    } else if mv_flag(m) == 6 {
        seq!['=', 'R']
    } else if mv_flag(m) == 7 {
        seq!['=', 'Q']
    } else {
        Seq::empty()
    })
}

/// The packed move with the given flag, source and destination.
pub open spec fn mk_move(flag: u8, src: u8, dest: u8) -> Move {
    Move((((flag as u16) << 12u16) | ((src as u16) << 6u16)) | (dest as u16))
}

/// The unpacked fields of any move lie in their ranges: squares below 64,
/// the flag below 16.
pub proof fn lemma_mv_bounds(m: Move)
    ensures
        mv_source(m) < 64,
        mv_dest(m) < 64,
        mv_flag(m) < 16,
{
    let w = m.0;
    assert(((w >> 6) & 63) < 64 && (w & 63) < 64 && (w >> 12) < 16) by (bit_vector);
}

/// Packing a flag and two squares and unpacking them again returns the same
/// three fields.
pub proof fn lemma_move_roundtrip(flag: u8, src: u8, dest: u8)
    requires
        flag < 16,
        src < 64,
        dest < 64,
    ensures
        mv_flag(mk_move(flag, src, dest)) == flag,
        mv_source(mk_move(flag, src, dest)) == src,
        mv_dest(mk_move(flag, src, dest)) == dest,
{
    assert(flag < 16 && src < 64 && dest < 64 ==> (((((flag as u16) << 12u16) | ((src as u16)
        << 6u16)) | (dest as u16)) >> 12) as u8 == flag && ((((((flag as u16) << 12u16) | ((
    src as u16) << 6u16)) | (dest as u16)) >> 6) & 63) as u8 == src && (((((flag as u16)
        << 12u16) | ((src as u16) << 6u16)) | (dest as u16)) & 63) as u8 == dest) by (bit_vector);
}

impl Move {
    pub const FLAG_SHIFT: usize = 12;

    pub const SOURCE_SHIFT: usize = 6;

    /// Pack a flag, a source square and a destination square into one move.
    pub fn new(flag: MoveFlag, source: Square, destination: Square) -> (r: Move)
        requires
            flag.0 < 16,
            source.0 < 64,
            destination.0 < 64,
        ensures
            r == mk_move(flag.0, source.0, destination.0),
            mv_flag(r) == flag.0,
            mv_source(r) == source.0,
            mv_dest(r) == destination.0,
    {
        proof {
            lemma_move_roundtrip(flag.0, source.0, destination.0);
        }
        let f = (flag.0 as u16) << 12;
        let s = (source.0 as u16) << 6;
        let d = destination.0 as u16;
        Move((f | s) | d)
    }

    /// The flag bits of this move.
    pub fn get_flag(self) -> (r: MoveFlag)
        ensures
            r.0 == mv_flag(self),
    {
        MoveFlag((self.0 >> 12) as u8)
    }

    /// The source square of this move; always in 0..64.
    pub fn get_source(self) -> (r: Square)
        ensures
            r.0 == mv_source(self),
            r.0 < 64,
    {
        proof {
            let w = self.0;
            assert(((w >> 6) & 63) < 64) by (bit_vector);
        }
        Square(((self.0 >> 6) & 63) as u8)
    }

    /// The destination square of this move; always in 0..64.
    pub fn get_dest(self) -> (r: Square)
        ensures
            r.0 == mv_dest(self),
            r.0 < 64,
    {
        proof {
            let w = self.0;
            assert((w & 63) < 64) by (bit_vector);
        }
        Square((self.0 & 63) as u8)
    }

    /// The printable form of this move: source square, `x` on a capture,
    /// destination square, and the piece letter of a promotion.
    pub fn text(self) -> (r: String)
        ensures
            r@ == move_chars(self),
    {
        let mut out = String::new();
        append_square(&mut out, self.get_source());
        if self.get_flag().0 == 1 {
            proof {
                reveal_strlit("x");
            }
            out.append("x");
        }
        append_square(&mut out, self.get_dest());
        let flag = self.get_flag().0;
        if flag == 4 {
            proof {
                reveal_strlit("=N");
            }
            out.append("=N");
        } else if flag == 5 {
            proof {
                reveal_strlit("=B");
            }
            out.append("=B");
        } else if flag == 6 {
            proof {
                reveal_strlit("=R");
            }
            out.append("=R");
        } else if flag == 7 {
            proof {
                reveal_strlit("=Q");
            }
            out.append("=Q");
        }
        proof {
            assert(out@ =~= move_chars(self));
        }
        out
    }
}

/// Append the algebraic name of a square.
fn append_square(out: &mut String, sq: Square)
    requires
        sq.0 < 64,
    ensures
        final(out)@ == old(out)@ + algebraic_chars(sq.0),
{
    let f = sq.0 % 8;
    let file_name: &str = if f == 0 {
        "a"
    } else if f == 1 {
        "b"
    } else if f == 2 {
        "c"
    } else if f == 3 {
        "d"
    } else if f == 4 {
        "e"
    } else if f == 5 {
        "f"
    } else if f == 6 {
        "g"
    } else {
        "h"
    };
    proof {
        reveal_strlit("a");
        reveal_strlit("b");
        reveal_strlit("c");
        reveal_strlit("d");
        reveal_strlit("e");
        reveal_strlit("f");
        reveal_strlit("g");
        reveal_strlit("h");
    }
    out.append(file_name);
    let k = sq.0 / 8;
    let rank_name: &str = if k == 0 {
        "1"
    } else if k == 1 {
        "2"
    } else if k == 2 {
        "3"
    } else if k == 3 {
        "4"
    } else if k == 4 {
        "5"
    } else if k == 5 {
        "6"
    } else if k == 6 {
        "7"
    } else {
        "8"
    };
    proof {
        reveal_strlit("1");
        reveal_strlit("2");
        reveal_strlit("3");
        reveal_strlit("4");
        reveal_strlit("5");
        reveal_strlit("6");
        reveal_strlit("7");
        reveal_strlit("8");
    }
    out.append(rank_name);
    proof {
        assert(out@ =~= old(out)@ + algebraic_chars(sq.0));
    }
}

} // verus!
