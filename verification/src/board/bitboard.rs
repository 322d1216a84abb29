use crate::board::defs::{File, Rank, Square};
use vstd::prelude::*;
use vstd::std_specs::bits::{axiom_u64_trailing_zeros, u64_trailing_zeros};

verus! {

/// Bit `i` of the 64-bit word `x`; false for any `i` outside the board.
pub open spec fn bit64(x: u64, i: u64) -> bool {
    i < 64 && (x >> i) & 1u64 == 1u64
}

/// The index of the lowest set bit of `x`; 64 when `x` is zero.
pub open spec fn lsb64(x: u64) -> u64 {
    u64_trailing_zeros(x) as u64
}

/// The word with the lowest set bit of `x` cleared.
pub open spec fn clear_lsb64(x: u64) -> u64
    recommends
        x != 0,
{
    x & ((x - 1) as u64)
}

/// The number of set bits of `x`.
pub open spec fn pop64(x: u64) -> nat
    decreases x,
    via pop64_dec
{
    if x == 0 {
        0
    } else {
        1 + pop64(clear_lsb64(x))
    }
}

#[via_fn]
proof fn pop64_dec(x: u64) {
    if x != 0 {
        lemma_clear_lsb_lt(x);
    }
}

/// The number of set bits of `x` among the positions below `n`.
pub open spec fn count_bits_below(x: u64, n: int) -> nat
    decreases n,
{
    if n <= 0 {
        0
    } else {
        count_bits_below(x, n - 1) + (if bit64(x, (n - 1) as u64) {
            1nat
        } else {
            0nat
        })
    }
}

/// Bit positions of the elementary word operations: union, intersection,
/// symmetric difference, complement, and a single-square mask.
pub proof fn lemma_bit_ops()
    by (bit_vector)
    ensures
        forall|x: u64, y: u64, i: u64| #[trigger] bit64(x | y, i) <==> (bit64(x, i) || bit64(
            y,
            i,
        )),
        forall|x: u64, y: u64, i: u64| #[trigger] bit64(x & y, i) <==> (bit64(x, i) && bit64(
            y,
            i,
        )),
        forall|x: u64, y: u64, i: u64| #[trigger] bit64(x ^ y, i) <==> (bit64(x, i) != bit64(
            y,
            i,
        )),
        forall|x: u64, i: u64| #[trigger] bit64(!x, i) <==> (i < 64 && !bit64(x, i)),
        forall|s: u64, i: u64| s < 64 ==> (#[trigger] bit64(1u64 << s, i) <==> i == s),
        forall|x: u64, s: u64| s < 64 ==> ((x & (1u64 << s) != 0) <==> #[trigger] bit64(x, s)),
        forall|i: u64| !bit64(0u64, i),
        forall|x: u64| #[trigger] (x | 0) == x,
        forall|x: u64| #[trigger] (0 | x) == x,
        forall|x: u64, y: u64, z: u64| #[trigger] ((x | y) | z) == x | (y | z),
{
}

/// Bit positions of the six masked one-step operations: each moves every
/// set bit by one king step, and drops bits that would leave the board or
/// wrap across the a- or h-file edge.
pub proof fn lemma_step_bits()
    by (bit_vector)
    ensures
        forall|x: u64, i: u64| #[trigger] bit64(x << 8u64, i) <==> (i < 64 && i >= 8 && bit64(
            x,
            (i - 8) as u64,
        )),
        forall|x: u64, i: u64| #[trigger] bit64(x >> 8u64, i) <==> (i < 56 && bit64(
            x,
            (i + 8) as u64,
        )),
        forall|x: u64, i: u64| #[trigger] bit64((x << 9u64) & Bitboard::NOT_A_FILE, i) <==> (i
            < 64 && i >= 9 && i % 8 != 0 && bit64(x, (i - 9) as u64)),
        forall|x: u64, i: u64| #[trigger] bit64((x << 7u64) & Bitboard::NOT_H_FILE, i) <==> (i
            < 64 && i >= 7 && i % 8 != 7 && bit64(x, (i - 7) as u64)),
        forall|x: u64, i: u64| #[trigger] bit64((x >> 7u64) & Bitboard::NOT_A_FILE, i) <==> (i
            < 57 && i % 8 != 0 && bit64(x, (i + 7) as u64)),
        forall|x: u64, i: u64| #[trigger] bit64((x >> 9u64) & Bitboard::NOT_H_FILE, i) <==> (i
            < 55 && i % 8 != 7 && bit64(x, (i + 9) as u64)),
{
}

/// Clearing the lowest set bit strictly decreases a nonzero word.
pub proof fn lemma_clear_lsb_lt(x: u64)
    requires
        x != 0,
    ensures
        clear_lsb64(x) < x,
{
    assert(x != 0 ==> (x & ((x - 1) as u64)) < x) by (bit_vector);
}

/// The lowest set bit of a nonzero word is a set bit, and every position
/// below it is clear.
pub proof fn lemma_lsb_facts(x: u64)
    requires
        x != 0,
    ensures
        lsb64(x) < 64,
        bit64(x, lsb64(x)),
        forall|j: u64| j < lsb64(x) ==> !bit64(x, j),
{
    axiom_u64_trailing_zeros(x);
}

/// A word whose bits below `t` are all clear is annihilated by the mask of
/// those positions.
proof fn lemma_low_zeros_mask(x: u64, t: u64)
    requires
        t < 64,
        forall|j: u64| j < t ==> !bit64(x, j),
    ensures
        x & (((1u64 << t) - 1) as u64) == 0,
    decreases t,
{
    if t == 0 {
        assert(x & (((1u64 << 0u64) - 1) as u64) == 0) by (bit_vector);
    } else {
        let t1 = (t - 1) as u64;
        lemma_low_zeros_mask(x, t1);
        assert(!bit64(x, t1));
        assert((x & (((1u64 << t1) - 1) as u64) == 0 && !(t1 < 64 && (x >> t1) & 1u64 == 1u64)
            && t1 < 63) ==> x & (((1u64 << ((t1 + 1) as u64)) - 1) as u64) == 0) by (bit_vector);
        assert((t1 + 1) as u64 == t);
    }
}

/// Clearing the lowest set bit clears exactly that position.
pub proof fn lemma_clear_lsb_bits(x: u64)
    requires
        x != 0,
    ensures
        forall|i: u64| #[trigger] bit64(clear_lsb64(x), i) <==> (bit64(x, i) && i != lsb64(x)),
{
    let t = lsb64(x);
    lemma_lsb_facts(x);
    lemma_low_zeros_mask(x, t);
    assert(forall|i: u64| (((x & ((x - 1) as u64)) >> i) & 1u64 == 1u64) <==> (((x >> i) & 1u64
        == 1u64) && i != t)) by (bit_vector)
        requires
            t < 64,
            (x >> t) & 1u64 == 1u64,
            x & (((1u64 << t) - 1) as u64) == 0,
    ;
}

/// A word with no set bit below 64 is zero.
pub proof fn lemma_no_bits_zero(x: u64)
    requires
        forall|i: u64| !bit64(x, i),
    ensures
        x == 0,
{
    if x != 0 {
        lemma_lsb_facts(x);
    }
}

/// Counting set bits below `n` never exceeds `n`.
pub proof fn lemma_count_bits_below_bound(x: u64, n: int)
    ensures
        count_bits_below(x, n) <= (if n <= 0 {
            0int
        } else {
            n
        }),
    decreases n,
{
    if n > 0 {
        lemma_count_bits_below_bound(x, n - 1);
    }
}

/// Words that agree on every bit position below `n` have the same count
/// below `n`.
pub proof fn lemma_count_bits_below_eq(x: u64, y: u64, n: int)
    requires
        forall|i: u64| i < n ==> (bit64(x, i) <==> bit64(y, i)),
    ensures
        count_bits_below(x, n) == count_bits_below(y, n),
    decreases n,
{
    if n > 0 {
        lemma_count_bits_below_eq(x, y, n - 1);
    }
}

/// Clearing one set bit at position `t < n` lowers the count below `n` by
/// exactly one.
proof fn lemma_count_clear_one(x: u64, y: u64, t: u64, n: int)
    requires
        t < n <= 64,
        bit64(x, t),
        !bit64(y, t),
        forall|i: u64| i != t ==> (bit64(x, i) <==> bit64(y, i)),
    ensures
        count_bits_below(x, n) == count_bits_below(y, n) + 1,
    decreases n,
{
    if n - 1 == t {
        lemma_count_bits_below_eq(x, y, n - 1);
        assert(bit64(x, (n - 1) as u64));
        assert(!bit64(y, (n - 1) as u64));
    } else {
        lemma_count_clear_one(x, y, t, n - 1);
        assert(bit64(x, (n - 1) as u64) <==> bit64(y, (n - 1) as u64));
    }
}

/// The two ways of counting set bits agree: peeling lowest set bits counts
/// the same as scanning all 64 positions.
pub proof fn lemma_pop64_count(x: u64)
    ensures
        pop64(x) == count_bits_below(x, 64),
    decreases x,
{
    if x == 0 {
        lemma_count_zero(64);
    } else {
        let y = clear_lsb64(x);
        lemma_clear_lsb_lt(x);
        lemma_clear_lsb_bits(x);
        lemma_lsb_facts(x);
        lemma_pop64_count(y);
        lemma_count_clear_one(x, y, lsb64(x), 64);
    }
}

/// The zero word has no set bits below any position.
proof fn lemma_count_zero(n: int)
    ensures
        count_bits_below(0u64, n) == 0,
    decreases n,
{
    if n > 0 {
        lemma_count_zero(n - 1);
        let m = (n - 1) as u64;
        assert((0u64 >> m) & 1u64 == 0u64) by (bit_vector);
    }
}

/// No word holds more than 64 set bits.
pub proof fn lemma_pop64_bound(x: u64)
    ensures
        pop64(x) <= 64,
{
    lemma_pop64_count(x);
    lemma_count_bits_below_bound(x, 64);
}

/// A 64-bit set of squares: bit `k` is set exactly when square `k` is in the
/// set.
#[derive(Debug, Clone, Copy, PartialEq, Eq)]
pub struct Bitboard(pub u64);

impl Bitboard {
    pub const NOT_A_FILE: u64 = !0x0101010101010101u64;

    pub const NOT_H_FILE: u64 = !0x8080808080808080u64;

    pub const NOT_AB_FILE: u64 = !0x0303030303030303u64;

    pub const NOT_GH_FILE: u64 = !0xC0C0C0C0C0C0C0C0u64;

    pub const FILE_A: u64 = 0x0101010101010101u64;

    pub const RANK_ONE: u64 = 0xFFu64;

    /// The empty set of squares.
    pub fn empty() -> (r: Bitboard)
        ensures
            r.0 == 0,
    {
        Bitboard(0)
    }

    /// The full set of squares.
    pub fn full() -> (r: Bitboard)
        ensures
            r.0 == 0xFFFF_FFFF_FFFF_FFFFu64,
    {
        Bitboard(0xFFFF_FFFF_FFFF_FFFF)
    }

    /// The set holding exactly one square.
    pub fn square_mask(square: Square) -> (r: Bitboard)
        requires
            square.0 < 64,
        ensures
            r.0 == 1u64 << square.0,
            forall|i: u64| #[trigger] bit64(r.0, i) <==> i == square.0,
    {
        proof {
            lemma_bit_ops();
        }
        Bitboard(1u64 << square.0)
    }

    /// The set of all eight squares on one file.
    pub fn file_mask(file: File) -> (r: Bitboard)
        requires
            file.0 < 8,
        ensures
            r.0 == Bitboard::FILE_A << file.0,
    {
        Bitboard(Bitboard::FILE_A << file.0)
    }

    /// The set of all eight squares on one rank.
    pub fn rank_mask(rank: Rank) -> (r: Bitboard)
        requires
            rank.0 < 8,
        ensures
            r.0 == Bitboard::RANK_ONE << (rank.0 * 8),
    {
        Bitboard(Bitboard::RANK_ONE << (rank.0 * 8))
    }

    /// Whether a square is in the set.
    pub fn get_bit(self, square: Square) -> (r: bool)
        requires
            square.0 < 64,
        ensures
            r == bit64(self.0, square.0 as u64),
    {
        proof {
            lemma_bit_ops();
        }
        (self.0 & (1u64 << square.0)) != 0
    }

    /// Add a square to the set, or remove it.
    pub fn set_bit(&mut self, square: Square, value: bool)
        requires
            square.0 < 64,
        ensures
            final(self).0 == if value {
                old(self).0 | (1u64 << square.0)
            } else {
                old(self).0 & !(1u64 << square.0)
            },
    {
        if value {
            self.0 |= 1u64 << square.0;
        } else {
            self.0 &= !(1u64 << square.0);
        }
    }

    /// The number of squares in the set.
    pub fn pop(self) -> (r: u32)
        ensures
            r == pop64(self.0),
    {
        let mut x = self.0;
        let mut c: u32 = 0;
        proof {
            lemma_pop64_bound(self.0);
        }
        while x != 0
            invariant
                c + pop64(x) == pop64(self.0),
                pop64(self.0) <= 64,
            decreases x,
        {
            proof {
                lemma_clear_lsb_lt(x);
            }
            x = x & (x - 1);
            c = c + 1;
        }
        c
    }

    /// The index of the lowest square in the set, or `None` for the empty
    /// set.
    pub fn lsb(self) -> (r: Option<u8>)
        ensures
            self.0 == 0 ==> r is None,
            self.0 != 0 ==> r == Some(lsb64(self.0) as u8) && lsb64(self.0) < 64,
    {
        if self.0 == 0 {
            None
        } else {
            proof {
                lemma_lsb_facts(self.0);
            }
            Some(self.0.trailing_zeros() as u8)
        }
    }

    /// Remove the lowest square from the set and return its index, or
    /// `None` for the empty set.
    pub fn pop_lsb(&mut self) -> (r: Option<u8>)
        ensures
            old(self).0 == 0 ==> r is None && final(self).0 == 0,
            old(self).0 != 0 ==> r == Some(lsb64(old(self).0) as u8) && lsb64(old(self).0) < 64
                && final(self).0 == clear_lsb64(old(self).0),
    {
        let lsb = match self.lsb() {
            Some(l) => l,
            None => {
                return None;
            },
        };
        self.0 &= self.0 - 1;
        Some(lsb)
    }

    /// Set union.
    pub fn or(self, rhs: Bitboard) -> (r: Bitboard)
        ensures
            r.0 == self.0 | rhs.0,
    {
        Bitboard(self.0 | rhs.0)
    }

    /// Set intersection.
    pub fn and(self, rhs: Bitboard) -> (r: Bitboard)
        ensures
            r.0 == self.0 & rhs.0,
    {
        Bitboard(self.0 & rhs.0)
    }

    /// Symmetric difference.
    pub fn xor(self, rhs: Bitboard) -> (r: Bitboard)
        ensures
            r.0 == self.0 ^ rhs.0,
    {
        Bitboard(self.0 ^ rhs.0)
    }

    /// Set complement.
    pub fn not(self) -> (r: Bitboard)
        ensures
            r.0 == !self.0,
    {
        Bitboard(!self.0)
    }
}

/// One step of a set of squares in a compass direction `d` (given as a
/// square-index offset), masking out squares that would wrap across the a- or
/// h-file edge.
pub open spec fn spec_step(b: u64, d: i8) -> u64 {
    if d == 8 {
        b << 8u64
    } else if d == -8 {
        b >> 8u64
    } else if d == 9 {
        (b << 9u64) & Bitboard::NOT_A_FILE
    } else if d == 7 {
        (b << 7u64) & Bitboard::NOT_H_FILE
    } else if d == -7 {
        (b >> 7u64) & Bitboard::NOT_A_FILE
    } else if d == -9 {
        (b >> 9u64) & Bitboard::NOT_H_FILE
    } else if d == 1 {
        (b << 1u64) & Bitboard::NOT_A_FILE
    } else if d == -1 {
        (b >> 1u64) & Bitboard::NOT_H_FILE
    } else {
        0
    }
}

impl Bitboard {
    /// One step towards rank 8.
    pub fn north_one(self) -> (r: Bitboard)
        ensures
            r.0 == spec_step(self.0, 8),
    {
        Bitboard(self.0 << 8)
    }

    /// One step towards rank 1.
    pub fn south_one(self) -> (r: Bitboard)
        ensures
            r.0 == spec_step(self.0, -8i8),
    {
        Bitboard(self.0 >> 8)
    }

    /// One diagonal step towards rank 1 and the h-file.
    pub fn south_east_one(self) -> (r: Bitboard)
        ensures
            r.0 == spec_step(self.0, -7i8),
    {
        Bitboard((self.0 >> 7) & Bitboard::NOT_A_FILE)
    }

    /// One diagonal step towards rank 1 and the a-file.
    pub fn south_west_one(self) -> (r: Bitboard)
        ensures
            r.0 == spec_step(self.0, -9i8),
    {
        Bitboard((self.0 >> 9) & Bitboard::NOT_H_FILE)
    }

    /// One diagonal step towards rank 8 and the h-file.
    pub fn north_east_one(self) -> (r: Bitboard)
        ensures
            r.0 == spec_step(self.0, 9),
    {
        Bitboard((self.0 << 9) & Bitboard::NOT_A_FILE)
    }

    /// One diagonal step towards rank 8 and the a-file.
    pub fn north_west_one(self) -> (r: Bitboard)
        ensures
            r.0 == spec_step(self.0, 7),
    {
        Bitboard((self.0 << 7) & Bitboard::NOT_H_FILE)
    }
}

impl Bitboard {
    /// Shift the whole set towards lower squares by the magnitude of a
    /// direction's offset, without any file masking.
    pub fn shr(self, rhs: Direction) -> (r: Bitboard)
        requires
            rhs.0 == 8 || rhs.0 == -8 || rhs.0 == 9 || rhs.0 == 7 || rhs.0 == -7 || rhs.0 == -9
                || rhs.0 == 1 || rhs.0 == -1,
        ensures
            r.0 == self.0 >> (rhs.offset_magnitude() as u64),
    {
        let amount: u32 = if rhs.0 < 0 {
            (-(rhs.0 as i32)) as u32
        } else {
            rhs.0 as u32
        };
        Bitboard(self.0 >> amount)
    }

    /// Shift the whole set towards higher squares by the magnitude of a
    /// direction's offset, without any file masking.
    pub fn shl(self, rhs: Direction) -> (r: Bitboard)
        requires
            rhs.0 == 8 || rhs.0 == -8 || rhs.0 == 9 || rhs.0 == 7 || rhs.0 == -7 || rhs.0 == -9
                || rhs.0 == 1 || rhs.0 == -1,
        ensures
            r.0 == self.0 << (rhs.offset_magnitude() as u64),
    {
        let amount: u32 = if rhs.0 < 0 {
            (-(rhs.0 as i32)) as u32
        } else {
            rhs.0 as u32
        };
        Bitboard(self.0 << amount)
    }
}

/// A direction of a bitboard, as a signed square-index offset.
#[derive(Debug, Clone, Copy, PartialEq, Eq)]
pub struct Direction(pub i8);

impl Direction {
    /// Towards rank 8: offset 8.
    pub fn north() -> (r: Direction)
        ensures
            r.0 == 8,
    {
        Direction(8)
    }

    /// Towards rank 1: offset -8.
    pub fn south() -> (r: Direction)
        ensures
            r.0 == -8,
    {
        Direction(-8)
    }

    /// Towards the h-file: offset 1.
    pub fn east() -> (r: Direction)
        ensures
            r.0 == 1,
    {
        Direction(1)
    }

    /// Towards the a-file: offset -1.
    pub fn west() -> (r: Direction)
        ensures
            r.0 == -1,
    {
        Direction(-1)
    }

    /// Towards rank 8 and the h-file: offset 9.
    pub fn north_east() -> (r: Direction)
        ensures
            r.0 == 9,
    {
        Direction(9)
    }

    /// Towards rank 8 and the a-file: offset 7.
    pub fn north_west() -> (r: Direction)
        ensures
            r.0 == 7,
    {
        Direction(7)
    }

    /// Towards rank 1 and the h-file: offset -7.
    pub fn south_east() -> (r: Direction)
        ensures
            r.0 == -7,
    {
        Direction(-7)
    }

    /// Towards rank 1 and the a-file: offset -9.
    pub fn south_west() -> (r: Direction)
        ensures
            r.0 == -9,
    {
        Direction(-9)
    }

    /// The magnitude of a direction's offset.
    pub open spec fn offset_magnitude(self) -> int {
        if self.0 < 0 {
            -self.0
        } else {
            self.0 as int
        }
    }

    /// The composition of two directions.
    pub fn add_dir(&self, rhs: Self) -> (r: Self)
        requires
            -128 <= self.0 + rhs.0 <= 127,
        ensures
            r.0 == self.0 + rhs.0,
    {
        Direction(self.0 + rhs.0)
    }
}

/// One-steps at the board edge drop off-board squares instead of wrapping
/// to the other file: a diagonal step of an h-file square towards the
/// h-side is empty, an a-file square's step towards the a-side is empty,
/// and a vertical step off rank 1 or rank 8 is empty.
pub proof fn lemma_one_step_no_wrap(s: u8)
    requires
        s < 64,
    ensures
        s % 8 == 7 ==> spec_step(1u64 << (s as u64), 9) == 0 && spec_step(1u64 << (s as u64), -7i8)
            == 0,
        s % 8 == 0 ==> spec_step(1u64 << (s as u64), 7) == 0 && spec_step(1u64 << (s as u64), -9i8)
            == 0,
        s / 8 == 7 ==> spec_step(1u64 << (s as u64), 8) == 0,
        s / 8 == 0 ==> spec_step(1u64 << (s as u64), -8i8) == 0,
{
    lemma_bit_ops();
    lemma_step_bits();
    let m = 1u64 << (s as u64);
    if s % 8 == 7 {
        assert(forall|i: u64| !bit64(spec_step(m, 9), i)) by {
            assert(forall|i: u64| bit64(spec_step(m, 9), i) ==> i % 8 != 0 && bit64(m, (i
                - 9) as u64));
        }
        lemma_no_bits_zero(spec_step(m, 9));
        lemma_no_bits_zero(spec_step(m, -7i8));
    }
    if s % 8 == 0 {
        lemma_no_bits_zero(spec_step(m, 7));
        lemma_no_bits_zero(spec_step(m, -9i8));
    }
    if s / 8 == 7 {
        lemma_no_bits_zero(spec_step(m, 8));
    }
    if s / 8 == 0 {
        lemma_no_bits_zero(spec_step(m, -8i8));
    }
}

} // verus!
