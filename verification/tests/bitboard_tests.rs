use chess_core::board::bitboard::{Bitboard, Direction};
use chess_core::board::defs::{File, Rank, Square};

#[test]
fn square_masks() {
    for sq in 0..64u8 {
        assert_eq!(Bitboard::square_mask(Square(sq)), Bitboard(1u64 << sq));
    }
}

#[test]
fn file_masks() {
    assert_eq!(Bitboard::file_mask(File(0)), Bitboard(0x101010101010101));
    assert_eq!(Bitboard::file_mask(File(7)), Bitboard(0x8080808080808080));
}

#[test]
fn rank_masks() {
    assert_eq!(Bitboard::rank_mask(Rank(0)), Bitboard(0xFF));
    assert_eq!(Bitboard::rank_mask(Rank(7)), Bitboard(0xFF00000000000000));
}

#[test]
fn bitboard_accessors() {
    let mut bitboard = Bitboard(0);
    bitboard.set_bit(Square(0), true);
    assert_eq!(bitboard.get_bit(Square(0)), true);
}

#[test]
fn one_steps_do_not_wrap() {
    // a file-h square stepped towards the h side leaves the board
    assert_eq!(Bitboard(1u64 << 7).north_east_one(), Bitboard(0));
    assert_eq!(Bitboard(1u64 << 15).south_east_one(), Bitboard(0));
    // a file-a square stepped towards the a side leaves the board
    assert_eq!(Bitboard(1u64 << 0).north_west_one(), Bitboard(0));
    assert_eq!(Bitboard(1u64 << 8).south_west_one(), Bitboard(0));
    // rank-8 and rank-1 squares stepped off the board vanish
    assert_eq!(Bitboard(1u64 << 56).north_one(), Bitboard(0));
    assert_eq!(Bitboard(1u64 << 0).south_one(), Bitboard(0));
}

#[test]
fn popcount_and_lsb() {
    assert_eq!(Bitboard(0).pop(), 0);
    assert_eq!(Bitboard(0xFF).pop(), 8);
    assert_eq!(Bitboard(0).lsb(), None);
    assert_eq!(Bitboard(0b101000).lsb(), Some(3));
    let mut b = Bitboard(0b101000);
    assert_eq!(b.pop_lsb(), Some(3));
    assert_eq!(b.pop_lsb(), Some(5));
    assert_eq!(b.pop_lsb(), None);
}

#[test]
fn shifts_by_direction() {
    let b = Bitboard(1u64 << 28);
    assert_eq!(b.shl(Direction::north()), Bitboard(1u64 << 36));
    assert_eq!(b.shr(Direction::south()), Bitboard(1u64 << 20));
    assert_eq!(b.shl(Direction::north_east()), Bitboard(1u64 << 37));
    assert_eq!(b.shr(Direction::south_west()), Bitboard(1u64 << 19));
}
