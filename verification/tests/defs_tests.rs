use chess_core::board::defs::{File, NrOf, Rank, Square};

#[test]
fn square_from_u8() {
    for i in 0..NrOf::SQUARES {
        let sq = Square(i as u8);

        assert_eq!(sq.get_file(), File((i % 8) as u8));
        assert_eq!(sq.get_rank(), Rank((i / 8) as u8));
    }
}

#[test]
fn square_accessors() {
    let a1 = Square(0);
    let h8 = Square(63);

    assert_eq!(a1.get_file(), File(0));
    assert_eq!(a1.get_rank(), Rank(0));

    assert_eq!(h8.get_file(), File(7));
    assert_eq!(h8.get_rank(), Rank(7));
}

#[test]
fn square_from_rank_file() {
    assert_eq!(Square::from_rank_file(Rank(3), File(4)), Square(28));
    assert_eq!(Square::from_rank_file(Rank(0), File(0)), Square(0));
    assert_eq!(Square::from_rank_file(Rank(7), File(7)), Square(63));
}
