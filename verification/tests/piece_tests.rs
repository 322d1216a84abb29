use chess_core::color::Color;
use chess_core::piece::Piece;

#[test]
fn construct_piece() {
    let piece = Piece::new(Color::white(), Piece::pawn());

    assert_eq!(piece.0, 0b01001);

    let piece = Piece::new(Color::black(), Piece::pawn());

    assert_eq!(piece.0, 0b10001);
}

#[test]
fn piece_accessors() {
    let piece = Piece::new(Color::white(), Piece::pawn());

    assert_eq!(piece.get_color(), Some(Color::white()));
    assert_eq!(piece.get_type(), Piece::pawn());
}

#[test]
fn test_from_u8() {
    let all = vec![
        chess_core::chess::piece::Piece::Pawn,
        chess_core::chess::piece::Piece::Knight,
        chess_core::chess::piece::Piece::Bishop,
        chess_core::chess::piece::Piece::Rook,
        chess_core::chess::piece::Piece::Queen,
        chess_core::chess::piece::Piece::King,
    ];
    for (index, piece) in all.iter().enumerate() {
        assert_eq!(
            &chess_core::chess::piece::Piece::try_from(index as u8).expect("This should succeed"),
            piece
        );
    }
}

#[test]
fn kind_letters() {
    assert_eq!(
        chess_core::chess::piece::Piece::from_letter("q").unwrap(),
        chess_core::chess::piece::Piece::Queen
    );
    assert!(chess_core::chess::piece::Piece::from_letter("x").is_err());
    assert!(chess_core::chess::piece::Piece::try_from(6).is_err());
}
