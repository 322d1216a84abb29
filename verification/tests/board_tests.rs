use chess_core::board::bitboard::Bitboard;
use chess_core::board::defs::{NrOf, Square};
use chess_core::board::Board;
use chess_core::color::Color;
use chess_core::game::game_move::{Move, MoveFlag};
use chess_core::piece::Piece;

#[test]
fn test_empty_board() {
    let board = Board::empty();

    for i in 0..NrOf::PIECES {
        assert_eq!(board.piece_bb(i), Bitboard(0));
    }

    for i in 0..NrOf::COLORS {
        assert_eq!(board.color_bb(i), Bitboard(0));
    }

    assert_eq!(board.all_occupied(), Bitboard(0));

    for sq in 0..64 {
        let square = Square(sq);
        assert!(!board.is_square_occupied(square));
    }
}

#[test]
fn test_single_piece() {
    let mut board = Board::empty();

    let sq = Square(0);
    let piece_index = 0;
    let color_index = 0;
    board.bb_pieces[piece_index] = Bitboard::square_mask(sq);
    board.bb_colors[color_index] = Bitboard::square_mask(sq);

    assert_eq!(board.piece_bb(piece_index), Bitboard::square_mask(sq));
    assert_eq!(board.color_bb(color_index), Bitboard::square_mask(sq));

    assert_eq!(board.all_occupied(), Bitboard::square_mask(sq));

    assert!(board.is_square_occupied(sq));
    assert!(!board.is_square_occupied(Square(1)));
}

#[test]
fn test_multiple_pieces() {
    let mut board = Board::empty();

    // a1 and h8
    let sq1 = Square(0);
    let sq2 = Square(63);

    board.bb_pieces[Piece::pawn().index()] = Bitboard::square_mask(sq1);
    board.bb_pieces[Piece::knight().index()] = Bitboard::square_mask(sq2);

    board.bb_colors[Piece::pawn().index()] = Bitboard::square_mask(sq1);
    board.bb_colors[Piece::knight().index()] = Bitboard::square_mask(sq2);

    let occupied = board.all_occupied();

    assert!(board.is_square_occupied(sq1));
    assert!(board.is_square_occupied(sq2));

    let expected = Bitboard(Bitboard::square_mask(sq1).0 | Bitboard::square_mask(sq2).0);
    assert_eq!(occupied, expected);
}

#[test]
fn test_simple_move() {
    let mut board = Board::empty();

    let sq_from = Square(0);
    let sq_to = Square(1);

    board.pieces[sq_from.0 as usize] = Piece::new(Color::white(), Piece::pawn());

    let piece_index = Piece::pawn().index();
    board.bb_pieces[piece_index] = Bitboard::square_mask(sq_from);
    board.bb_colors[Color::white().index()] = Bitboard::square_mask(sq_from);

    let mv = Move::new(MoveFlag::quiet(), sq_from, sq_to);
    board.make_move(mv).expect("Expected move to succeed");

    assert_eq!(board.pieces[sq_from.0 as usize], Piece(0));
    assert_eq!(
        board.pieces[sq_to.0 as usize],
        Piece::new(Color::white(), Piece::pawn())
    );

    assert_eq!(board.bb_pieces[piece_index], Bitboard::square_mask(sq_to));
    assert_eq!(
        board.bb_colors[Color::white().index()],
        Bitboard::square_mask(sq_to)
    );

    assert_eq!(board.color_to_move, Color::black());
}

#[test]
fn test_capture_move() {
    let mut board = Board::empty();

    let sq_from = Square(0);
    let sq_to = Square(1);
    board.pieces[sq_from.0 as usize] = Piece::new(Color::white(), Piece::pawn());
    board.bb_pieces[Piece::pawn().index()] =
        Bitboard(board.bb_pieces[Piece::pawn().index()].0 | Bitboard::square_mask(sq_from).0);
    board.bb_colors[Color::white().index()] =
        Bitboard(board.bb_colors[Color::white().index()].0 | Bitboard::square_mask(sq_from).0);

    board.pieces[sq_to.0 as usize] = Piece::new(Color::black(), Piece::pawn());
    board.bb_pieces[Piece::pawn().index()] =
        Bitboard(board.bb_pieces[Piece::pawn().index()].0 | Bitboard::square_mask(sq_to).0);
    board.bb_colors[Color::black().index()] =
        Bitboard(board.bb_colors[Color::black().index()].0 | Bitboard::square_mask(sq_to).0);

    let mv = Move::new(MoveFlag::capture(), sq_from, sq_to);
    board.make_move(mv).expect("Expected move to succeed");

    assert_eq!(board.pieces[sq_from.0 as usize], Piece(0));
    assert_eq!(
        board.pieces[sq_to.0 as usize],
        Piece::new(Color::white(), Piece::pawn())
    );

    assert_eq!(
        board.bb_colors[Color::black().index()].0 & Bitboard::square_mask(sq_to).0,
        0
    );

    assert_eq!(board.color_to_move, Color::black());
}

#[test]
fn test_multiple_moves() {
    let mut board = Board::empty();

    let sq1 = Square(0);
    let sq2 = Square(1);
    board.pieces[sq1.0 as usize] = Piece::new(Color::white(), Piece::pawn());
    board.bb_pieces[Piece::pawn().index()] =
        Bitboard(board.bb_pieces[Piece::pawn().index()].0 | Bitboard::square_mask(sq1).0);
    board.bb_colors[Color::white().index()] =
        Bitboard(board.bb_colors[Color::white().index()].0 | Bitboard::square_mask(sq1).0);

    board.pieces[sq2.0 as usize] = Piece::new(Color::white(), Piece::knight());
    board.bb_pieces[Piece::knight().index()] =
        Bitboard(board.bb_pieces[Piece::knight().index()].0 | Bitboard::square_mask(sq2).0);
    board.bb_colors[Color::white().index()] =
        Bitboard(board.bb_colors[Color::white().index()].0 | Bitboard::square_mask(sq2).0);

    // a1 to c1
    let mv = Move::new(MoveFlag::quiet(), sq1, Square(2));
    board.make_move(mv).unwrap();

    assert_eq!(board.pieces[sq1.0 as usize], Piece(0));
    assert_eq!(
        board.pieces[Square(2).0 as usize],
        Piece::new(Color::white(), Piece::pawn())
    );

    assert_eq!(
        board.pieces[sq2.0 as usize],
        Piece::new(Color::white(), Piece::knight())
    );
}

#[test]
fn test_en_passant_white() {
    let mut board = Board::empty();

    // white pawn e4, black pawn d4, capture target d5
    let wp_sq = Square(28);
    board.pieces[wp_sq.0 as usize] = Piece::new(Color::white(), Piece::pawn());
    board.bb_pieces[Piece::pawn().index()] =
        Bitboard(board.bb_pieces[Piece::pawn().index()].0 | Bitboard::square_mask(wp_sq).0);
    board.bb_colors[Color::white().index()] =
        Bitboard(board.bb_colors[Color::white().index()].0 | Bitboard::square_mask(wp_sq).0);

    let bp_sq = Square(27);
    board.pieces[bp_sq.0 as usize] = Piece::new(Color::black(), Piece::pawn());
    board.bb_pieces[Piece::pawn().index()] =
        Bitboard(board.bb_pieces[Piece::pawn().index()].0 | Bitboard::square_mask(bp_sq).0);
    board.bb_colors[Color::black().index()] =
        Bitboard(board.bb_colors[Color::black().index()].0 | Bitboard::square_mask(bp_sq).0);

    let ep_move = Move::new(MoveFlag::en_passant(), wp_sq, Square(35));
    board.make_move(ep_move).expect("En passant should succeed");

    assert_eq!(board.pieces[bp_sq.0 as usize], Piece(0));
    assert_eq!(
        board.bb_colors[Color::black().index()].0 & Bitboard::square_mask(bp_sq).0,
        0
    );

    assert_eq!(
        board.pieces[Square(35).0 as usize],
        Piece::new(Color::white(), Piece::pawn())
    );
}

#[test]
fn test_en_passant_black() {
    let mut board = Board::empty();

    // black pawn d5, white pawn e5, capture target e4
    let bp_sq = Square(35);
    board.pieces[bp_sq.0 as usize] = Piece::new(Color::black(), Piece::pawn());
    board.bb_pieces[Piece::pawn().index()] =
        Bitboard(board.bb_pieces[Piece::pawn().index()].0 | Bitboard::square_mask(bp_sq).0);
    board.bb_colors[Color::black().index()] =
        Bitboard(board.bb_colors[Color::black().index()].0 | Bitboard::square_mask(bp_sq).0);

    let wp_sq = Square(36);
    board.pieces[wp_sq.0 as usize] = Piece::new(Color::white(), Piece::pawn());
    board.bb_pieces[Piece::pawn().index()] =
        Bitboard(board.bb_pieces[Piece::pawn().index()].0 | Bitboard::square_mask(wp_sq).0);
    board.bb_colors[Color::white().index()] =
        Bitboard(board.bb_colors[Color::white().index()].0 | Bitboard::square_mask(wp_sq).0);

    board.color_to_move = Color::black();

    let ep_move = Move::new(MoveFlag::en_passant(), bp_sq, Square(28));
    board.make_move(ep_move).expect("En passant should succeed");

    assert_eq!(board.pieces[wp_sq.0 as usize], Piece(0));
    assert_eq!(
        board.bb_colors[Color::white().index()].0 & Bitboard::square_mask(wp_sq).0,
        0
    );

    assert_eq!(
        board.pieces[Square(28).0 as usize],
        Piece::new(Color::black(), Piece::pawn())
    );
}

#[test]
fn test_castling_kingside_white() {
    let mut board = Board::empty();

    // king e1, rook h1
    let king_sq = Square(4);
    let rook_sq = Square(7);

    board.pieces[king_sq.0 as usize] = Piece::new(Color::white(), Piece::king());
    board.pieces[rook_sq.0 as usize] = Piece::new(Color::white(), Piece::rook());

    board.bb_pieces[Piece::king().index()] =
        Bitboard(board.bb_pieces[Piece::king().index()].0 | Bitboard::square_mask(king_sq).0);
    board.bb_pieces[Piece::rook().index()] =
        Bitboard(board.bb_pieces[Piece::rook().index()].0 | Bitboard::square_mask(rook_sq).0);

    board.bb_colors[Color::white().index()] = Bitboard(
        board.bb_colors[Color::white().index()].0
            | Bitboard::square_mask(king_sq).0
            | Bitboard::square_mask(rook_sq).0,
    );

    let castle_move = Move::new(MoveFlag::castling(), king_sq, Square(6));
    board.make_move(castle_move).expect("Castling should succeed");

    assert_eq!(
        board.pieces[Square(6).0 as usize],
        Piece::new(Color::white(), Piece::king())
    );
    assert_eq!(
        board.pieces[Square(5).0 as usize],
        Piece::new(Color::white(), Piece::rook())
    );

    assert_eq!(board.pieces[king_sq.0 as usize], Piece(0));
    assert_eq!(board.pieces[rook_sq.0 as usize], Piece(0));
}

#[test]
fn test_castling_queenside_black() {
    let mut board = Board::empty();

    // king e8, rook a8
    let king_sq = Square(60);
    let rook_sq = Square(56);
    board.pieces[king_sq.0 as usize] = Piece::new(Color::black(), Piece::king());
    board.pieces[rook_sq.0 as usize] = Piece::new(Color::black(), Piece::rook());
    board.bb_pieces[Piece::king().index()] =
        Bitboard(board.bb_pieces[Piece::king().index()].0 | Bitboard::square_mask(king_sq).0);
    board.bb_pieces[Piece::rook().index()] =
        Bitboard(board.bb_pieces[Piece::rook().index()].0 | Bitboard::square_mask(rook_sq).0);
    board.bb_colors[Color::black().index()] = Bitboard(
        board.bb_colors[Color::black().index()].0
            | Bitboard::square_mask(king_sq).0
            | Bitboard::square_mask(rook_sq).0,
    );

    board.color_to_move = Color::black();

    let castle_move = Move::new(MoveFlag::castling(), king_sq, Square(58));
    board.make_move(castle_move).expect("Castling should succeed");

    assert_eq!(
        board.pieces[Square(58).0 as usize],
        Piece::new(Color::black(), Piece::king())
    );
    assert_eq!(
        board.pieces[Square(59).0 as usize],
        Piece::new(Color::black(), Piece::rook())
    );

    assert_eq!(board.pieces[king_sq.0 as usize], Piece(0));
    assert_eq!(board.pieces[rook_sq.0 as usize], Piece(0));
}

#[test]
fn from_fen() {
    let board = Board::from_fen(Board::start_fen()).unwrap();

    assert_eq!(board, Board::starting_board());
}
