use chess_core::board::defs::Square;
use chess_core::board::Board;
use chess_core::color::Color;
use chess_core::game::defs::CastlingRights;

#[test]
fn rejects_short_records() {
    assert!(Board::from_fen("rnbqkbnr/pppppppp/8/8/8/8/PPPPPPPP/RNBQKBNR w KQkq -").is_err());
    assert!(Board::from_fen("").is_err());
}

#[test]
fn rejects_bad_fields() {
    // an unknown piece letter
    assert!(Board::from_fen("rnbqkbnr/pppppppx/8/8/8/8/PPPPPPPP/RNBQKBNR w KQkq - 0 1").is_err());
    // a placement overrunning the file bounds
    assert!(Board::from_fen("rnbqkbnrr/ppppppp/8/8/8/8/PPPPPPPP/RNBQKBNR w KQkq - 0 1").is_err());
    // a bad active-color token
    assert!(Board::from_fen("rnbqkbnr/pppppppp/8/8/8/8/PPPPPPPP/RNBQKBNR x KQkq - 0 1").is_err());
    // a bad castling character
    assert!(Board::from_fen("rnbqkbnr/pppppppp/8/8/8/8/PPPPPPPP/RNBQKBNR w KQxq - 0 1").is_err());
    // a malformed en-passant token
    assert!(Board::from_fen("rnbqkbnr/pppppppp/8/8/8/8/PPPPPPPP/RNBQKBNR w KQkq e33 0 1").is_err());
    // an en-passant square on the wrong rank for the side to move
    assert!(Board::from_fen("rnbqkbnr/pppppppp/8/8/8/8/PPPPPPPP/RNBQKBNR w KQkq e3 0 1").is_err());
    // an unparseable clock
    assert!(Board::from_fen("rnbqkbnr/pppppppp/8/8/8/8/PPPPPPPP/RNBQKBNR w KQkq - x 1").is_err());
    assert!(Board::from_fen("rnbqkbnr/pppppppp/8/8/8/8/PPPPPPPP/RNBQKBNR w KQkq - 256 1").is_err());
}

#[test]
fn reads_the_metadata_fields() {
    let board =
        Board::from_fen("rnbqkbnr/pppppppp/8/8/4P3/8/PPPP1PPP/RNBQKBNR b KQkq e3 12 34").unwrap();
    assert_eq!(board.color_to_move, Color::black());
    assert_eq!(board.castling_rights, CastlingRights(15));
    assert_eq!(board.en_passant_square, Some(Square(20)));
    assert_eq!(board.halfmove_clock, 12);
    assert_eq!(board.fullmove_number, 34);
}

#[test]
fn accepts_an_en_passant_square_for_white() {
    let board =
        Board::from_fen("rnbqkbnr/ppp1pppp/8/3p4/8/8/PPPPPPPP/RNBQKBNR w KQkq d6 0 2").unwrap();
    assert_eq!(board.en_passant_square, Some(Square(43)));
}

#[test]
fn parsed_positions_validate() {
    let board = Board::from_fen(Board::start_fen()).unwrap();
    assert!(board.position_valid());

    let mut broken = board;
    broken.pieces[0] = chess_core::piece::Piece(0);
    assert!(!broken.position_valid());

    // rights held without the rook at home
    let no_rook =
        Board::from_fen("rnbqkbn1/pppppppp/8/8/8/8/PPPPPPPP/RNBQKBNR b KQkq - 0 1").unwrap();
    assert!(!no_rook.position_valid());
}

#[test]
fn validation_requires_the_king_at_home_for_held_rights() {
    // rights held and rooks at home, but the white king stands on d1: all
    // three encodings agree, so only the king-home clause fails
    let base =
        Board::from_fen("rnbqkbnr/pppppppp/8/8/8/8/PPPPPPPP/RNB1K1NR w KQkq - 0 1").unwrap();
    assert!(base.position_valid());
    let mut moved = base;
    moved.pieces[4] = chess_core::piece::Piece(0);
    moved.pieces[3] = chess_core::piece::Piece(14);
    moved.bb_pieces[5] = chess_core::board::bitboard::Bitboard(
        (base.bb_pieces[5].0 & !(1u64 << 4)) | (1u64 << 3),
    );
    moved.bb_colors[0] = chess_core::board::bitboard::Bitboard(
        (base.bb_colors[0].0 & !(1u64 << 4)) | (1u64 << 3),
    );
    assert!(!moved.position_valid());
}

#[test]
fn rejection_matches_the_acceptance_contract() {
    // five fields only
    assert!(Board::from_fen("8/8/8/8/8/8/8/8 w - - 0").is_err());
    // a well-formed record with no pieces at all is accepted literally
    assert!(Board::from_fen("8/8/8/8/8/8/8/8 w - - 0 1").is_ok());
}
