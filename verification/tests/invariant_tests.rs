use chess_core::board::bitboard::Bitboard;
use chess_core::board::defs::Square;
use chess_core::board::{Board, MakeMoveError};
use chess_core::color::Color;
use chess_core::game::defs::CastlingRights;
use chess_core::game::game_move::{Move, MoveFlag};
use chess_core::movegen::Movegen;
use chess_core::piece::Piece;

fn place(board: &mut Board, sq: u8, color: Color, kind: Piece) {
    let piece = Piece::new(color, kind);
    board.pieces[sq as usize] = piece;
    board.bb_pieces[kind.index()] =
        Bitboard(board.bb_pieces[kind.index()].0 | Bitboard::square_mask(Square(sq)).0);
    board.bb_colors[color.index()] =
        Bitboard(board.bb_colors[color.index()].0 | Bitboard::square_mask(Square(sq)).0);
}

/// The three encodings agree at every square.
fn assert_consistent(board: &Board) {
    for s in 0..64u8 {
        let p = board.pieces[s as usize];
        let mask = 1u64 << s;
        if p == Piece(0) {
            for k in 0..6 {
                assert_eq!(board.bb_pieces[k].0 & mask, 0);
            }
            for c in 0..2 {
                assert_eq!(board.bb_colors[c].0 & mask, 0);
            }
        } else {
            for k in 0..6 {
                let expected = k == p.index();
                assert_eq!(board.bb_pieces[k].0 & mask != 0, expected);
            }
            for c in 0..2 {
                let expected = c == p.get_color().unwrap().index();
                assert_eq!(board.bb_colors[c].0 & mask != 0, expected);
            }
        }
    }
}

#[test]
fn moves_keep_the_encodings_consistent() {
    let mut board = Board::from_fen(Board::start_fen()).unwrap();
    assert_consistent(&board);

    // e2-e4, d7-d5, e4xd5
    board
        .make_move(Move::new(MoveFlag::quiet(), Square(12), Square(28)))
        .unwrap();
    assert_consistent(&board);
    board
        .make_move(Move::new(MoveFlag::quiet(), Square(51), Square(35)))
        .unwrap();
    assert_consistent(&board);
    board
        .make_move(Move::new(MoveFlag::capture(), Square(28), Square(35)))
        .unwrap();
    assert_consistent(&board);
}

#[test]
fn counts_agree_after_a_capture() {
    let mut board = Board::from_fen(Board::start_fen()).unwrap();
    board
        .make_move(Move::new(MoveFlag::quiet(), Square(12), Square(28)))
        .unwrap();
    board
        .make_move(Move::new(MoveFlag::quiet(), Square(51), Square(35)))
        .unwrap();
    board
        .make_move(Move::new(MoveFlag::capture(), Square(28), Square(35)))
        .unwrap();
    let pieces_union = board.bb_pieces.iter().fold(0u64, |acc, b| acc | b.0);
    let colors_union = board.bb_colors[0].0 | board.bb_colors[1].0;
    let mailbox_count = board.pieces.iter().filter(|p| **p != Piece(0)).count() as u32;
    assert_eq!(Bitboard(pieces_union).pop(), 31);
    assert_eq!(Bitboard(colors_union).pop(), 31);
    assert_eq!(mailbox_count, 31);
}

#[test]
fn sides_alternate() {
    let mut board = Board::from_fen(Board::start_fen()).unwrap();
    assert_eq!(board.color_to_move, Color::white());
    board
        .make_move(Move::new(MoveFlag::quiet(), Square(12), Square(28)))
        .unwrap();
    assert_eq!(board.color_to_move, Color::black());
    board
        .make_move(Move::new(MoveFlag::quiet(), Square(51), Square(35)))
        .unwrap();
    assert_eq!(board.color_to_move, Color::white());
}

#[test]
fn king_move_clears_both_rights() {
    let mut board = Board::empty();
    place(&mut board, 4, Color::white(), Piece::king());
    place(&mut board, 7, Color::white(), Piece::rook());
    place(&mut board, 0, Color::white(), Piece::rook());
    board.castling_rights = CastlingRights(15);
    board
        .make_move(Move::new(MoveFlag::quiet(), Square(4), Square(12)))
        .unwrap();
    assert_eq!(board.castling_rights.0 & 3, 0);
    assert_eq!(board.castling_rights.0 & 12, 12);
}

#[test]
fn corner_capture_clears_the_right() {
    let mut board = Board::empty();
    place(&mut board, 7, Color::white(), Piece::rook());
    place(&mut board, 14, Color::black(), Piece::bishop());
    board.castling_rights = CastlingRights(15);
    board.color_to_move = Color::black();
    board
        .make_move(Move::new(MoveFlag::capture(), Square(14), Square(7)))
        .unwrap();
    assert_eq!(board.castling_rights.0 & 1, 0);
    assert_eq!(board.castling_rights.0, 14);
}

#[test]
fn rights_never_grow() {
    let mut board = Board::from_fen(Board::start_fen()).unwrap();
    let mut previous = board.castling_rights.0;
    let moves = [
        Move::new(MoveFlag::quiet(), Square(12), Square(28)),
        Move::new(MoveFlag::quiet(), Square(52), Square(36)),
        Move::new(MoveFlag::quiet(), Square(4), Square(12)),
        Move::new(MoveFlag::quiet(), Square(60), Square(52)),
    ];
    for mv in moves.iter() {
        board.make_move(*mv).unwrap();
        assert_eq!(board.castling_rights.0 & !previous, 0);
        previous = board.castling_rights.0;
    }
    assert_eq!(board.castling_rights.0, 0);
}

#[test]
fn make_move_on_a_copy_leaves_the_original_alone() {
    let board = Board::from_fen(Board::start_fen()).unwrap();
    let mut copy = board.clone();
    copy.make_move(Move::new(MoveFlag::quiet(), Square(12), Square(28)))
        .unwrap();
    assert_eq!(board, Board::from_fen(Board::start_fen()).unwrap());
    assert_ne!(copy, board);
}

#[test]
fn make_move_errors() {
    let mut board = Board::from_fen(Board::start_fen()).unwrap();
    // an empty source square
    assert_eq!(
        board.make_move(Move::new(MoveFlag::quiet(), Square(20), Square(28))),
        Err(MakeMoveError::InvalidPieceColor)
    );
    // a piece of the side not to move
    let mut board2 = Board::from_fen(Board::start_fen()).unwrap();
    assert_eq!(
        board2.make_move(Move::new(MoveFlag::quiet(), Square(52), Square(36))),
        Err(MakeMoveError::InvalidPieceColor)
    );
    // a capture with no victim
    let mut board3 = Board::from_fen(Board::start_fen()).unwrap();
    assert_eq!(
        board3.make_move(Move::new(MoveFlag::capture(), Square(12), Square(28))),
        Err(MakeMoveError::NoCaptureVictim)
    );
    // a flag outside the defined encodings
    let mut board4 = Board::from_fen(Board::start_fen()).unwrap();
    assert_eq!(
        board4.make_move(Move::new(MoveFlag(9), Square(12), Square(28))),
        Err(MakeMoveError::UnhandledMoveFlag(MoveFlag(9)))
    );
}

#[test]
fn pawn_on_the_last_rank_promotes_four_ways() {
    let mut board = Board::empty();
    place(&mut board, 48, Color::white(), Piece::pawn());
    let movegen = Movegen::new(board);
    let moves = movegen.pseudo_legal();
    assert_eq!(moves.len(), 4);
    let mut flags: Vec<u8> = moves.iter().map(|m| m.get_flag().0).collect();
    flags.sort();
    assert_eq!(flags, vec![4, 5, 6, 7]);
    for m in moves.iter() {
        assert_eq!(m.get_source(), Square(48));
        assert_eq!(m.get_dest(), Square(56));
    }
}

#[test]
fn queenside_castling_needs_the_b_file_square_empty() {
    let mut board = Board::empty();
    place(&mut board, 4, Color::white(), Piece::king());
    place(&mut board, 0, Color::white(), Piece::rook());
    place(&mut board, 1, Color::white(), Piece::knight());
    board.castling_rights = CastlingRights(2);
    let movegen = Movegen::new(board);
    let castles: Vec<Move> = movegen
        .pseudo_legal()
        .into_iter()
        .filter(|m| m.get_flag() == MoveFlag::castling())
        .collect();
    assert!(castles.is_empty());

    let mut board2 = Board::empty();
    place(&mut board2, 4, Color::white(), Piece::king());
    place(&mut board2, 0, Color::white(), Piece::rook());
    board2.castling_rights = CastlingRights(2);
    let movegen2 = Movegen::new(board2);
    let castles2: Vec<Move> = movegen2
        .pseudo_legal()
        .into_iter()
        .filter(|m| m.get_flag() == MoveFlag::castling())
        .collect();
    assert_eq!(castles2.len(), 1);
    assert_eq!(castles2[0].get_dest(), Square(2));
}

#[test]
fn knight_in_a_corner_attacks_two_squares() {
    let board = Board::empty();
    let movegen = Movegen::new(board);
    for corner in [0u8, 7, 56, 63] {
        assert_eq!(movegen.tables.knight(Square(corner)).pop(), 2);
    }
}

#[test]
fn en_passant_keeps_the_capturable_rank() {
    let mut board = Board::from_fen(Board::start_fen()).unwrap();
    board
        .make_move(Move::new(MoveFlag::quiet(), Square(12), Square(28)))
        .unwrap();
    // black to move: the target square lies on rank 3
    let ep = board.en_passant_square.unwrap();
    assert_eq!(board.color_to_move, Color::black());
    assert_eq!(ep.0 / 8, 2);
    assert_eq!(board.pieces[ep.0 as usize], Piece(0));
}
