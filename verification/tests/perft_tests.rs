use chess_core::board::defs::Square;
use chess_core::board::Board;
use chess_core::game::game_move::{Move, MoveFlag};
use chess_core::movegen::Movegen;

#[test]
fn test_perft() {
    println!("running perft from the starting position");
    let board = Board::from_fen(Board::start_fen()).expect("Failed to load starting board from FEN");

    let movegen = Movegen::new(board);

    let expected: [u64; 5] = [1, 20, 400, 8902, 197281];
    for ply in 1..expected.len() {
        let nodes = movegen.perft(ply as u8);
        println!("perft depth {}: {} nodes", ply, nodes);
        assert_eq!(nodes, expected[ply]);
    }
}

#[test]
fn perft_depth_five() {
    let board = Board::from_fen(Board::start_fen()).unwrap();
    let movegen = Movegen::new(board);
    assert_eq!(movegen.perft(5), 4865609);
}

#[test]
fn twenty_legal_openings() {
    // sixteen pawn moves (eight single, eight double) and four knight moves
    let board = Board::from_fen(Board::start_fen()).unwrap();
    let movegen = Movegen::new(board);
    let moves = movegen.legal();
    assert_eq!(moves.len(), 20);
}

#[test]
fn en_passant_squares_after_double_pushes() {
    let mut board = Board::from_fen(Board::start_fen()).unwrap();

    // e2-e4 leaves the skipped square e3 as the en-passant target
    board
        .make_move(Move::new(MoveFlag::quiet(), Square(12), Square(28)))
        .unwrap();
    assert_eq!(board.en_passant_square, Some(Square(20)));

    // d7-d5 answers with the target d6, and white is to move again
    board
        .make_move(Move::new(MoveFlag::quiet(), Square(51), Square(35)))
        .unwrap();
    assert_eq!(board.en_passant_square, Some(Square(43)));
    assert_eq!(board.color_to_move, chess_core::color::Color::white());
}

#[test]
fn perft_of_a_tactical_middlegame() {
    // a position rich in castling, pins, en passant and promotions
    let board = Board::from_fen(
        "r3k2r/p1ppqpb1/bn2pnp1/3PN3/1p2P3/2N2Q1p/PPPBBPPP/R3K2R w KQkq - 0 1",
    )
    .unwrap();
    assert!(board.position_valid());
    let movegen = Movegen::new(board);
    assert_eq!(movegen.perft(1), 48);
    assert_eq!(movegen.perft(2), 2039);
    assert_eq!(movegen.perft(3), 97862);
}

#[test]
fn perft_of_an_endgame_with_en_passant() {
    let board = Board::from_fen("8/2p5/3p4/KP5r/1R3p1k/8/4P1P1/8 w - - 0 1").unwrap();
    assert!(board.position_valid());
    let movegen = Movegen::new(board);
    assert_eq!(movegen.perft(1), 14);
    assert_eq!(movegen.perft(2), 191);
    assert_eq!(movegen.perft(3), 2812);
    assert_eq!(movegen.perft(4), 43238);
}
