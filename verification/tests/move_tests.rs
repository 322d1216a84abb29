use chess_core::board::defs::Square;
use chess_core::game::game_move::{Move, MoveFlag};
use chess_core::game::history::History;

#[test]
fn move_construction() {
    // en passant from d5 to e6
    let game_move = Move::new(MoveFlag::en_passant(), Square(35), Square(44));
    assert_eq!(game_move.0, 0b0010100011101100);
}

#[test]
fn game_move_accessors() {
    let game_move = Move::new(MoveFlag::en_passant(), Square(35), Square(44));

    assert_eq!(game_move.get_flag(), MoveFlag::en_passant());
    assert_eq!(game_move.get_source(), Square(35));
    assert_eq!(game_move.get_dest(), Square(44));
}

#[test]
fn history_stack() {
    let mut history = History::new();
    let m1 = Move::new(MoveFlag::quiet(), Square(12), Square(28));
    let m2 = Move::new(MoveFlag::capture(), Square(28), Square(35));
    history.push(m1);
    history.push(m2);
    assert_eq!(history.peek(), m2);
    assert_eq!(history.pop(), m2);
    assert_eq!(history.peek(), m1);
    assert_eq!(history.pop(), m1);
}

#[test]
fn printable_form() {
    assert_eq!(
        Move::new(MoveFlag::quiet(), Square(12), Square(28)).text(),
        "e2e4"
    );
    assert_eq!(
        Move::new(MoveFlag::capture(), Square(28), Square(35)).text(),
        "e4xd5"
    );
    assert_eq!(
        Move::new(MoveFlag::promotion_queen(), Square(48), Square(56)).text(),
        "a7a8=Q"
    );
}
