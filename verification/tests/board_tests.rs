use tictactoe::board::Board;
use tictactoe::board::BoardError;
use tictactoe::game::Player;

#[test]
fn new_board_is_empty() {
    let board = Board::new(3);
    for row in 0..3 {
        for col in 0..3 {
            assert_eq!(board.get(row, col), Ok(Player::Empty));
        }
    }
    assert!(!board.is_full());
}

#[test]
fn set_then_get_round_trip() {
    let mut board = Board::new(3);
    board.set(1, 2, Player::X);
    assert_eq!(board.get(1, 2), Ok(Player::X));
    assert_eq!(board.get(2, 1), Ok(Player::Empty));
    board.set(1, 2, Player::O);
    assert_eq!(board.get(1, 2), Ok(Player::O));
}

#[test]
fn out_of_range_access_is_an_error() {
    let board = Board::new(3);
    assert_eq!(board.get(3, 0), Err(BoardError::IndexOutOfRange));
    assert_eq!(board.get(0, 3), Err(BoardError::IndexOutOfRange));
    assert_eq!(board.get(200, 200), Err(BoardError::IndexOutOfRange));
}

#[test]
fn is_full_only_when_every_cell_is_marked() {
    let mut board = Board::new(2);
    let marks = [Player::X, Player::O, Player::O, Player::X];
    let mut k: usize = 0;
    for row in 0..2 {
        for col in 0..2 {
            assert!(!board.is_full());
            board.set(row, col, marks[k]);
            k += 1;
        }
    }
    assert!(board.is_full());
}
