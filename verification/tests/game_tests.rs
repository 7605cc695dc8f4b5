use tictactoe::game::Game;
use tictactoe::game::Outcome;
use tictactoe::game::Player;
use tictactoe::game::Player::Empty;
use tictactoe::game::Player::O;
use tictactoe::game::Player::X;

fn create_game(board: Vec<Player>, size: u8, cursor: (u8, u8)) -> Game {
    Game::from_parts(size, board, cursor, Player::X, false)
}

#[test]
fn diagonals() {
    let r1 = Game::from_parts(
        3,
        vec![X, O, Empty, O, X, Empty, Empty, O, X],
        (0, 0),
        O,
        true,
    )
    .count_matching_diagonals();

    assert_eq!(r1, (3, 0, Player::X, Player::Empty));

    let r2 = Game::from_parts(
        3,
        vec![O, O, Empty, O, X, Empty, Empty, O, X],
        (0, 0),
        X,
        true,
    )
    .count_matching_diagonals();

    assert_eq!(r2, (1, 0, Player::O, Player::Empty));

    let r3 = Game::from_parts(
        3,
        vec![X, O, Empty, O, X, Empty, Empty, O, O],
        (0, 0),
        O,
        true,
    )
    .count_matching_diagonals();

    assert_eq!(r3, (2, 0, Player::X, Player::Empty));
}

#[test]
fn test_empty_board() {
    let size = 3;
    let board = vec![Player::Empty; (size * size) as usize];
    let game = create_game(board, size, (0, 0));

    let (count_row, count_col, target) = game.count_matching_rows_cols();
    assert_eq!(count_row, 0);
    assert_eq!(count_col, 0);
    assert_eq!(target, Player::Empty);
}

#[test]
fn test_full_row_match() {
    let size = 3;
    let board = vec![
        X, X, X, // row 0
        O, Empty, O, Empty, O, Empty,
    ];
    let game = create_game(board, size, (1, 0)); // cursor on first row, middle column

    let (count_row, count_col, target) = game.count_matching_rows_cols();
    assert_eq!(count_row, 3); // entire row is X
    assert_eq!(count_col, 1); // only one X in the column
    assert_eq!(target, Player::X);
}

#[test]
fn test_full_col_match() {
    let size = 3;
    let board = vec![O, X, Empty, O, Empty, X, O, X, Empty];
    let game = create_game(board, size, (0, 2)); // cursor bottom-left

    let (count_row, count_col, target) = game.count_matching_rows_cols();
    assert_eq!(count_row, 1); // only one O in row 2
    assert_eq!(count_col, 3); // full column of O
    assert_eq!(target, Player::O);
}

#[test]
fn test_mixed_board() {
    let size = 3;
    let board = vec![X, O, X, O, X, O, X, Empty, O];
    let game = create_game(board, size, (1, 1)); // cursor at middle

    let (count_row, count_col, target) = game.count_matching_rows_cols();
    assert_eq!(count_row, 1); // only middle cell matches Player::X
    assert_eq!(count_col, 1); // top and middle cells are X
    assert_eq!(target, Player::X);
}

#[test]
fn cursor_stays_in_bounds() {
    let mut game = Game::new(3, false);

    // Press past the top-left corner: both requests are ignored.
    game.handleButtonLeft();
    game.handleButtonUp();
    assert_eq!(game.cursor(), (0, 0));

    // Walk to the bottom-right corner and press past it.
    for _ in 0..5 {
        game.handleButtonRight();
        game.handleButtonDown();
    }
    assert_eq!(game.cursor(), (2, 2));

    // One step back each way.
    game.handleButtonLeft();
    game.handleButtonUp();
    assert_eq!(game.cursor(), (1, 1));
}

#[test]
fn select_cell_ignores_out_of_range() {
    let mut game = Game::new(3, false);
    game.select_cell((2, 1));
    assert_eq!(game.cursor(), (2, 1));
    game.select_cell((3, 0));
    assert_eq!(game.cursor(), (2, 1));
    game.select_cell((0, 7));
    assert_eq!(game.cursor(), (2, 1));
}

#[test]
fn commit_on_occupied_cell_changes_nothing() {
    let board = vec![X, Empty, Empty, Empty, Empty, Empty, Empty, Empty, Empty];
    let mut game = Game::from_parts(3, board, (0, 0), O, false);

    game.handleConfirm();

    assert_eq!(game.cell(0, 0), Ok(Player::X));
    assert_eq!(game.turn(), Player::O);
    assert!(!game.confirm_pending());
    assert_eq!(game.outcome(), Outcome::Active);
}

#[test]
fn accepted_commit_flips_turn() {
    let mut game = Game::new(3, false);
    assert_eq!(game.turn(), Player::X);

    game.handleConfirm();
    assert_eq!(game.turn(), Player::O);
    assert_eq!(game.cell(0, 0), Ok(Player::X));
    assert!(game.confirm_pending());

    game.update();
    assert_eq!(game.outcome(), Outcome::Active);
    assert!(!game.confirm_pending());

    // The same cell is occupied now: the second commit is rejected and
    // the turn does not advance.
    game.handleConfirm();
    assert_eq!(game.turn(), Player::O);
    assert_eq!(game.cell(0, 0), Ok(Player::X));
    assert!(!game.confirm_pending());
}

#[test]
fn main_diagonal_win_resolves_to_x() {
    let board = vec![X, O, Empty, O, X, Empty, Empty, O, X];
    let game = Game::from_parts(3, board, (0, 0), O, true);

    assert_eq!(game.try_get_winner(), Some(Player::X));

    let mut game = game;
    game.update();
    assert_eq!(game.outcome(), Outcome::Won(Player::X));
}

#[test]
fn full_row_win_resolves_to_x() {
    let board = vec![X, X, X, O, Empty, O, Empty, O, Empty];
    let game = Game::from_parts(3, board, (0, 0), O, true);

    assert_eq!(game.try_get_winner(), Some(Player::X));

    let mut game = game;
    game.update();
    assert_eq!(game.outcome(), Outcome::Won(Player::X));
}

#[test]
fn even_size_has_no_diagonal_counts() {
    // Both diagonals of this 4x4 board are entirely X, yet the counts are
    // zero: diagonals are only evaluated on odd-sized boards.
    let board = vec![
        X, O, O, X, //
        O, X, X, O, //
        O, X, X, O, //
        X, O, O, X,
    ];
    let game = Game::from_parts(4, board, (0, 0), O, true);

    assert_eq!(
        game.count_matching_diagonals(),
        (0, 0, Player::Empty, Player::Empty)
    );
    assert_eq!(game.try_get_winner(), None);
}

#[test]
fn full_board_without_line_is_a_draw() {
    let board = vec![X, O, X, X, O, O, O, X, X];
    let mut game = Game::from_parts(3, board, (1, 1), X, true);

    assert_eq!(game.try_get_winner(), None);

    game.update();
    assert_eq!(game.outcome(), Outcome::Draw);
}

#[test]
fn resolving_a_terminal_session_changes_nothing() {
    // A drawn session stays drawn.
    let board = vec![X, O, X, X, O, O, O, X, X];
    let mut game = Game::from_parts(3, board, (1, 1), X, true);
    game.update();
    assert_eq!(game.outcome(), Outcome::Draw);
    game.update();
    assert_eq!(game.outcome(), Outcome::Draw);
    assert_eq!(game.cell(0, 0), Ok(Player::X));

    // A won session stays won, and further commits are rejected.
    let board = vec![X, X, X, O, Empty, O, Empty, O, Empty];
    let mut game = Game::from_parts(3, board, (0, 0), O, true);
    game.update();
    assert_eq!(game.outcome(), Outcome::Won(Player::X));
    game.update();
    assert_eq!(game.outcome(), Outcome::Won(Player::X));
    game.select_cell((1, 1));
    game.handleConfirm();
    assert_eq!(game.cell(1, 1), Ok(Player::Empty));
    assert_eq!(game.turn(), Player::O);
}

#[test]
fn one_cell_board_wins_at_once() {
    let mut game = Game::new(1, false);
    game.handleConfirm();
    game.update();
    assert_eq!(game.outcome(), Outcome::Won(Player::X));
}

#[test]
fn update_without_pending_commit_is_a_no_op() {
    let mut game = Game::new(3, false);
    game.update();
    assert_eq!(game.outcome(), Outcome::Active);
    assert_eq!(game.turn(), Player::X);
    assert_eq!(game.cursor(), (0, 0));
}
