use tictactoe::board::{Board, Layout};
use tictactoe::game::{outcome, Outcome};
use tictactoe::player::Player;

fn board_with(layout: Layout, xs: &[(usize, usize)], os: &[(usize, usize)]) -> Board {
    let mut board = Board::new(layout).unwrap();
    for m in xs {
        board.apply_move(*m, Player::X);
    }
    for m in os {
        board.apply_move(*m, Player::O);
    }
    board
}

#[test]
fn empty_boards_score_nothing() {
    assert_eq!(Board::new(Layout::Empty).unwrap().score(), 0);
    assert_eq!(Board::new(Layout::ThreeByThree).unwrap().score(), 0);
}

#[test]
fn a_row_of_three_counts_one() {
    let board = board_with(Layout::Empty, &[(0, 0), (0, 1), (0, 2)], &[]);
    assert_eq!(board.score(), 1);
}

#[test]
fn a_row_of_three_of_the_second_player_counts_minus_one() {
    let board = board_with(Layout::Empty, &[], &[(4, 2), (4, 3), (4, 4)]);
    assert_eq!(board.score(), -1);
}

#[test]
fn a_column_of_three_counts_one() {
    let board = board_with(Layout::Empty, &[(2, 4), (3, 4), (4, 4)], &[]);
    assert_eq!(board.score(), 1);
}

#[test]
fn both_diagonals_count() {
    let down_right = board_with(Layout::Empty, &[(1, 1), (2, 2), (3, 3)], &[]);
    assert_eq!(down_right.score(), 1);
    let down_left = board_with(Layout::Empty, &[], &[(0, 4), (1, 3), (2, 2)]);
    assert_eq!(down_left.score(), -1);
}

#[test]
fn overlapping_runs_count_each() {
    let four = board_with(Layout::Empty, &[(0, 0), (0, 1), (0, 2), (0, 3)], &[]);
    assert_eq!(four.score(), 2);
    let five = board_with(Layout::Empty, &[], &[(0, 2), (1, 2), (2, 2), (3, 2), (4, 2)]);
    assert_eq!(five.score(), -3);
}

#[test]
fn two_marks_and_a_gap_count_nothing() {
    let board = board_with(Layout::Empty, &[(0, 0), (0, 1), (0, 3)], &[]);
    assert_eq!(board.score(), 0);
}

#[test]
fn a_mixed_run_counts_nothing() {
    let board = board_with(Layout::Empty, &[(0, 0), (0, 2)], &[(0, 1)]);
    assert_eq!(board.score(), 0);
}

#[test]
fn walls_break_runs() {
    let board = board_with(Layout::ThreeByThree, &[(1, 1), (1, 2)], &[]);
    assert_eq!(board.score(), 0);
}

#[test]
fn a_full_interior_counts_eight() {
    let all = [(1, 1), (1, 2), (1, 3), (2, 1), (2, 2), (2, 3), (3, 1), (3, 2), (3, 3)];
    let xs = board_with(Layout::ThreeByThree, &all, &[]);
    assert_eq!(xs.score(), 8);
    let os = board_with(Layout::ThreeByThree, &[], &all);
    assert_eq!(os.score(), -8);
}

#[test]
fn runs_of_both_players_cancel() {
    let board = board_with(
        Layout::Empty,
        &[(0, 0), (0, 1), (0, 2)],
        &[(2, 0), (3, 0), (4, 0), (2, 1), (3, 1), (4, 1)],
    );
    assert_eq!(board.score(), -1);
}

#[test]
fn a_full_blank_board_of_one_player_counts_every_run() {
    let mut all = vec![];
    for i in 0..5 {
        for j in 0..5 {
            all.push((i, j));
        }
    }
    let board = board_with(Layout::Empty, &all, &[]);
    assert_eq!(board.score(), 15 + 15 + 9 + 9);
}

#[test]
fn score_does_not_depend_on_the_order_of_moves() {
    let xs = [(1, 1), (2, 2), (3, 3), (1, 3)];
    let os = [(1, 2), (2, 1), (3, 1)];
    let first = board_with(Layout::ThreeByThree, &xs, &os);

    let mut second = Board::new(Layout::ThreeByThree).unwrap();
    second.apply_move((3, 1), Player::O);
    second.apply_move((1, 3), Player::X);
    second.apply_move((2, 1), Player::O);
    second.apply_move((3, 3), Player::X);
    second.apply_move((1, 2), Player::O);
    second.apply_move((2, 2), Player::X);
    second.apply_move((1, 1), Player::X);

    assert_eq!(first.get_cells(), second.get_cells());
    assert_eq!(first.score(), second.score());
    assert_eq!(first.score(), 1);
}

#[test]
fn score_follows_undo() {
    let mut board = board_with(Layout::Empty, &[(0, 0), (0, 1), (0, 2)], &[]);
    assert_eq!(board.score(), 1);
    board.undo_move((0, 1), Player::X);
    assert_eq!(board.score(), 0);
}

#[test]
fn outcome_follows_the_sign_of_the_score() {
    assert_eq!(outcome(3), Outcome::XWins);
    assert_eq!(outcome(1), Outcome::XWins);
    assert_eq!(outcome(0), Outcome::Draw);
    assert_eq!(outcome(-1), Outcome::OWins);
    assert_eq!(outcome(i32::MIN), Outcome::OWins);
}
