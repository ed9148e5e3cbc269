use tictactoe::agents::{Agent, FirstMoveAgent, RandomAgent, TestAgent};
use tictactoe::board::{Board, Cell, Layout};
use tictactoe::error::GameError;
use tictactoe::game::{accept, play};
use tictactoe::player::Player;
use tictactoe::solution::SolutionAgent;

#[test]
fn first_move_agent_takes_the_first_empty_cell() {
    let mut board = Board::new(Layout::ThreeByThree).unwrap();
    assert_eq!(FirstMoveAgent::solve(&mut board, Player::X), Ok((0, 1, 1)));
    board.apply_move((1, 1), Player::X);
    board.apply_move((1, 2), Player::O);
    let before = board.get_cells().clone();
    assert_eq!(FirstMoveAgent::solve(&mut board, Player::O), Ok((0, 1, 3)));
    assert_eq!(board.get_cells(), &before);
}

#[test]
fn random_agent_takes_an_empty_cell() {
    let mut board = Board::new(Layout::ThreeByThree).unwrap();
    board.apply_move((2, 2), Player::X);
    let before = board.get_cells().clone();
    let mut seen = vec![];
    for _ in 0..200 {
        let (estimate, row, col) = RandomAgent::solve(&mut board, Player::O).unwrap();
        assert_eq!(estimate, 0);
        assert!(board.is_open((row, col)));
        assert_eq!(board.get_cells(), &before);
        if !seen.contains(&(row, col)) {
            seen.push((row, col));
        }
    }
    assert!(seen.len() > 1);
}

#[test]
fn random_agent_takes_the_last_empty_cell() {
    let mut board = Board::with_walls(5, &vec![0; 24]).unwrap();
    assert_eq!(RandomAgent::solve(&mut board, Player::X), Ok((0, 4, 4)));
}

#[test]
fn a_draw_stands_for_the_empty_cell_of_that_number() {
    let mut board = Board::new(Layout::ThreeByThree).unwrap();
    assert_eq!(RandomAgent::pick(&board, 0), (1, 1));
    assert_eq!(RandomAgent::pick(&board, 4), (2, 2));
    assert_eq!(RandomAgent::pick(&board, 8), (3, 3));
    board.apply_move((2, 2), Player::X);
    assert_eq!(RandomAgent::pick(&board, 4), (2, 3));
}

#[test]
fn scripted_agent_names_the_cells_in_turn() {
    let mut board = Board::new(Layout::Empty).unwrap();
    assert_eq!(TestAgent::solve(&mut board, Player::X), Ok((0, 0, 0)));
    board.apply_move((0, 0), Player::X);
    assert_eq!(TestAgent::solve(&mut board, Player::O), Ok((0, 0, 1)));
    board.apply_move((3, 3), Player::O);
    board.apply_move((3, 4), Player::X);
    board.apply_move((4, 4), Player::O);
    board.apply_move((2, 2), Player::X);
    board.apply_move((2, 3), Player::O);
    assert_eq!(TestAgent::solve(&mut board, Player::X), Ok((0, 1, 1)));
}

#[test]
fn unwritten_agent_is_unimplemented() {
    let mut board = Board::new(Layout::ThreeByThree).unwrap();
    let before = board.get_cells().clone();
    assert_eq!(
        SolutionAgent::solve(&mut board, Player::X),
        Err(GameError::Unimplemented)
    );
    assert_eq!(
        SolutionAgent::solve(&mut board, Player::O),
        Err(GameError::Unimplemented)
    );
    assert_eq!(board.get_cells(), &before);
}

#[test]
fn first_move_game_is_the_same_every_time() {
    let mut first = Board::new(Layout::ThreeByThree).unwrap();
    let one = play::<FirstMoveAgent, FirstMoveAgent>(&mut first);
    let x = Player::X;
    let o = Player::O;
    assert_eq!(
        one.moves,
        vec![
            ((1, 1), x),
            ((1, 2), o),
            ((1, 3), x),
            ((2, 1), o),
            ((2, 2), x),
            ((2, 3), o),
            ((3, 1), x),
            ((3, 2), o),
            ((3, 3), x),
        ]
    );
    assert_eq!(one.end, Ok(2));
    assert!(first.game_over());
    assert_eq!(first.score(), 2);

    for _ in 0..5 {
        let mut again = Board::new(Layout::ThreeByThree).unwrap();
        let two = play::<FirstMoveAgent, FirstMoveAgent>(&mut again);
        assert_eq!(two.moves, one.moves);
        assert_eq!(two.end, one.end);
        assert_eq!(again.get_cells(), first.get_cells());
    }
}

#[test]
fn first_move_game_on_a_blank_board() {
    let mut board = Board::new(Layout::Empty).unwrap();
    let record = play::<FirstMoveAgent, FirstMoveAgent>(&mut board);
    assert_eq!(record.moves.len(), 25);
    assert_eq!(record.end, Ok(2));
    assert_eq!(board.count(Cell::X), 13);
    assert_eq!(board.count(Cell::O), 12);
}

#[test]
fn scripted_game_fills_a_blank_board() {
    let mut board = Board::new(Layout::Empty).unwrap();
    let record = play::<TestAgent, TestAgent>(&mut board);
    assert_eq!(record.moves.len(), 25);
    for (k, (m, player)) in record.moves.iter().enumerate() {
        assert_eq!(*m, (k / 5, k % 5));
        assert_eq!(*player, if k % 2 == 0 { Player::X } else { Player::O });
    }
    assert_eq!(record.end, Ok(2));
}

#[test]
fn scripted_game_runs_into_a_wall() {
    let mut board = Board::new(Layout::ThreeByThree).unwrap();
    let before = board.get_cells().clone();
    let record = play::<TestAgent, FirstMoveAgent>(&mut board);
    assert_eq!(record.moves, vec![]);
    assert_eq!(record.end, Err(GameError::IllegalMove));
    assert_eq!(board.get_cells(), &before);
}

#[test]
fn scripted_move_onto_a_mark_is_illegal() {
    let mut board = Board::new(Layout::Empty).unwrap();
    board.apply_move((0, 1), Player::X);
    let answer = TestAgent::solve(&mut board, Player::O);
    assert_eq!(answer, Ok((0, 0, 1)));
    assert_eq!(
        accept(&mut board, Player::O, answer),
        Err(GameError::IllegalMove)
    );
    assert_eq!(board.get_cells()[0][1], Cell::X);
    assert_eq!(
        board.try_apply_move((0, 1), Player::O),
        Err(GameError::IllegalMove)
    );
}

#[test]
fn game_with_the_unwritten_agent_ends_unimplemented() {
    let mut board = Board::new(Layout::ThreeByThree).unwrap();
    let record = play::<FirstMoveAgent, SolutionAgent>(&mut board);
    assert_eq!(record.moves, vec![((1, 1), Player::X)]);
    assert_eq!(record.end, Err(GameError::Unimplemented));
    assert_eq!(board.get_cells()[1][1], Cell::X);
    assert_eq!(board.count(Cell::Empty), 8);
}

#[test]
fn random_game_fills_the_board() {
    for _ in 0..20 {
        let mut board = Board::new(Layout::Random(7)).unwrap();
        let record = play::<RandomAgent, FirstMoveAgent>(&mut board);
        assert_eq!(record.moves.len(), 18);
        assert!(board.game_over());
        assert_eq!(record.end, Ok(board.score()));
        assert_eq!(board.count(Cell::X), 9);
        assert_eq!(board.count(Cell::O), 9);
        assert_eq!(board.count(Cell::Wall), 7);
    }
}

#[test]
fn game_on_a_full_board_has_no_moves() {
    let mut board = Board::with_size(Layout::ThreeByThree, 3).unwrap();
    board.apply_move((1, 1), Player::O);
    let record = play::<SolutionAgent, SolutionAgent>(&mut board);
    assert_eq!(record.moves, vec![]);
    assert_eq!(record.end, Ok(0));
}

#[test]
fn accept_makes_a_legal_move() {
    let mut board = Board::new(Layout::ThreeByThree).unwrap();
    assert_eq!(accept(&mut board, Player::X, Ok((5, 2, 2))), Ok(()));
    assert_eq!(board.get_cells()[2][2], Cell::X);
    assert_eq!(
        accept(&mut board, Player::O, Err(GameError::Unimplemented)),
        Err(GameError::Unimplemented)
    );
    assert_eq!(
        accept(&mut board, Player::O, Err(GameError::Forfeit)),
        Err(GameError::Forfeit)
    );
    assert_eq!(
        accept(&mut board, Player::O, Ok((0, 0, 0))),
        Err(GameError::IllegalMove)
    );
    assert_eq!(board.count(Cell::Empty), 8);
}
