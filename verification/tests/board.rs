use tictactoe::board::{Board, GameResult, Solution, Tile};
use tictactoe::players::Role;

/// The list of all possible winning solutions.
const WINNING_SOLUTIONS: [Solution; 8] = [
    [(0, 0), (1, 0), (2, 0)],
    [(0, 1), (1, 1), (2, 1)],
    [(0, 2), (1, 2), (2, 2)],
    [(0, 0), (0, 1), (0, 2)],
    [(1, 0), (1, 1), (1, 2)],
    [(2, 0), (2, 1), (2, 2)],
    [(0, 0), (1, 1), (2, 2)],
    [(2, 0), (1, 1), (0, 2)],
];

#[test]
fn compute_result_winner_role_o() {
    for solution in WINNING_SOLUTIONS.iter() {
        let mut board = Board::new();
        let mut game_results = Vec::new();
        let expected_game_results = [
            GameResult::NotFinished,
            GameResult::NotFinished,
            GameResult::Winner(Role::O, *solution),
        ];
        for position in solution.iter() {
            game_results.push(board.set(position.0, position.1, Role::O));
        }
        assert_eq!(expected_game_results.len(), game_results.len());
        assert!(expected_game_results
            .iter()
            .zip(game_results.iter())
            .all(|(expected_game_result, game_result)| expected_game_result == game_result));
    }
}

#[test]
fn compute_result_winner_role_x() {
    for solution in WINNING_SOLUTIONS.iter() {
        let mut board = Board::new();
        let mut game_results = Vec::new();
        let expected_game_results = [
            GameResult::NotFinished,
            GameResult::NotFinished,
            GameResult::Winner(Role::X, *solution),
        ];
        for position in solution.iter() {
            game_results.push(board.set(position.0, position.1, Role::X));
        }
        assert_eq!(expected_game_results.len(), game_results.len());
        assert!(expected_game_results
            .iter()
            .zip(game_results.iter())
            .all(|(expected_game_result, game_result)| expected_game_result == game_result));
    }
}

#[test]
fn compute_result_draw_role_o() {
    let mut board = Board::new();
    board.turns = 7;
    assert_eq!(GameResult::NotFinished, board.set(1, 1, Role::X));
    assert_eq!(GameResult::Draw, board.set(1, 2, Role::O));
}

#[test]
fn compute_result_draw_role_x() {
    let mut board = Board::new();
    board.turns = 7;
    assert_eq!(GameResult::NotFinished, board.set(0, 0, Role::O));
    assert_eq!(GameResult::Draw, board.set(0, 1, Role::X));
}

#[test]
fn set_role_o() {
    let mut board = Board::new();
    board.set(0, 0, Role::O);
    assert_eq!(&Tile::O(8), board.get(0, 0));
}

#[test]
fn set_role_x() {
    let mut board = Board::new();
    board.set(2, 1, Role::X);
    assert_eq!(&Tile::X(7), board.get(2, 1));
}

#[test]
fn set_role_o_increments_turns() {
    let mut board = Board::new();
    board.turns = 7;
    board.set(0, 0, Role::O);
    assert_eq!(8, board.turns);
}

#[test]
fn set_role_x_increments_turns() {
    let mut board = Board::new();
    board.turns = 4;
    board.set(2, 1, Role::X);
    assert_eq!(5, board.turns);
}

#[test]
fn reset_o_tile() {
    let mut board = Board::new();
    board.set(0, 0, Role::O);
    assert_eq!(&Tile::O(8), board.get(0, 0));
    board.reset(0, 0);
    assert_eq!(&Tile::Empty(8), board.get(0, 0));
}

#[test]
fn reset_x_tile() {
    let mut board = Board::new();
    board.set(2, 1, Role::X);
    assert_eq!(&Tile::X(7), board.get(2, 1));
    board.reset(2, 1);
    assert_eq!(&Tile::Empty(7), board.get(2, 1));
}

#[test]
fn reset_empty_tile() {
    let mut board = Board::new();
    board.set(2, 1, Role::X);
    assert_eq!(&Tile::X(7), board.get(2, 1));
    assert_eq!(&Tile::Empty(4), board.get(0, 2));
    board.reset(0, 2);
    assert_eq!(&Tile::Empty(4), board.get(0, 2));
}

#[test]
fn reset_decrements_turns() {
    let mut board = Board::new();
    board.turns = 4;
    board.reset(2, 1);
    assert_eq!(3, board.turns);
}

#[test]
fn available_spots_of_fresh_board_cover_the_grid() {
    let board = Board::new();
    let spots = board.get_available_spots();
    assert_eq!(9, spots.len());
    let expected = [
        (0, 0),
        (0, 1),
        (0, 2),
        (1, 0),
        (1, 1),
        (1, 2),
        (2, 0),
        (2, 1),
        (2, 2),
    ];
    assert_eq!(&expected[..], &spots[..]);
}

#[test]
fn available_spots_skip_occupied_cells() {
    let mut board = Board::new();
    board.set(1, 1, Role::O);
    board.set(0, 2, Role::X);
    let spots = board.get_available_spots();
    assert_eq!(7, spots.len());
    assert!(!spots.contains(&(1, 1)));
    assert!(!spots.contains(&(0, 2)));
}

#[test]
fn fresh_board_is_not_finished_for_either_role() {
    let board = Board::new();
    assert_eq!(GameResult::NotFinished, board.compute_result(Role::O));
    assert_eq!(GameResult::NotFinished, board.compute_result(Role::X));
}
