use tictactoe::artificial_intelligence::minimax;
use tictactoe::board::{Board, GameResult};
use tictactoe::players::{BasicComputerPlayerController, PlayerAction, Role};

#[test]
fn minimax_role_x_pos_after_set_0_0_role_o() {
    let mut board = Board::new();
    let game_result = board.set(0, 0, Role::O);
    assert_eq!(GameResult::NotFinished, game_result);
    assert_eq!((1, 1), minimax(&mut board, Role::X).pos);
}

#[test]
fn minimax_is_deterministic() {
    let mut board = Board::new();
    board.set(0, 0, Role::O);
    board.set(1, 1, Role::X);
    board.set(2, 2, Role::O);
    let first = minimax(&mut board, Role::X);
    let second = minimax(&mut board, Role::X);
    assert_eq!(first.pos, second.pos);
    assert_eq!(first.score, second.score);
}

#[test]
fn minimax_restores_the_board() {
    let mut board = Board::new();
    board.set(0, 0, Role::O);
    let before_turns = board.turns;
    let _ = minimax(&mut board, Role::X);
    assert_eq!(before_turns, board.turns);
    assert_eq!(&tictactoe::board::Tile::O(8), board.get(0, 0));
    assert!(board.is_empty(1, 1));
}

#[test]
fn minimax_takes_an_immediate_win() {
    // x has two in the top row with the third cell open.
    let mut board = Board::new();
    board.set(0, 0, Role::X);
    board.set(0, 1, Role::O);
    board.set(1, 0, Role::X);
    board.set(1, 1, Role::O);
    let m = minimax(&mut board, Role::X);
    assert_eq!((2, 0), m.pos);
    assert_eq!(10, m.score);
}

#[test]
fn minimax_blocks_an_immediate_loss() {
    // o threatens the top row; x must take the remaining cell.
    let mut board = Board::new();
    board.set(0, 0, Role::O);
    board.set(1, 1, Role::X);
    board.set(1, 0, Role::O);
    let m = minimax(&mut board, Role::X);
    assert_eq!((2, 0), m.pos);
}

/// Plays the search engine against itself from the empty board, both
/// sides moving optimally; the game must end in a draw.
#[test]
fn self_play_always_draws() {
    for first in [Role::O, Role::X] {
        let mut board = Board::new();
        let mut current = first;
        loop {
            let m = minimax(&mut board, current);
            let result = board.set(m.pos.0, m.pos.1, current);
            match result {
                GameResult::NotFinished => {
                    current = match current {
                        Role::O => Role::X,
                        Role::X => Role::O,
                    };
                }
                GameResult::Draw => break,
                GameResult::Winner(role, _) => {
                    panic!("optimal self-play produced a winner: {:?}", role)
                }
            }
        }
    }
}

/// Plays the search engine (as x) against the random controller (as o)
/// repeatedly; the optimal side never loses.
#[test]
fn search_never_loses_to_random_play() {
    let random = BasicComputerPlayerController {};
    for round in 0..40 {
        let mut board = Board::new();
        // Alternate who opens the game.
        let mut current = if round % 2 == 0 { Role::X } else { Role::O };
        loop {
            let pos = if current == Role::X {
                minimax(&mut board, Role::X).pos
            } else {
                match random.start_turn(&board) {
                    PlayerAction::Commit(p) => p,
                    _ => panic!("the random controller must commit"),
                }
            };
            let result = board.set(pos.0, pos.1, current);
            match result {
                GameResult::NotFinished => {
                    current = match current {
                        Role::O => Role::X,
                        Role::X => Role::O,
                    };
                }
                GameResult::Draw => break,
                GameResult::Winner(role, _) => {
                    assert_eq!(Role::X, role, "the random side must never beat the search");
                    break;
                }
            }
        }
    }
}
