use tictactoe::board::Board;
use tictactoe::input::Key;
use tictactoe::players::{
    BasicComputerPlayerController, HumanPlayerController, PlayerAction, Role,
    UnbeatableComputerPlayerController,
};

#[test]
fn human_moves_cursor_within_the_grid() {
    let controller = HumanPlayerController {};
    let mut board = Board::new();
    board.playing_position = (1, 1);
    assert_eq!(
        PlayerAction::MoveCursor((1, 2)),
        controller.handle_key_press(&board, Key::Down)
    );
    assert_eq!(
        PlayerAction::MoveCursor((0, 1)),
        controller.handle_key_press(&board, Key::Left)
    );
    assert_eq!(
        PlayerAction::MoveCursor((2, 1)),
        controller.handle_key_press(&board, Key::Right)
    );
    assert_eq!(
        PlayerAction::MoveCursor((1, 0)),
        controller.handle_key_press(&board, Key::Up)
    );
}

#[test]
fn human_cursor_stops_at_the_boundary() {
    let controller = HumanPlayerController {};
    let mut board = Board::new();
    board.playing_position = (0, 0);
    assert_eq!(PlayerAction::Idle, controller.handle_key_press(&board, Key::Left));
    assert_eq!(PlayerAction::Idle, controller.handle_key_press(&board, Key::Up));
    assert_eq!((0, 0), board.playing_position);
    board.playing_position = (2, 2);
    assert_eq!(PlayerAction::Idle, controller.handle_key_press(&board, Key::Right));
    assert_eq!(PlayerAction::Idle, controller.handle_key_press(&board, Key::Down));
    assert_eq!((2, 2), board.playing_position);
}

#[test]
fn human_commits_only_on_an_empty_cell() {
    let controller = HumanPlayerController {};
    let mut board = Board::new();
    board.playing_position = (1, 1);
    assert_eq!(
        PlayerAction::Commit((1, 1)),
        controller.handle_key_press(&board, Key::Char('\n'))
    );
    board.set(1, 1, Role::X);
    assert_eq!(PlayerAction::Idle, controller.handle_key_press(&board, Key::Char('\n')));
}

#[test]
fn human_ignores_the_start_of_its_turn() {
    let controller = HumanPlayerController {};
    let board = Board::new();
    assert_eq!(PlayerAction::Idle, controller.start_turn(&board));
}

#[test]
fn random_controller_commits_to_an_available_spot() {
    let controller = BasicComputerPlayerController {};
    for _ in 0..50 {
        let mut board = Board::new();
        board.set(0, 0, Role::O);
        board.set(1, 1, Role::X);
        board.set(2, 2, Role::O);
        match controller.start_turn(&board) {
            PlayerAction::Commit(p) => {
                assert!(board.is_empty(p.0, p.1), "committed to an occupied cell");
            }
            _ => panic!("the random controller must commit"),
        }
    }
}

#[test]
fn random_controller_takes_the_only_spot_left() {
    let mut board = Board::new();
    let mut role = Role::O;
    for (x, y) in [(0, 0), (1, 0), (2, 0), (0, 1), (1, 1), (2, 1), (0, 2), (1, 2)] {
        board.set(x, y, role);
        role = match role {
            Role::O => Role::X,
            Role::X => Role::O,
        };
    }
    let controller = BasicComputerPlayerController {};
    assert_eq!(PlayerAction::Commit((2, 2)), controller.start_turn(&board));
}

#[test]
fn unbeatable_controller_plays_the_search_move() {
    let controller = UnbeatableComputerPlayerController {};
    let mut board = Board::new();
    board.set(0, 0, Role::O);
    let expected = tictactoe::artificial_intelligence::minimax(&mut board.clone(), Role::X).pos;
    assert_eq!(PlayerAction::Commit(expected), controller.start_turn(&board));
    assert_eq!(PlayerAction::Commit((1, 1)), controller.start_turn(&board));
}

#[test]
fn computer_controllers_ignore_key_presses() {
    let board = Board::new();
    assert_eq!(
        PlayerAction::Idle,
        BasicComputerPlayerController {}.handle_key_press(&board, Key::Down)
    );
    assert_eq!(
        PlayerAction::Idle,
        UnbeatableComputerPlayerController {}.handle_key_press(&board, Key::Char('\n'))
    );
}
