use tictactoe::board::{Board, GameResult};
use tictactoe::players::{HumanPlayerController, Player, PlayerAction, PlayerController, Role};
use tictactoe::states::playing_state::PlayingState;
use tictactoe::states::{State, StateTransition};

fn two_humans() -> Vec<Player> {
    vec![
        Player::new(PlayerController::Human(HumanPlayerController {}), Role::O),
        Player::new(PlayerController::Human(HumanPlayerController {}), Role::X),
    ]
}

fn state_with_two_humans() -> PlayingState {
    PlayingState { board: Board::new(), current_player: 0, players: two_humans() }
}

#[test]
fn center_corner_corner_is_not_finished() {
    let mut state = state_with_two_humans();
    let t1 = state.handle_action(PlayerAction::Commit((1, 1)));
    assert!(matches!(t1, StateTransition::NoChange));
    let t2 = state.handle_action(PlayerAction::Commit((0, 0)));
    assert!(matches!(t2, StateTransition::NoChange));
    let t3 = state.handle_action(PlayerAction::Commit((2, 2)));
    assert!(matches!(t3, StateTransition::NoChange));
    assert_eq!(GameResult::NotFinished, state.board.compute_result(Role::O));
    assert_eq!(GameResult::NotFinished, state.board.compute_result(Role::X));
    assert_eq!(3, state.board.turns);
}

#[test]
fn completing_the_top_row_wins_and_raises_the_score() {
    let mut state = state_with_two_humans();
    assert!(matches!(state.handle_action(PlayerAction::Commit((0, 0))), StateTransition::NoChange));
    assert!(matches!(state.handle_action(PlayerAction::Commit((0, 1))), StateTransition::NoChange));
    assert!(matches!(state.handle_action(PlayerAction::Commit((1, 0))), StateTransition::NoChange));
    assert!(matches!(state.handle_action(PlayerAction::Commit((1, 1))), StateTransition::NoChange));
    match state.handle_action(PlayerAction::Commit((2, 0))) {
        StateTransition::Switch(State::EndGameMenu(end)) => {
            assert_eq!(Some(Role::O), end.winner);
            assert_eq!(Some([(0, 0), (1, 0), (2, 0)]), end.board.highlighted_solution);
            assert_eq!(1, end.players[0].score);
            assert_eq!(0, end.players[1].score);
        }
        _ => panic!("the winning commit must switch to the end-of-game menu"),
    }
}

#[test]
fn filling_the_board_without_a_line_is_a_draw() {
    // x o x / x o o / o x x holds no three-in-a-row for either role.
    let mut state = state_with_two_humans();
    state.current_player = 1;
    let moves = [
        (0, 0), // x
        (1, 0), // o
        (2, 0), // x
        (1, 1), // o
        (0, 1), // x
        (2, 1), // o
        (1, 2), // x
        (0, 2), // o
    ];
    for (x, y) in moves {
        assert!(matches!(
            state.handle_action(PlayerAction::Commit((x, y))),
            StateTransition::NoChange
        ));
    }
    match state.handle_action(PlayerAction::Commit((2, 2))) {
        StateTransition::Switch(State::EndGameMenu(end)) => {
            assert_eq!(None, end.winner);
            assert_eq!(9, end.board.turns);
            assert_eq!(0, end.players[0].score);
            assert_eq!(0, end.players[1].score);
        }
        _ => panic!("the ninth commit must switch to the end-of-game menu"),
    }
}

#[test]
fn a_cursor_move_pauses_without_changing_the_turn() {
    let mut state = state_with_two_humans();
    let t = state.handle_action(PlayerAction::MoveCursor((2, 1)));
    assert!(matches!(t, StateTransition::NoChange));
    assert_eq!((2, 1), state.board.playing_position);
    assert_eq!(0, state.current_player);
    assert_eq!(0, state.board.turns);
}

#[test]
fn a_commit_on_an_occupied_cell_places_nothing() {
    let mut state = state_with_two_humans();
    assert!(matches!(state.handle_action(PlayerAction::Commit((1, 1))), StateTransition::NoChange));
    assert_eq!(1, state.current_player);
    // The second player tries the same cell: the board keeps one tile and
    // the turn passes on.
    assert!(matches!(state.handle_action(PlayerAction::Commit((1, 1))), StateTransition::NoChange));
    assert_eq!(1, state.board.turns);
    assert_eq!(0, state.current_player);
}

#[test]
fn with_opponent_pairs_the_human_with_the_given_controller() {
    let state = PlayingState::with_opponent(PlayerController::Human(HumanPlayerController {}));
    assert_eq!(2, state.players.len());
    assert!(matches!(state.players[0].controller, PlayerController::Human(_)));
    assert_eq!(Role::O, state.players[0].role);
    assert_eq!(Role::X, state.players[1].role);
    assert!(state.current_player < 2);
    assert_eq!(0, state.board.turns);
}

#[test]
fn with_players_against_the_search_lets_it_open_with_one_move() {
    for _ in 0..20 {
        let state = PlayingState::with_players(vec![
            Player::new(PlayerController::Human(HumanPlayerController {}), Role::O),
            Player::new(
                PlayerController::Unbeatable(
                    tictactoe::players::UnbeatableComputerPlayerController {},
                ),
                Role::X,
            ),
        ]);
        // Either the human starts (no tile yet) or the computer has
        // already committed exactly one move.
        assert!(state.board.turns <= 1);
        assert_eq!(0, state.current_player);
    }
}
