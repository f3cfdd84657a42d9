use tictactoe::input::{InputEvent, InputMode, Key};
use tictactoe::players::{PlayerController, Role};
use tictactoe::states::main_menu_state::MainMenuState;
use tictactoe::states::{State, StateManager};

fn line(s: &str) -> InputEvent {
    InputEvent::Line(s.to_string())
}

fn manager() -> StateManager {
    StateManager::new(State::MainMenu(MainMenuState::new()))
}

#[test]
fn the_main_menu_reads_lines_and_play_reads_keys() {
    let mut m = manager();
    assert!(matches!(
        m.get_current_state().unwrap().get_input_mode(),
        InputMode::Line
    ));
    assert_eq!(Ok(false), m.handle_input(line("1")).map_err(|_| ()));
    assert_eq!(Ok(false), m.handle_input(line("1")).map_err(|_| ()));
    let top = m.get_current_state().unwrap();
    assert!(matches!(top, State::Playing(_)));
    assert!(matches!(top.get_input_mode(), InputMode::Key));
}

#[test]
fn choosing_play_pushes_the_opponent_menu() {
    let mut m = manager();
    assert_eq!(Ok(false), m.handle_input(line("1")).map_err(|_| ()));
    assert!(matches!(
        m.get_current_state().unwrap(),
        State::ChooseOpponentMenu(_)
    ));
    // Going back pops to the main menu that is still underneath.
    assert_eq!(Ok(false), m.handle_input(line("4")).map_err(|_| ()));
    assert!(matches!(m.get_current_state().unwrap(), State::MainMenu(_)));
}

#[test]
fn choosing_the_unbeatable_computer_starts_that_match() {
    let mut m = manager();
    assert_eq!(Ok(false), m.handle_input(line("1")).map_err(|_| ()));
    assert_eq!(Ok(false), m.handle_input(line("3")).map_err(|_| ()));
    match m.get_current_state().unwrap() {
        State::Playing(p) => {
            assert!(matches!(p.players[0].controller, PlayerController::Human(_)));
            assert!(matches!(p.players[1].controller, PlayerController::Unbeatable(_)));
            assert_eq!(Role::O, p.players[0].role);
            assert_eq!(Role::X, p.players[1].role);
            assert_eq!(0, p.players[0].score);
            assert_eq!(0, p.players[1].score);
            // Either the human is to open, or the computer already
            // committed its single opening move.
            assert!(p.board.turns <= 1);
        }
        _ => panic!("choosing an opponent must start a game"),
    }
}

#[test]
fn quitting_from_the_main_menu_asks_to_close() {
    let mut m = manager();
    assert_eq!(Ok(true), m.handle_input(line("2")).map_err(|_| ()));
}

#[test]
fn gibberish_input_changes_nothing() {
    let mut m = manager();
    assert_eq!(Ok(false), m.handle_input(line("nonsense")).map_err(|_| ()));
    assert!(matches!(m.get_current_state().unwrap(), State::MainMenu(_)));
}

#[test]
fn escape_during_play_asks_to_close() {
    let mut m = manager();
    assert_eq!(Ok(false), m.handle_input(line("1")).map_err(|_| ()));
    assert_eq!(Ok(false), m.handle_input(line("1")).map_err(|_| ()));
    assert!(matches!(m.get_current_state().unwrap(), State::Playing(_)));
    assert_eq!(
        Ok(true),
        m.handle_input(InputEvent::Key(Key::Escape)).map_err(|_| ())
    );
}

#[test]
fn playing_a_full_game_reaches_the_end_menu_and_back() {
    let mut m = manager();
    assert_eq!(Ok(false), m.handle_input(line("1")).map_err(|_| ()));
    // Play against a friend, so every move is driven by keys.
    assert_eq!(Ok(false), m.handle_input(line("1")).map_err(|_| ()));
    // The cursor starts at the center; claim the center, then drive the
    // cursor around so that whoever is first completes a column while the
    // other fills a harmless pair.
    let mut press = |m: &mut StateManager, k: Key| {
        assert_eq!(Ok(false), m.handle_input(InputEvent::Key(k)).map_err(|_| ()));
    };
    // First player takes (1, 1).
    press(&mut m, Key::Char('\n'));
    // Second player takes (0, 1).
    press(&mut m, Key::Left);
    press(&mut m, Key::Char('\n'));
    // First player takes (1, 0).
    press(&mut m, Key::Right);
    press(&mut m, Key::Up);
    press(&mut m, Key::Char('\n'));
    // Second player takes (2, 0).
    press(&mut m, Key::Right);
    press(&mut m, Key::Char('\n'));
    // First player completes the middle column at (1, 2).
    press(&mut m, Key::Left);
    press(&mut m, Key::Down);
    press(&mut m, Key::Down);
    press(&mut m, Key::Char('\n'));
    match m.get_current_state().unwrap() {
        State::EndGameMenu(end) => {
            assert!(end.winner.is_some());
            assert_eq!(1, end.players.iter().map(|p| p.score).sum::<usize>());
        }
        _ => panic!("the finished game must show the end-of-game menu"),
    }
    // Play again returns to a fresh game with the same players and their
    // scores.
    assert_eq!(Ok(false), m.handle_input(line("1")).map_err(|_| ()));
    match m.get_current_state().unwrap() {
        State::Playing(p) => {
            assert!(p.board.turns <= 1);
            assert_eq!(1, p.players.iter().map(|q| q.score).sum::<usize>());
        }
        _ => panic!("play again must restart the game"),
    }
}
