use std::cell::RefCell;

use tictactoe::board::Board;
use tictactoe::menus::{Menu, MenuEntry};
use tictactoe::players::{Player, PlayerController, HumanPlayerController, Role};
use tictactoe::rendering::{Color, CursorPosition, Error, Renderer, ScreenSize};
use tictactoe::states::end_game_menu_state::EndGameMenuState;
use tictactoe::states::main_menu_state::MainMenuState;
use tictactoe::states::{State, StateManager};

/// A renderer that records everything written to it and pretends the
/// screen is a fixed small size.
struct RecordingRenderer {
    output: RefCell<String>,
    screen: ScreenSize,
}

impl RecordingRenderer {
    fn new(screen: ScreenSize) -> Self {
        RecordingRenderer { output: RefCell::new(String::new()), screen }
    }

    fn take(&self) -> String {
        self.output.borrow().clone()
    }
}

impl Renderer for RecordingRenderer {
    fn clear(&self) -> Result<(), Error> {
        Ok(())
    }

    fn clear_current_line(&self) -> Result<(), Error> {
        Ok(())
    }

    fn get_cursor_position(&self) -> CursorPosition {
        (0, 0)
    }

    fn get_screen_size(&self) -> ScreenSize {
        self.screen
    }

    fn set_background_color(&self, _color: Color) -> Result<(), Error> {
        Ok(())
    }

    fn set_cursor_position(&self, _position: CursorPosition) -> Result<(), Error> {
        Ok(())
    }

    fn set_foreground_color(&self, _color: Color) -> Result<(), Error> {
        Ok(())
    }

    fn write(&self, value: &str) -> Result<usize, Error> {
        self.output.borrow_mut().push_str(value);
        Ok(value.len())
    }
}

#[test]
fn an_empty_board_renders_as_a_grid() {
    let renderer = RecordingRenderer::new((80, 24));
    let board = Board::new();
    board.render(&renderer).map_err(|_| ()).unwrap();
    assert_eq!(" | | \n-+-+-\n | | \n-+-+-\n | | ", renderer.take());
}

#[test]
fn tiles_render_where_they_were_played() {
    let renderer = RecordingRenderer::new((80, 24));
    let mut board = Board::new();
    board.set(0, 0, Role::O);
    board.set(1, 1, Role::X);
    board.render(&renderer).map_err(|_| ()).unwrap();
    assert_eq!("o| | \n-+-+-\n |x| \n-+-+-\n | | ", renderer.take());
}

#[test]
fn a_player_renders_as_its_role_and_score() {
    let renderer = RecordingRenderer::new((80, 24));
    let mut player = Player::new(PlayerController::Human(HumanPlayerController {}), Role::O);
    player.score = 12;
    player.render(&renderer).map_err(|_| ()).unwrap();
    assert_eq!("o: 12", renderer.take());
}

#[test]
fn the_main_menu_renders_its_header_and_entries() {
    let renderer = RecordingRenderer::new((80, 24));
    let manager = StateManager::new(State::MainMenu(MainMenuState::new()));
    manager.render(&renderer).map_err(|_| ()).unwrap();
    assert_eq!("Tic Tac Toe\n\n1) Play\n2) Quit\n", renderer.take());
}

#[test]
fn the_end_game_menu_shows_the_winner_and_the_scores() {
    let renderer = RecordingRenderer::new((80, 24));
    let mut board = Board::new();
    board.set(0, 1, Role::X);
    board.set(1, 1, Role::X);
    board.set(0, 0, Role::O);
    board.set(1, 0, Role::O);
    board.set(2, 0, Role::O);
    let mut winner = Player::new(PlayerController::Human(HumanPlayerController {}), Role::O);
    winner.score = 1;
    let loser = Player::new(PlayerController::Human(HumanPlayerController {}), Role::X);
    let end = EndGameMenuState::new(board, vec![winner, loser], Some(Role::O));
    let manager = StateManager::new(State::EndGameMenu(end));
    manager.render(&renderer).map_err(|_| ()).unwrap();
    assert_eq!(
        "o|o|o\n-+-+-\nx|x| \n-+-+-\n | | \n\no won!\n\nScores:\no: 1\nx: 0\n\nWhat do you want to do now?\n\n1) Play again\n2) Quit\n",
        renderer.take()
    );
}

#[test]
fn a_long_menu_entry_wraps_to_the_screen_width() {
    // A ten-column screen and the margin "1) " leave seven columns for
    // the text, so "aaa bbb ccc" breaks after "aaa bbb", and the rest is
    // indented past the number.
    let renderer = RecordingRenderer::new((10, 24));
    let mut menu = Menu::new();
    let _ = menu.push(MenuEntry::new("aaa bbb ccc".to_string(), 1));
    menu.render(&renderer).map_err(|_| ()).unwrap();
    assert_eq!("1) aaa bbb\n   ccc\n", renderer.take());
}
