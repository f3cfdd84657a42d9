//! Roles, players and player controllers.
//!
//! A controller is a decision source: it is asked once when its turn starts
//! and once per input event while its turn is active, and answers with an
//! action. The set of controllers is closed, so it is a tagged variant type
//! dispatched by matching rather than open-ended polymorphism.

use vstd::prelude::*;

use crate::game::artificial_intelligence::{
    is_terminal, lemma_search_move_is_optimal, minimax, minimax_pos,
};
use crate::game::board::{
    avail_from, lemma_avail_elems, lemma_avail_nonempty, occupied_count, pos_index, tile_is_empty,
    Board, PlayingPosition, Tile,
};
use crate::input::Key;
use crate::rendering::{Error, Renderer};
use crate::text::format_usize;

verus! {

/// One of the two sides in a game, historically labeled "o" and "x".
#[derive(Clone, Copy, Debug, PartialEq, Eq, Structural)]
pub enum Role {
    O,
    X,
}

/// The opposing role.
pub open spec fn other_role(r: Role) -> Role {
    match r {
        Role::O => Role::X,
        Role::X => Role::O,
    }
}

impl Role {
    /// Renders this role to the terminal.
    pub fn render<R: Renderer>(&self, renderer: &R) -> Result<(), Error> {
        let written = match self {
            Role::O => renderer.write("o"),
            Role::X => renderer.write("x"),
        };
        match written {
            Ok(_) => Ok(()),
            Err(e) => Err(e),
        }
    }
}

/// Relies on `rand::random_range`: drawing from `0..n` yields a value below
/// `n`, and panics only on an empty range, which the precondition rules
/// out.
#[verifier::external_body]
fn random_below(n: usize) -> (r: usize)
    requires
        n > 0,
    ensures
        r < n,
{
    rand::random_range(0..n)
}

/// Picks one of two indices at random; used to choose who moves first.
pub fn random_player_index() -> (r: usize)
    ensures
        r < 2,
{
    random_below(2)
}

/// Describes all actions that can be performed by a player.
#[derive(Clone, Copy, Debug, PartialEq)]
pub enum PlayerAction {
    /// Moving the cursor.
    MoveCursor(PlayingPosition),
    /// Do nothing.
    Idle,
    /// Places a tile on the given spot.
    Commit(PlayingPosition),
}

/// The action a human controller takes on a key press: confirm commits on
/// an empty cursor cell, an arrow key moves the cursor one cell as long as
/// it stays on the grid, and every other key is ignored.
pub open spec fn human_action(tiles: Seq<Tile>, pos: PlayingPosition, key: Key) -> PlayerAction {
    if key == Key::Char('\n') && tile_is_empty(tiles[pos_index(pos)]) {
        PlayerAction::Commit(pos)
    } else if key == Key::Down && pos.1 < 2 {
        PlayerAction::MoveCursor((pos.0, (pos.1 + 1) as u8))
    } else if key == Key::Left && pos.0 > 0 {
        PlayerAction::MoveCursor((((pos.0 - 1) as u8), pos.1))
    } else if key == Key::Right && pos.0 < 2 {
        PlayerAction::MoveCursor((((pos.0 + 1) as u8), pos.1))
    } else if key == Key::Up && pos.1 > 0 {
        PlayerAction::MoveCursor((pos.0, (pos.1 - 1) as u8))
    } else {
        PlayerAction::Idle
    }
}

/// A basic computer player that will play a random spot each turn.
#[derive(Clone, Copy, Debug)]
pub struct BasicComputerPlayerController {}

impl BasicComputerPlayerController {
    /// Never responds to key presses.
    pub fn handle_key_press(&self, _board: &Board, _key: Key) -> (a: PlayerAction)
        ensures
            a == PlayerAction::Idle,
    {
        PlayerAction::Idle
    }

    /// Commits to a random empty spot; the spot is always drawn from the
    /// available ones, so it is on the grid and empty.
    pub fn start_turn(&self, board: &Board) -> (a: PlayerAction)
        requires
            board.wf(),
            occupied_count(board.tiles@) < 9,
        ensures
            (a matches PlayerAction::Commit(p) && avail_from(board.tiles@, 0).contains(p) && p.0
                < 3 && p.1 < 3 && tile_is_empty(board.tiles@[pos_index(p)])),
    {
        let spots = board.get_available_spots();
        proof {
            lemma_avail_nonempty(board.tiles@);
            lemma_avail_elems(board.tiles@, 0);
        }
        let i = random_below(spots.len());
        let spot = spots[i];
        proof {
            assert(avail_from(board.tiles@, 0)[i as int] == spot);
        }
        PlayerAction::Commit(spot)
    }
}

/// A human controlled player.
#[derive(Clone, Copy, Debug)]
pub struct HumanPlayerController {}

impl HumanPlayerController {
    /// Moves the cursor, commits on the cursor cell, or stays idle,
    /// exactly as `human_action` describes.
    pub fn handle_key_press(&self, board: &Board, key: Key) -> (a: PlayerAction)
        requires
            board.wf(),
        ensures
            a == human_action(board.tiles@, board.playing_position, key),
    {
        let pos = board.playing_position;
        match key {
            Key::Char('\n') if board.is_empty(pos.0, pos.1) => PlayerAction::Commit(pos),
            Key::Down if pos.1 < 2 => PlayerAction::MoveCursor((pos.0, pos.1 + 1)),
            Key::Left if pos.0 > 0 => PlayerAction::MoveCursor((pos.0 - 1, pos.1)),
            Key::Right if pos.0 < 2 => PlayerAction::MoveCursor((pos.0 + 1, pos.1)),
            Key::Up if pos.1 > 0 => PlayerAction::MoveCursor((pos.0, pos.1 - 1)),
            _ => PlayerAction::Idle,
        }
    }

    /// Does not do anything when the turn starts.
    pub fn start_turn(&self, _board: &Board) -> (a: PlayerAction)
        ensures
            a == PlayerAction::Idle,
    {
        PlayerAction::Idle
    }
}

/// A computer player that uses the exhaustive game-tree search.
#[derive(Clone, Copy, Debug)]
pub struct UnbeatableComputerPlayerController {}

impl UnbeatableComputerPlayerController {
    /// Never responds to key presses.
    pub fn handle_key_press(&self, _board: &Board, _key: Key) -> (a: PlayerAction)
        ensures
            a == PlayerAction::Idle,
    {
        PlayerAction::Idle
    }

    /// Commits to the best available move for x, found by the search; while
    /// the game is not over, that move is an empty cell on the grid.
    pub fn start_turn(&self, board: &Board) -> (a: PlayerAction)
        requires
            board.wf(),
        ensures
            a == PlayerAction::Commit(minimax_pos(board.tiles@, Role::X)),
            !is_terminal(board.tiles@) ==> (a matches PlayerAction::Commit(p) && p.0 < 3 && p.1 < 3
                && tile_is_empty(board.tiles@[pos_index(p)])),
    {
        let mut temp_board = board.clone();
        proof {
            if !is_terminal(board.tiles@) {
                lemma_search_move_is_optimal(board.tiles@, Role::X);
            }
        }
        PlayerAction::Commit(minimax(&mut temp_board, Role::X).pos)
    }
}

/// A player controller: the closed set of decision sources.
#[derive(Clone, Copy, Debug)]
pub enum PlayerController {
    Basic(BasicComputerPlayerController),
    Human(HumanPlayerController),
    Unbeatable(UnbeatableComputerPlayerController),
}

impl PlayerController {
    /// Handles a key press: only the human controller reacts to keys.
    pub fn handle_key_press(&self, board: &Board, key: Key) -> (a: PlayerAction)
        requires
            board.wf(),
        ensures
            self is Human ==> a == human_action(board.tiles@, board.playing_position, key),
            !(self is Human) ==> a == PlayerAction::Idle,
    {
        match self {
            PlayerController::Basic(c) => c.handle_key_press(board, key),
            PlayerController::Human(c) => c.handle_key_press(board, key),
            PlayerController::Unbeatable(c) => c.handle_key_press(board, key),
        }
    }

    /// Called when the player's turn starts: the computer controllers
    /// commit at once, the human controller waits for input.
    pub fn start_turn(&self, board: &Board) -> (a: PlayerAction)
        requires
            board.wf(),
            self is Basic ==> occupied_count(board.tiles@) < 9,
        ensures
            self is Human ==> a == PlayerAction::Idle,
            self is Basic ==> (a matches PlayerAction::Commit(p) && avail_from(
                board.tiles@,
                0,
            ).contains(p) && p.0 < 3 && p.1 < 3 && tile_is_empty(board.tiles@[pos_index(p)])),
            self is Unbeatable ==> a == PlayerAction::Commit(minimax_pos(board.tiles@, Role::X)),
            (self is Unbeatable && !is_terminal(board.tiles@)) ==> (a matches PlayerAction::Commit(
                p,
            ) && p.0 < 3 && p.1 < 3 && tile_is_empty(board.tiles@[pos_index(p)])),
    {
        match self {
            PlayerController::Basic(c) => c.start_turn(board),
            PlayerController::Human(c) => c.start_turn(board),
            PlayerController::Unbeatable(c) => c.start_turn(board),
        }
    }
}

/// Represents a player.
#[derive(Copy, Debug)]
pub struct Player {
    /// The way this player will interact with the board.
    pub controller: PlayerController,
    /// The current count of wins for this player.
    pub score: usize,
    /// The kind of tile that this player will place on the board.
    pub role: Role,
}

/// Whether some player in the list is human controlled.
pub open spec fn has_human_player(players: Seq<Player>) -> bool {
    exists|i: int| 0 <= i < players.len() && (#[trigger] players[i]).controller is Human
}

impl Clone for Player {
    /// Cloning yields an identical player.
    fn clone(&self) -> (p: Self)
        ensures
            p == *self,
    {
        *self
    }
}

impl Player {
    /// Constructs a new player with no wins yet.
    pub fn new(controller: PlayerController, role: Role) -> (p: Self)
        ensures
            p.controller == controller,
            p.score == 0,
            p.role == role,
    {
        Player { controller, score: 0, role }
    }

    /// Renders this player to the terminal as its role and score.
    pub fn render<R: Renderer>(&self, renderer: &R) -> Result<(), Error> {
        match self.role.render(renderer) {
            Ok(_) => {},
            Err(e) => {
                return Err(e);
            },
        }
        match renderer.write(": ") {
            Ok(_) => {},
            Err(e) => {
                return Err(e);
            },
        }
        let score = format_usize(self.score);
        match renderer.write(score.as_str()) {
            Ok(_) => Ok(()),
            Err(e) => Err(e),
        }
    }
}

} // verus!
