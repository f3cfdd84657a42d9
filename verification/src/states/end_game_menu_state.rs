//! The menu displayed when the game ends; it shows the final board with
//! the winning combo and offers to play again.

use vstd::prelude::*;
use vstd::string::StringExecFns;

use crate::game::board::Board;
use crate::game::players::{has_human_player, Player, Role};
use crate::menus::{fresh_entry, Menu, MenuEntry, MenuEntryId, MenuState};
use crate::rendering::{Error, Renderer};
use crate::states::playing_state::{clone_players, restarted_match, PlayingState};
use crate::states::{State, StateTransition};

verus! {

/// The menu displayed when the game ends.
pub struct EndGameMenuState {
    pub board: Board,
    pub menu: Menu,
    pub play_again_entry: MenuEntryId,
    pub players: Vec<Player>,
    pub winner: Option<Role>,
}

/// The end-of-game menu's entries exactly as `EndGameMenuState::new`
/// builds them: Play again and Quit under the keys 1 and 2, with
/// `play_again_entry` naming the first.
pub open spec fn end_game_menu_entries(s: EndGameMenuState) -> bool {
    &&& s.play_again_entry == MenuEntryId(0)
    &&& s.menu.wf()
    &&& s.menu.next_id == 2
    &&& s.menu.entries@.len() == 2
    &&& s.menu.entries@[0].0 == MenuEntryId(0)
    &&& fresh_entry(s.menu.entries@[0].1, 1, "Play again"@)
    &&& s.menu.entries@[1].0 == MenuEntryId(1)
    &&& fresh_entry(s.menu.entries@[1].1, 2, "Quit"@)
}

impl EndGameMenuState {
    /// A well-formed board, the two players, and a human among them.
    pub open spec fn wf(&self) -> bool {
        &&& self.board.wf()
        &&& self.players@.len() == 2
        &&& has_human_player(self.players@)
    }

    /// Constructs the end-of-game menu around the final board, the players
    /// with their updated scores, and the winning role, if any.
    pub fn new(board: Board, players: Vec<Player>, winner: Option<Role>) -> (s: Self)
        requires
            board.wf(),
            players@.len() == 2,
        ensures
            s.board.tiles@ == board.tiles@,
            s.board.turns == board.turns,
            s.board.playing_position == board.playing_position,
            s.board.highlighted_solution == board.highlighted_solution,
            s.board.wf(),
            s.players@ == players@,
            s.winner == winner,
            end_game_menu_entries(s),
    {
        let mut menu = Menu::new();
        let play_again_entry = menu.push(MenuEntry::new(String::from_str("Play again"), 1));
        let _ = menu.push(MenuEntry::new(String::from_str("Quit"), 2));
        EndGameMenuState { board, menu, play_again_entry, players, winner }
    }
}

impl MenuState for EndGameMenuState {
    open spec fn wf(&self) -> bool {
        &&& self.board.wf()
        &&& self.players@.len() == 2
        &&& has_human_player(self.players@)
    }

    open spec fn menu_view(&self) -> Seq<(MenuEntryId, MenuEntry)> {
        self.menu.entries@
    }

    /// The play-again entry switches into a restarted match with the same
    /// players and scores, its opening turn already resolved; any other
    /// entry quits. The menu itself stays as it is.
    open spec fn selection_outcome(&self, entry: MenuEntryId, after: Self, t: StateTransition) -> bool {
        &&& after == *self
        &&& (entry == self.play_again_entry ==> (t matches StateTransition::Switch(s) && s matches
            State::Playing(p) && restarted_match(p, self.players@)))
        &&& (entry != self.play_again_entry ==> t is Quit)
    }

    fn get_menu(&self) -> (m: &Menu) {
        &self.menu
    }

    fn handle_selection(&mut self, entry: MenuEntryId) -> (t: StateTransition) {
        if entry == self.play_again_entry {
            return StateTransition::Switch(
                State::Playing(PlayingState::with_players(clone_players(&self.players))),
            );
        }
        StateTransition::Quit
    }

    fn render_header<R: Renderer>(&self, renderer: &R) -> Result<(), Error> {
        self.board.render(renderer)?;
        renderer.write("\n\n")?;
        match self.winner {
            Some(role) => {
                role.render(renderer)?;
                renderer.write(" won!")?;
            },
            None => {
                renderer.write("It's a draw!")?;
            },
        }
        renderer.write("\n\nScores:\n")?;
        let mut i: usize = 0;
        while i < self.players.len()
            invariant
                i <= self.players@.len(),
            decreases self.players@.len() - i,
        {
            self.players[i].render(renderer)?;
            renderer.write("\n")?;
            i = i + 1;
        }
        renderer.write("\nWhat do you want to do now?\n\n")?;
        Ok(())
    }
}

} // verus!
