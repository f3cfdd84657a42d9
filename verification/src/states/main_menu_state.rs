//! The main menu: play or quit.

use vstd::prelude::*;
use vstd::string::StringExecFns;

use crate::menus::{fresh_entry, Menu, MenuEntry, MenuEntryId, MenuState};
use crate::rendering::{Error, Renderer};
use crate::states::choose_opponent_menu_state::{
    fresh_choose_opponent_menu, ChooseOpponentMenuState,
};
use crate::states::{State, StateTransition};

verus! {

/// The main menu.
pub struct MainMenuState {
    pub menu: Menu,
    pub play_entry: MenuEntryId,
}

/// The main menu exactly as `MainMenuState::new` builds it: the Play and
/// Quit entries under the keys 1 and 2, with `play_entry` naming the
/// first.
pub open spec fn fresh_main_menu(s: MainMenuState) -> bool {
    &&& s.play_entry == MenuEntryId(0)
    &&& s.menu.wf()
    &&& s.menu.next_id == 2
    &&& s.menu.entries@.len() == 2
    &&& s.menu.entries@[0].0 == MenuEntryId(0)
    &&& fresh_entry(s.menu.entries@[0].1, 1, "Play"@)
    &&& s.menu.entries@[1].0 == MenuEntryId(1)
    &&& fresh_entry(s.menu.entries@[1].1, 2, "Quit"@)
}

impl MainMenuState {
    /// The main menu carries no data that could go wrong.
    pub open spec fn wf(&self) -> bool {
        true
    }

    /// Constructs the main menu with its two entries.
    pub fn new() -> (s: Self)
        ensures
            s.wf(),
            fresh_main_menu(s),
    {
        let mut menu = Menu::new();
        let play_entry = menu.push(MenuEntry::new(String::from_str("Play"), 1));
        let _ = menu.push(MenuEntry::new(String::from_str("Quit"), 2));
        MainMenuState { menu, play_entry }
    }
}

impl MenuState for MainMenuState {
    open spec fn wf(&self) -> bool {
        true
    }

    open spec fn menu_view(&self) -> Seq<(MenuEntryId, MenuEntry)> {
        self.menu.entries@
    }

    /// The play entry opens a freshly built choose-opponent menu on top of
    /// this one; any other entry quits. The menu itself stays as it is.
    open spec fn selection_outcome(&self, entry: MenuEntryId, after: Self, t: StateTransition) -> bool {
        &&& after == *self
        &&& (entry == self.play_entry ==> (t matches StateTransition::Push(s) && s matches
            State::ChooseOpponentMenu(c) && fresh_choose_opponent_menu(c)))
        &&& (entry != self.play_entry ==> t is Quit)
    }

    fn get_menu(&self) -> (m: &Menu) {
        &self.menu
    }

    fn handle_selection(&mut self, entry: MenuEntryId) -> (t: StateTransition) {
        if entry == self.play_entry {
            return StateTransition::Push(
                State::ChooseOpponentMenu(ChooseOpponentMenuState::new()),
            );
        }
        StateTransition::Quit
    }

    fn render_header<R: Renderer>(&self, renderer: &R) -> Result<(), Error> {
        renderer.write("Tic Tac Toe\n\n")?;
        Ok(())
    }
}

} // verus!
