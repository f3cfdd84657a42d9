//! The menu in which the user chooses its opponent.

use vstd::prelude::*;
use vstd::string::StringExecFns;

use crate::game::players::{
    BasicComputerPlayerController, HumanPlayerController, PlayerController,
    UnbeatableComputerPlayerController,
};
use crate::menus::{fresh_entry, Menu, MenuEntry, MenuEntryId, MenuState};
use crate::rendering::{Error, Renderer};
use crate::states::playing_state::{switches_to_fresh_match, PlayingState};
use crate::states::{State, StateTransition};

verus! {

/// The menu in which the user chooses its opponent.
pub struct ChooseOpponentMenuState {
    pub against_computer_easy_entry: MenuEntryId,
    pub against_computer_unbeatable_entry: MenuEntryId,
    pub against_friend_entry: MenuEntryId,
    pub menu: Menu,
}

/// The opponent menu exactly as `ChooseOpponentMenuState::new` builds it:
/// the friend, easy-computer, unbeatable-computer and go-back entries
/// under the keys 1 to 4, with the named entries first.
pub open spec fn fresh_choose_opponent_menu(s: ChooseOpponentMenuState) -> bool {
    &&& s.against_friend_entry == MenuEntryId(0)
    &&& s.against_computer_easy_entry == MenuEntryId(1)
    &&& s.against_computer_unbeatable_entry == MenuEntryId(2)
    &&& s.menu.wf()
    &&& s.menu.next_id == 4
    &&& s.menu.entries@.len() == 4
    &&& s.menu.entries@[0].0 == MenuEntryId(0)
    &&& fresh_entry(s.menu.entries@[0].1, 1, "Against a friend"@)
    &&& s.menu.entries@[1].0 == MenuEntryId(1)
    &&& fresh_entry(s.menu.entries@[1].1, 2, "Against the computer (easy)"@)
    &&& s.menu.entries@[2].0 == MenuEntryId(2)
    &&& fresh_entry(s.menu.entries@[2].1, 3, "Against the computer (unbeatable)"@)
    &&& s.menu.entries@[3].0 == MenuEntryId(3)
    &&& fresh_entry(s.menu.entries@[3].1, 4, "Go back"@)
}

impl ChooseOpponentMenuState {
    /// The opponent menu carries no data that could go wrong.
    pub open spec fn wf(&self) -> bool {
        true
    }

    /// Constructs the menu with its four entries.
    pub fn new() -> (s: Self)
        ensures
            s.wf(),
            fresh_choose_opponent_menu(s),
    {
        let mut menu = Menu::new();
        let against_friend_entry = menu.push(MenuEntry::new(String::from_str("Against a friend"), 1));
        let against_computer_easy_entry = menu.push(
            MenuEntry::new(String::from_str("Against the computer (easy)"), 2),
        );
        let against_computer_unbeatable_entry = menu.push(
            MenuEntry::new(String::from_str("Against the computer (unbeatable)"), 3),
        );
        let _ = menu.push(MenuEntry::new(String::from_str("Go back"), 4));
        ChooseOpponentMenuState {
            against_computer_easy_entry,
            against_computer_unbeatable_entry,
            against_friend_entry,
            menu,
        }
    }
}

impl MenuState for ChooseOpponentMenuState {
    open spec fn wf(&self) -> bool {
        true
    }

    open spec fn menu_view(&self) -> Seq<(MenuEntryId, MenuEntry)> {
        self.menu.entries@
    }

    /// Each opponent entry switches into a fresh match against that
    /// opponent — the human at index 0 playing o with no wins yet, the
    /// chosen controller at index 1 playing x, the opening turn resolved;
    /// the remaining entry goes back. The menu itself stays as it is.
    open spec fn selection_outcome(&self, entry: MenuEntryId, after: Self, t: StateTransition) -> bool {
        &&& after == *self
        &&& (entry == self.against_computer_easy_entry ==> switches_to_fresh_match(
            t,
            PlayerController::Basic(BasicComputerPlayerController {  }),
        ))
        &&& ((entry != self.against_computer_easy_entry && entry
            == self.against_computer_unbeatable_entry) ==> switches_to_fresh_match(
            t,
            PlayerController::Unbeatable(UnbeatableComputerPlayerController {  }),
        ))
        &&& ((entry != self.against_computer_easy_entry && entry
            != self.against_computer_unbeatable_entry && entry == self.against_friend_entry)
            ==> switches_to_fresh_match(
            t,
            PlayerController::Human(HumanPlayerController {  }),
        ))
        &&& ((entry != self.against_computer_easy_entry && entry
            != self.against_computer_unbeatable_entry && entry != self.against_friend_entry)
            ==> t is Pop)
    }

    fn get_menu(&self) -> (m: &Menu) {
        &self.menu
    }

    fn handle_selection(&mut self, entry: MenuEntryId) -> (t: StateTransition) {
        if entry == self.against_computer_easy_entry {
            return StateTransition::Switch(
                State::Playing(
                    PlayingState::with_opponent(
                        PlayerController::Basic(BasicComputerPlayerController {  }),
                    ),
                ),
            );
        } else if entry == self.against_computer_unbeatable_entry {
            return StateTransition::Switch(
                State::Playing(
                    PlayingState::with_opponent(
                        PlayerController::Unbeatable(UnbeatableComputerPlayerController {  }),
                    ),
                ),
            );
        } else if entry == self.against_friend_entry {
            return StateTransition::Switch(
                State::Playing(
                    PlayingState::with_opponent(
                        PlayerController::Human(HumanPlayerController {  }),
                    ),
                ),
            );
        }
        StateTransition::Pop
    }

    fn render_header<R: Renderer>(&self, renderer: &R) -> Result<(), Error> {
        renderer.write("Who would you like to play against?\n\n")?;
        Ok(())
    }
}

} // verus!
