//! The application states and the stack that sequences them: menus and
//! the play state, with push, pop, switch and quit transitions.

pub mod choose_opponent_menu_state;
pub mod end_game_menu_state;
pub mod main_menu_state;
pub mod playing_state;

use vstd::prelude::*;

use crate::game::players::has_human_player;
use crate::input::{InputEvent, InputMode};
use crate::menus::{menu_input_step, menu_state_handle_input, menu_state_render, MenuState};
use crate::rendering::{Error, Renderer};
use crate::states::playing_state::playing_input_step;
use self::choose_opponent_menu_state::ChooseOpponentMenuState;
use self::end_game_menu_state::EndGameMenuState;
use self::main_menu_state::MainMenuState;
use self::playing_state::PlayingState;

verus! {

/// A game state such as the main menu, the playing one and so on. The set
/// of states is closed, so it is a tagged variant type dispatched by
/// matching.
pub enum State {
    ChooseOpponentMenu(ChooseOpponentMenuState),
    EndGameMenu(EndGameMenuState),
    MainMenu(MainMenuState),
    Playing(PlayingState),
}

/// Indicates whether we should close the application.
pub type ShouldQuit = bool;

/// Describes all kinds of error that can occur in the state manager.
pub enum StateManagerError {
    NoState,
    Rendering(Error),
}

/// Represents all possible transitions between states.
pub enum StateTransition {
    /// Nothing happens.
    NoChange,
    /// Removes the most recently open state.
    Pop,
    /// Adds a new state on top of the stack.
    Push(State),
    /// Exits the application.
    Quit,
    /// Replaces the top most state with a new one.
    Switch(State),
}

/// Any state that a transition carries is well formed.
pub open spec fn transition_wf(t: StateTransition) -> bool {
    match t {
        StateTransition::Push(s) => s.wf(),
        StateTransition::Switch(s) => s.wf(),
        _ => true,
    }
}

/// The stack after one transition: nothing and quitting keep it, a pop
/// drops the top, a push stacks the new state, and a switch replaces the
/// top with the new state.
pub open spec fn apply_transition(t: StateTransition, states: Seq<State>) -> Seq<State> {
    match t {
        StateTransition::NoChange => states,
        StateTransition::Pop => if states.len() > 0 {
            states.drop_last()
        } else {
            states
        },
        StateTransition::Push(s) => states.push(s),
        StateTransition::Quit => states,
        StateTransition::Switch(s) => (if states.len() > 0 {
            states.drop_last()
        } else {
            states
        }).push(s),
    }
}

/// What one input event does to a state: the transition's payloads are
/// well formed, the state stays well formed unless it was switched away,
/// and each variant behaves exactly as its own step relation says — the
/// play state through `playing_input_step`, each menu through
/// `menu_input_step` over its own selections.
pub open spec fn input_step(before: State, input: InputEvent, after: State, t: StateTransition) -> bool {
    &&& transition_wf(t)
    &&& (!(t is Switch) ==> after.wf())
    &&& match before {
        State::ChooseOpponentMenu(s) => (after matches State::ChooseOpponentMenu(s2)
            && menu_input_step(s, input, s2, t)),
        State::EndGameMenu(s) => (after matches State::EndGameMenu(s2) && menu_input_step(
            s,
            input,
            s2,
            t,
        )),
        State::MainMenu(s) => (after matches State::MainMenu(s2) && menu_input_step(
            s,
            input,
            s2,
            t,
        )),
        State::Playing(s) => (after matches State::Playing(s2) && playing_input_step(
            s,
            input,
            s2,
            t,
        )),
    }
}

impl State {
    /// Well-formedness of the data the state carries; the states that hold
    /// players always keep a human among them, as the application only
    /// ever pairs a human with an opponent.
    pub open spec fn wf(self) -> bool {
        match self {
            State::ChooseOpponentMenu(s) => s.wf(),
            State::EndGameMenu(s) => s.wf(),
            State::MainMenu(s) => s.wf(),
            State::Playing(s) => s.wf() && has_human_player(s.players@),
        }
    }

    /// The kind of input this state expects: the play state reads single
    /// keys, every menu reads a whole line.
    pub fn get_input_mode(&self) -> (m: InputMode)
        ensures
            self is Playing ==> m is Key,
            !(self is Playing) ==> m is Line,
    {
        match self {
            State::Playing(_) => InputMode::Key,
            _ => InputMode::Line,
        }
    }

    /// Feeds one input event to the state and yields the transition it
    /// requests, exactly as `input_step` describes for this state's
    /// variant. Any state the transition carries is well formed; only a
    /// switch may leave this state behind in a non-well-formed shape (its
    /// board then holds a finished game, and the state is replaced).
    pub fn handle_input(&mut self, input: InputEvent) -> (t: StateTransition)
        requires
            old(self).wf(),
        ensures
            transition_wf(t),
            !(t is Switch) ==> final(self).wf(),
            input_step(*old(self), input, *final(self), t),
    {
        match self {
            State::ChooseOpponentMenu(s) => menu_state_handle_input(s, input),
            State::EndGameMenu(s) => menu_state_handle_input(s, input),
            State::MainMenu(s) => menu_state_handle_input(s, input),
            State::Playing(s) => {
                let ghost players0 = s.players@;
                let t = s.handle_input(input);
                proof {
                    if let StateTransition::Switch(State::EndGameMenu(e)) = &t {
                        assert(has_human_player(e.players@));
                    }
                }
                t
            },
        }
    }

    /// Renders the state to the terminal.
    pub fn render<R: Renderer>(&self, renderer: &R) -> Result<(), Error>
        requires
            self.wf(),
    {
        match self {
            State::ChooseOpponentMenu(s) => menu_state_render(s, renderer),
            State::EndGameMenu(s) => menu_state_render(s, renderer),
            State::MainMenu(s) => menu_state_render(s, renderer),
            State::Playing(s) => s.render(renderer),
        }
    }
}

/// The stack was stepped by feeding the input to the top state `top2` and
/// `t` being what came of it: the final stack is the old one with its top
/// replaced by the stepped state and the transition applied, and the run
/// should end exactly when the transition asked to quit.
pub open spec fn stack_stepped_by(
    before: Seq<State>,
    input: InputEvent,
    after: Seq<State>,
    quit: bool,
    top2: State,
    t: StateTransition,
) -> bool {
    &&& input_step(before.last(), input, top2, t)
    &&& after == apply_transition(t, before.update(before.len() - 1, top2))
    &&& (quit <==> t is Quit)
}

/// The stack was stepped by feeding the input to its top state, for some
/// stepped top state and some transition it requested; the transition may
/// depend on a random draw, so only its existence is fixed.
pub open spec fn stack_stepped(
    before: Seq<State>,
    input: InputEvent,
    after: Seq<State>,
    quit: bool,
) -> bool {
    exists|top2: State, t: StateTransition| stack_stepped_by(before, input, after, quit, top2, t)
}

/// A state machine: a stack of states whose top is the one shown to the
/// user and fed with input.
pub struct StateManager {
    /// The stack; the last element is the top.
    pub states: Vec<State>,
}

impl StateManager {
    /// Every state on the stack is well formed.
    pub open spec fn wf(self) -> bool {
        forall|i: int| 0 <= i < self.states@.len() ==> (#[trigger] self.states@[i]).wf()
    }

    /// Constructs a new state manager whose stack holds the given state.
    pub fn new(first_state: State) -> (m: Self)
        requires
            first_state.wf(),
        ensures
            m.wf(),
            m.states@.len() == 1,
            m.states@[0] == first_state,
    {
        let mut states: Vec<State> = Vec::new();
        states.push(first_state);
        StateManager { states }
    }

    /// Gets the state on top of the stack, the one currently shown to the
    /// user.
    pub fn get_current_state(&self) -> (r: Option<&State>)
        ensures
            self.states@.len() == 0 ==> r is None,
            self.states@.len() > 0 ==> (r matches Some(s) && *s == self.states@.last()),
    {
        if self.states.len() > 0 {
            Some(&self.states[self.states.len() - 1])
        } else {
            None
        }
    }

    /// Tells the current state to handle user input, then applies the
    /// transition the state requested: the final stack is the old one with
    /// its top stepped by the input and the requested transition applied,
    /// and the result asks to quit exactly when the transition did. With
    /// no state on the stack, reports the stack invariant as broken.
    pub fn handle_input(&mut self, input: InputEvent) -> (r: Result<ShouldQuit, StateManagerError>)
        requires
            old(self).wf(),
        ensures
            final(self).wf(),
            (r matches Err(e) ==> (e is NoState && old(self).states@.len() == 0
                && final(self).states@ == old(self).states@)),
            r is Ok <==> old(self).states@.len() > 0,
            r matches Ok(q) ==> stack_stepped(old(self).states@, input, final(self).states@, q),
            r matches Ok(q) ==> (q ==> final(self).states@.len() == old(self).states@.len()),
    {
        let ghost states0 = self.states@;
        match self.states.pop() {
            Some(mut state) => {
                let transition = state.handle_input(input);
                let ghost t = transition;
                let ghost top2 = state;
                proof {
                    assert(states0.drop_last().push(state) =~= states0.update(
                        states0.len() - 1,
                        state,
                    ));
                }
                self.states.push(state);
                let should_quit = self.handle_transition(transition);
                proof {
                    assert(stack_stepped_by(states0, input, self.states@, should_quit, top2, t));
                    assert forall|i: int| 0 <= i < self.states@.len() implies (
                    #[trigger] self.states@[i]).wf() by {
                        if i < states0.len() - 1 {
                            assert(self.states@[i] == states0[i]);
                        }
                    }
                }
                Ok(should_quit)
            },
            None => Err(StateManagerError::NoState),
        }
    }

    /// Applies one transition to the stack, per `apply_transition`, and
    /// asks to quit exactly for the quit transition.
    fn handle_transition(&mut self, transition: StateTransition) -> (should_quit: ShouldQuit)
        ensures
            final(self).states@ == apply_transition(transition, old(self).states@),
            should_quit <==> transition is Quit,
    {
        match transition {
            StateTransition::NoChange => {},
            StateTransition::Pop => {
                let _ = self.states.pop();
            },
            StateTransition::Push(state) => self.states.push(state),
            StateTransition::Quit => {
                return true;
            },
            StateTransition::Switch(state) => {
                let _ = self.states.pop();
                self.states.push(state);
            },
        }
        false
    }

    /// Renders the current state to the terminal. With no state on the
    /// stack, and only then, reports the stack invariant as broken.
    pub fn render<R: Renderer>(&self, renderer: &R) -> (r: Result<(), StateManagerError>)
        requires
            self.wf(),
        ensures
            self.states@.len() == 0 <==> (r matches Err(e) && e is NoState),
    {
        if self.states.len() > 0 {
            match self.states[self.states.len() - 1].render(renderer) {
                Ok(_) => Ok(()),
                Err(e) => Err(StateManagerError::Rendering(e)),
            }
        } else {
            Err(StateManagerError::NoState)
        }
    }
}

} // verus!
