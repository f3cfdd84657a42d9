//! The playing state: owns the board and the two players, resolves one
//! action into a cursor move, a terminal outcome, or a handoff to the
//! next player, and cascades synchronous computer turns until a pause
//! point or a terminal transition.

use vstd::prelude::*;

use crate::game::board::{
    first_win_from, has_win, initial_tiles, lemma_no_win_with_few_tiles,
    lemma_place_keeps_other_safe, lemma_placed_occupied, line_cell, occupied_count, placed,
    pos_index, tile_is_empty, Board, GameResult, PlayingPosition, Tile,
};
use crate::game::players::{
    has_human_player, human_action, random_player_index, HumanPlayerController, Player,
    PlayerAction, PlayerController, Role,
};
use crate::input::{InputEvent, Key};
use crate::rendering::{Error, Renderer};
use crate::states::end_game_menu_state::EndGameMenuState;
use crate::states::{State, StateTransition};

verus! {

/// The playing state.
pub struct PlayingState {
    pub board: Board,
    pub current_player: usize,
    pub players: Vec<Player>,
}

/// Whether an action's coordinates are on the grid.
pub open spec fn action_in_bounds(a: PlayerAction) -> bool {
    match a {
        PlayerAction::MoveCursor(p) => p.0 < 3 && p.1 < 3,
        PlayerAction::Idle => true,
        PlayerAction::Commit(p) => p.0 < 3 && p.1 < 3,
    }
}

/// One player after a win by `winner`: the winner's score grows by one
/// (stopping at the machine maximum, which play cannot reach), anyone else
/// is unchanged.
pub open spec fn bumped_player(p: Player, winner: Role) -> Player {
    if p.role == winner {
        Player {
            controller: p.controller,
            score: if p.score < usize::MAX {
                (p.score + 1) as usize
            } else {
                p.score
            },
            role: p.role,
        }
    } else {
        p
    }
}

/// The player list after a win by `winner`.
pub open spec fn bumped_players(players: Seq<Player>, winner: Role) -> Seq<Player> {
    players.map_values(|p: Player| bumped_player(p, winner))
}

/// Play only fills cells: every occupied cell stays exactly as it was.
pub open spec fn board_extends(before: Seq<Tile>, after: Seq<Tile>) -> bool {
    &&& after.len() == before.len()
    &&& forall|i: int|
        0 <= i < before.len() && !tile_is_empty(before[i]) ==> (#[trigger] after[i]) == before[i]
}

/// What resolving an in-bounds commit on an empty cell yields, in terms of
/// the state before the commit: a win by the committing role ends the game
/// with the winning line highlighted and the winner's score raised; a full
/// board without a win ends it in a draw; and when the game goes on and
/// the next player is human, exactly this one move was played and the turn
/// changed hands.
pub open spec fn commit_outcome(
    before: PlayingState,
    p: PlayingPosition,
    after: PlayingState,
    t: StateTransition,
) -> bool {
    let role = before.players@[before.current_player as int].role;
    let b1 = placed(before.board.tiles@, pos_index(p), role);
    let w = first_win_from(b1, role, 0);
    &&& (w < 8 ==> (t matches StateTransition::Switch(s) && s matches State::EndGameMenu(e)
        && e.winner == Some(role) && e.board.tiles@ == b1 && (
    e.board.highlighted_solution matches Some(sol) && sol@ =~= seq![
        line_cell(w, 0),
        line_cell(w, 1),
        line_cell(w, 2),
    ]) && e.board.playing_position == p && e.players@ == bumped_players(before.players@, role)))
    &&& ((w == 8 && occupied_count(b1) >= 9) ==> (t matches StateTransition::Switch(s)
        && s matches State::EndGameMenu(e) && e.winner is None && e.board.tiles@ == b1
        && e.board.playing_position == p && e.players@ == before.players@))
    &&& ((w == 8 && occupied_count(b1) < 9 && before.players@[1 - before.current_player as int].controller
        is Human) ==> (t is NoChange && after.board.tiles@ == b1 && after.board.playing_position
        == p && after.current_player as int == 1 - before.current_player as int))
}

/// A switch produced by play goes to the end-of-game menu, carrying the
/// final board and either the bumped players of a winner or the unchanged
/// players of a draw on a full board; a human among the players stays.
pub open spec fn endgame_switch(
    t: StateTransition,
    players0: Seq<Player>,
    final_tiles: Seq<Tile>,
) -> bool {
    t matches StateTransition::Switch(s) ==> (s matches State::EndGameMenu(e) && e.board.wf()
        && e.players@.len() == 2 && e.board.tiles@ == final_tiles && (has_human_player(players0)
        ==> has_human_player(e.players@)) && (match e.winner {
        Some(role) => has_win(e.board.tiles@, role) && e.players@ == bumped_players(
            players0,
            role,
        ),
        None => occupied_count(e.board.tiles@) == 9 && e.players@ == players0,
    }))
}

/// Nothing of the play changed: the board is exactly as it was, and the
/// same player is to move.
pub open spec fn unmoved(before: PlayingState, after: PlayingState) -> bool {
    &&& after.board.tiles@ == before.board.tiles@
    &&& after.board.turns == before.board.turns
    &&& after.board.playing_position == before.board.playing_position
    &&& after.board.highlighted_solution == before.board.highlighted_solution
    &&& after.current_player == before.current_player
}

/// What one non-escape key yields: a non-human controller ignores it, and
/// a human's key resolves exactly as `human_action` says, pausing on a
/// cursor move and committing through `commit_outcome`.
pub open spec fn key_outcome(
    before: PlayingState,
    k: Key,
    after: PlayingState,
    t: StateTransition,
) -> bool {
    let act = if before.players@[before.current_player as int].controller is Human {
        human_action(before.board.tiles@, before.board.playing_position, k)
    } else {
        PlayerAction::Idle
    };
    &&& (act is Idle ==> (t is NoChange && unmoved(before, after)))
    &&& (act matches PlayerAction::MoveCursor(p) ==> (t is NoChange
        && after.board.playing_position == p && after.board.tiles@ == before.board.tiles@
        && after.board.turns == before.board.turns && after.board.highlighted_solution
        == before.board.highlighted_solution && after.current_player == before.current_player))
    &&& (act matches PlayerAction::Commit(p) ==> commit_outcome(before, p, after, t))
}

/// What one input event does to the play state: a line changes nothing, an
/// escape asks to quit with nothing changed, and any other key resolves
/// through `key_outcome`; whatever happens, the players are kept, the
/// board stays valid, and a switch can only go to the end-of-game menu as
/// `endgame_switch` says.
pub open spec fn playing_input_step(
    before: PlayingState,
    input: InputEvent,
    after: PlayingState,
    t: StateTransition,
) -> bool {
    &&& after.players@ == before.players@
    &&& after.current_player < 2
    &&& after.board.wf()
    &&& (t is NoChange || t is Switch || t is Quit)
    &&& (!(t is Switch) ==> after.wf())
    &&& endgame_switch(t, before.players@, after.board.tiles@)
    &&& (input is Line ==> (t is NoChange && unmoved(before, after)))
    &&& (input matches InputEvent::Key(k) ==> (k == Key::Escape ==> (t is Quit && unmoved(
        before,
        after,
    ))))
    &&& (input matches InputEvent::Key(k) ==> (k != Key::Escape ==> key_outcome(
        before,
        k,
        after,
        t,
    )))
}

/// A fresh match against the given opponent controller, as the menus start
/// one: a human at index 0 playing o, the opponent at index 1 playing x,
/// both without a win yet, and the opening turn already resolved.
pub open spec fn fresh_match(p: PlayingState, opponent: PlayerController) -> bool {
    &&& p.wf()
    &&& p.players@.len() == 2
    &&& p.players@[0].controller is Human
    &&& p.players@[0].role is O
    &&& p.players@[0].score == 0
    &&& p.players@[1].controller == opponent
    &&& p.players@[1].role is X
    &&& p.players@[1].score == 0
    &&& opening_resolved(p)
}

/// A restarted match: the same players with their scores, a board that
/// extends a fresh one, and — whenever a human is among the players, as
/// the application guarantees — a well-formed state whose opening turn was
/// resolved.
pub open spec fn restarted_match(p: PlayingState, players: Seq<Player>) -> bool {
    &&& p.players@ == players
    &&& p.current_player < 2
    &&& p.board.wf()
    &&& board_extends(initial_tiles(), p.board.tiles@)
    &&& (has_human_player(players) ==> (p.wf() && opening_resolved(p)))
}

/// The first mover `r` was drawn and its opening action resolved: a human
/// opener waits on the untouched fresh board with the turn theirs, while a
/// computer opener has committed exactly one move to some cell of the
/// fresh board and handed the turn to the other player.
pub open spec fn opening_resolved_by(s: PlayingState, r: int) -> bool {
    if s.players@[r].controller is Human {
        &&& s.board.tiles@ == initial_tiles()
        &&& s.board.turns == 0
        &&& s.current_player == r
    } else {
        exists|p: PlayingPosition|
            {
                &&& p.0 < 3
                &&& p.1 < 3
                &&& s.board.tiles@ == placed(
                    initial_tiles(),
                    pos_index(p),
                    s.players@[r].role,
                )
                &&& s.board.turns == 1
                &&& s.current_player as int == 1 - r
            }
    }
}

/// Some first mover was drawn and its opening action resolved.
pub open spec fn opening_resolved(s: PlayingState) -> bool {
    exists|r: int| 0 <= r < 2 && opening_resolved_by(s, r)
}

/// The transition switches into a fresh match against the given opponent.
pub open spec fn switches_to_fresh_match(t: StateTransition, opponent: PlayerController) -> bool {
    t matches StateTransition::Switch(s) && s matches State::Playing(p) && fresh_match(
        p,
        opponent,
    )
}

/// Clones a player list.
pub fn clone_players(players: &Vec<Player>) -> (r: Vec<Player>)
    ensures
        r@ == players@,
{
    let r = players.clone();
    proof {
        assert(r@ =~= players@);
    }
    r
}

/// Raises the score of every player owning the winning role by one,
/// leaving the others untouched.
fn bump_scores(players: &Vec<Player>, winner: Role) -> (r: Vec<Player>)
    ensures
        r@ == bumped_players(players@, winner),
{
    let mut r: Vec<Player> = Vec::new();
    let mut i: usize = 0;
    while i < players.len()
        invariant
            i <= players@.len(),
            r@.len() == i,
            forall|j: int| 0 <= j < i ==> r@[j] == bumped_player(#[trigger] players@[j], winner),
        decreases players@.len() - i,
    {
        let p = players[i];
        if p.role == winner {
            let new_score = if p.score < usize::MAX {
                p.score + 1
            } else {
                p.score
            };
            r.push(Player { controller: p.controller, score: new_score, role: p.role });
        } else {
            r.push(p);
        }
        i = i + 1;
    }
    proof {
        assert(r@ =~= bumped_players(players@, winner));
    }
    r
}

/// A winner's bump keeps every controller, so a human stays among the
/// players.
proof fn lemma_bump_keeps_human(players: Seq<Player>, winner: Role)
    requires
        has_human_player(players),
    ensures
        has_human_player(bumped_players(players, winner)),
{
    let i = choose|i: int| 0 <= i < players.len() && (#[trigger] players[i]).controller is Human;
    assert(bumped_players(players, winner)[i].controller is Human);
}

impl PlayingState {
    /// A live play: a well-formed board on which nobody has won yet,
    /// exactly two players, and a valid index of the player to move.
    pub open spec fn wf(self) -> bool {
        &&& self.board.wf()
        &&& !has_win(self.board.tiles@, Role::O)
        &&& !has_win(self.board.tiles@, Role::X)
        &&& self.players@.len() == 2
        &&& self.current_player < 2
    }

    /// Constructs a playing state with a default human player and an
    /// opponent whose kind is determined by its controller.
    pub fn with_opponent(opponent_controller: PlayerController) -> (s: Self)
        ensures
            fresh_match(s, opponent_controller),
            s.wf(),
            has_human_player(s.players@),
    {
        let mut players: Vec<Player> = Vec::new();
        players.push(Player::new(PlayerController::Human(HumanPlayerController {  }), Role::O));
        players.push(Player::new(opponent_controller, Role::X));
        let s = PlayingState::with_players(players);
        proof {
            assert(s.players@[0].controller is Human);
        }
        s
    }

    /// Constructs a playing state from a list of two existing players,
    /// choosing who moves first at random and at once resolving that
    /// player's opening action, so a computer moving first acts without a
    /// spurious input event. Used to start or restart the game.
    pub fn with_players(players: Vec<Player>) -> (s: Self)
        requires
            players@.len() == 2,
        ensures
            restarted_match(s, players@),
            s.players@ == players@,
            s.current_player < 2,
            s.board.wf(),
            has_human_player(players@) ==> s.wf(),
    {
        let current_player = random_player_index();
        let mut state = PlayingState { board: Board::new(), current_player, players };
        proof {
            lemma_no_win_with_few_tiles(state.board.tiles@, Role::O);
            lemma_no_win_with_few_tiles(state.board.tiles@, Role::X);
        }
        let controller = state.players[state.current_player].controller;
        let action = controller.start_turn(&state.board);
        let ghost state0 = state;
        let _outcome = state.handle_action(action);
        proof {
            let r = state0.current_player as int;
            if has_human_player(state.players@) {
                if state0.players@[r].controller is Human {
                    assert(action is Idle);
                    assert(opening_resolved_by(state, r));
                } else {
                    let h = choose|i: int|
                        0 <= i < state0.players@.len() && (
                        #[trigger] state0.players@[i]).controller is Human;
                    assert(h == 1 - r);
                    if let PlayerAction::Commit(p) = action {
                        let role = state0.players@[r].role;
                        let b1 = placed(state0.board.tiles@, pos_index(p), role);
                        lemma_placed_occupied(state0.board.tiles@, pos_index(p), role);
                        lemma_no_win_with_few_tiles(b1, role);
                        crate::game::board::lemma_first_win_properties(b1, role);
                        assert(state.board.tiles@ == placed(
                            initial_tiles(),
                            pos_index(p),
                            state.players@[r].role,
                        ));
                        assert(state.board.turns == 1);
                        assert(opening_resolved_by(state, r));
                    }
                }
                assert(opening_resolved(state));
            }
        }
        state
    }

    /// Resolves one action. A cursor move pauses; a commit applies the
    /// move and either ends the game, switching to the end-of-game menu,
    /// or hands the turn to the next player, whose opening action cascades
    /// until a pause point or a terminal transition. A commit on an
    /// occupied cell changes nothing on the board but still hands the
    /// turn over.
    pub fn handle_action(&mut self, action: PlayerAction) -> (t: StateTransition)
        requires
            old(self).wf(),
            action_in_bounds(action),
            action matches PlayerAction::Commit(p) ==> (tile_is_empty(
                old(self).board.tiles@[pos_index(p)],
            ) || occupied_count(old(self).board.tiles@) < 9),
        ensures
            final(self).players@ == old(self).players@,
            final(self).current_player < 2,
            final(self).board.wf(),
            board_extends(old(self).board.tiles@, final(self).board.tiles@),
            (t is NoChange || t is Switch),
            t is NoChange ==> final(self).wf(),
            endgame_switch(t, old(self).players@, final(self).board.tiles@),
            action is Idle ==> (t is NoChange && unmoved(*old(self), *final(self))),
            action matches PlayerAction::MoveCursor(p) ==> (t is NoChange
                && final(self).board.playing_position == p
                && final(self).board.tiles@ == old(self).board.tiles@
                && final(self).board.turns == old(self).board.turns
                && final(self).board.highlighted_solution == old(self).board.highlighted_solution
                && final(self).current_player == old(self).current_player),
            action matches PlayerAction::Commit(p) ==> (tile_is_empty(
                old(self).board.tiles@[pos_index(p)],
            ) ==> commit_outcome(*old(self), p, *final(self), t)),
    {
        let ghost before = *old(self);
        match action {
            PlayerAction::Idle => StateTransition::NoChange,
            PlayerAction::MoveCursor(pos) => {
                self.board.playing_position = pos;
                StateTransition::NoChange
            },
            PlayerAction::Commit(pos) => {
                self.board.playing_position = pos;
                let role = self.players[self.current_player].role;
                let ghost t0 = self.board.tiles@;
                let result = self.board.set(pos.0, pos.1, role);
                let ghost b1 = self.board.tiles@;
                proof {
                    if tile_is_empty(t0[pos_index(pos)]) {
                        lemma_placed_occupied(t0, pos_index(pos), role);
                    }
                }
                match result {
                    GameResult::Draw => {
                        let end = EndGameMenuState::new(
                            self.board.clone(),
                            clone_players(&self.players),
                            None,
                        );
                        StateTransition::Switch(State::EndGameMenu(end))
                    },
                    GameResult::Winner(winning_role, solution) => {
                        self.board.highlight_solution(solution);
                        let bumped = bump_scores(&self.players, winning_role);
                        proof {
                            if has_human_player(before.players@) {
                                lemma_bump_keeps_human(before.players@, winning_role);
                            }
                        }
                        let end = EndGameMenuState::new(
                            self.board.clone(),
                            bumped,
                            Some(winning_role),
                        );
                        StateTransition::Switch(State::EndGameMenu(end))
                    },
                    GameResult::NotFinished => {
                        proof {
                            if tile_is_empty(t0[pos_index(pos)]) {
                                let r2 = if role is O {
                                    Role::X
                                } else {
                                    Role::O
                                };
                                lemma_place_keeps_other_safe(t0, pos_index(pos), role, r2);
                            }
                        }
                        self.current_player = (self.current_player + 1) % 2;
                        #[verifier::loop_isolation(false)]
                        loop
                            invariant
                                self.wf(),
                                occupied_count(self.board.tiles@) < 9,
                                self.players@ == before.players@,
                                board_extends(before.board.tiles@, self.board.tiles@),
                                (tile_is_empty(before.board.tiles@[pos_index(pos)])
                                    && before.players@[1 - before.current_player as int].controller
                                    is Human) ==> (self.board.tiles@ == placed(
                                    before.board.tiles@,
                                    pos_index(pos),
                                    before.players@[before.current_player as int].role,
                                ) && self.board.playing_position == pos
                                    && self.current_player as int == 1
                                    - before.current_player as int),
                            decreases 9 - self.board.turns,
                        {
                            let controller = self.players[self.current_player].controller;
                            let act = controller.start_turn(&self.board);
                            match act {
                                PlayerAction::Commit(pos2) => {
                                    self.board.playing_position = pos2;
                                    let role2 = self.players[self.current_player].role;
                                    let ghost t2 = self.board.tiles@;
                                    let result2 = self.board.set(pos2.0, pos2.1, role2);
                                    proof {
                                        lemma_placed_occupied(t2, pos_index(pos2), role2);
                                    }
                                    match result2 {
                                        GameResult::Draw => {
                                            let end = EndGameMenuState::new(
                                                self.board.clone(),
                                                clone_players(&self.players),
                                                None,
                                            );
                                            return StateTransition::Switch(
                                                State::EndGameMenu(end),
                                            );
                                        },
                                        GameResult::Winner(winning_role, solution) => {
                                            self.board.highlight_solution(solution);
                                            let bumped = bump_scores(&self.players, winning_role);
                                            proof {
                                                if has_human_player(before.players@) {
                                                    lemma_bump_keeps_human(
                                                        before.players@,
                                                        winning_role,
                                                    );
                                                }
                                            }
                                            let end = EndGameMenuState::new(
                                                self.board.clone(),
                                                bumped,
                                                Some(winning_role),
                                            );
                                            return StateTransition::Switch(
                                                State::EndGameMenu(end),
                                            );
                                        },
                                        GameResult::NotFinished => {
                                            proof {
                                                let r2 = if role2 is O {
                                                    Role::X
                                                } else {
                                                    Role::O
                                                };
                                                lemma_place_keeps_other_safe(
                                                    t2,
                                                    pos_index(pos2),
                                                    role2,
                                                    r2,
                                                );
                                            }
                                            self.current_player = (self.current_player + 1) % 2;
                                        },
                                    }
                                },
                                _ => {
                                    return StateTransition::NoChange;
                                },
                            }
                        }
                    },
                }
            },
        }
    }

    /// Feeds one input event to the play state: escape asks to quit the
    /// application, any other key goes to the current player's controller,
    /// and the resulting action is resolved.
    pub fn handle_input(&mut self, input: InputEvent) -> (t: StateTransition)
        requires
            old(self).wf(),
        ensures
            playing_input_step(*old(self), input, *final(self), t),
    {
        if let InputEvent::Key(k) = input {
            if k == Key::Escape {
                return StateTransition::Quit;
            }
            let controller = self.players[self.current_player].controller;
            let act = controller.handle_key_press(&self.board, k);
            return self.handle_action(act);
        }
        StateTransition::NoChange
    }

    /// Renders the board, whose turn it is, and the scores, then puts the
    /// terminal cursor on the board's playing position.
    pub fn render<R: Renderer>(&self, renderer: &R) -> Result<(), Error>
        requires
            self.wf(),
    {
        renderer.clear()?;
        self.board.render(renderer)?;
        renderer.write("\n\nIt's ")?;
        let current = self.players[self.current_player];
        current.role.render(renderer)?;
        renderer.write("'s turn.\n\nScores:\n")?;
        let mut i: usize = 0;
        while i < self.players.len()
            invariant
                i <= self.players@.len(),
            decreases self.players@.len() - i,
        {
            self.players[i].render(renderer)?;
            renderer.write("\n")?;
            i = i + 1;
        }
        renderer.set_cursor_position(
            (
                (self.board.playing_position.0 as u16) * 2,
                (self.board.playing_position.1 as u16) * 2,
            ),
        )
    }
}

} // verus!
