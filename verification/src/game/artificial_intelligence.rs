//! Exhaustive game-tree search over the board: a classic two-player
//! zero-sum minimax with no pruning, which is tractable at this size.
//!
//! The x side maximizes and the o side minimizes; a position where o has
//! won scores -10, one where x has won scores +10, and a full board scores
//! 0. Ties break toward the first move in the canonical spot order, so the
//! search is deterministic.

use vstd::prelude::*;

use crate::game::board::{
    avail_from, has_win, lemma_all_occupied, lemma_avail_contains, lemma_avail_elems,
    lemma_avail_nonempty, lemma_occupied_count_bounds, lemma_placed_occupied, occupied_count,
    placed, pos_index, spot_index, spot_pos, tile_is_empty, Board, GameResult, PlayingPosition,
    Tile,
};
use crate::game::players::{other_role, Role};

verus! {

/// A move that can be performed by the computer.
#[derive(Clone, Copy)]
pub struct Move {
    /// The coordinates of this move.
    pub pos: PlayingPosition,
    /// The score associated with this move.
    pub score: i32,
}

impl Move {
    fn new(pos: PlayingPosition, score: i32) -> (m: Self)
        ensures
            m.pos == pos,
            m.score == score,
    {
        Move { pos, score }
    }

    fn with_score(score: i32) -> (m: Self)
        ensures
            m.pos == (0u8, 0u8),
            m.score == score,
    {
        Move::new((0, 0), score)
    }
}

/// Whether the game is over on this board: a side has won, or no cell is
/// left.
pub open spec fn is_terminal(tiles: Seq<Tile>) -> bool {
    ||| has_win(tiles, Role::O)
    ||| has_win(tiles, Role::X)
    ||| occupied_count(tiles) >= tiles.len()
}

/// The minimax value of the position with `player` to move: -10 when o has
/// won, +10 when x has won, 0 for a full board, and otherwise the best
/// value reachable over the available spots (x maximizes, o minimizes).
pub open spec fn minimax_value(tiles: Seq<Tile>, player: Role) -> int
    decreases tiles.len() - occupied_count(tiles), 10int,
{
    if has_win(tiles, Role::O) {
        -10
    } else if has_win(tiles, Role::X) {
        10
    } else if occupied_count(tiles) >= tiles.len() {
        0
    } else {
        proof {
            lemma_occupied_count_bounds(tiles);
        }
        best_value_from(tiles, player, 0)
    }
}

/// The best value `player` can reach by taking one of the empty spots
/// numbered `n` to 8; with none left, an extreme sentinel that any real
/// move beats.
pub open spec fn best_value_from(tiles: Seq<Tile>, player: Role, n: int) -> int
    decreases tiles.len() - occupied_count(tiles), 9 - n,
{
    if !(0 <= n < 9) {
        if player is X {
            -10000
        } else {
            10000
        }
    } else {
        let rest = best_value_from(tiles, player, n + 1);
        let idx = spot_index(n);
        if idx < tiles.len() && tile_is_empty(tiles[idx]) {
            proof {
                lemma_placed_occupied(tiles, idx, player);
                lemma_occupied_count_bounds(tiles);
            }
            let v = minimax_value(placed(tiles, idx, player), other_role(player));
            if player is X {
                if v > rest {
                    v
                } else {
                    rest
                }
            } else {
                if v < rest {
                    v
                } else {
                    rest
                }
            }
        } else {
            rest
        }
    }
}

/// The value for `player` of taking the spot at `p`.
pub open spec fn spot_value(tiles: Seq<Tile>, player: Role, p: PlayingPosition) -> int {
    minimax_value(placed(tiles, pos_index(p), player), other_role(player))
}

/// The first spot in the canonical order, from `n` on, whose value for
/// `player` is exactly `target`.
pub open spec fn first_best_from(tiles: Seq<Tile>, player: Role, n: int, target: int) -> PlayingPosition
    decreases 9 - n,
{
    if !(0 <= n < 9) {
        (0u8, 0u8)
    } else {
        let idx = spot_index(n);
        if idx < tiles.len() && tile_is_empty(tiles[idx]) && minimax_value(
            placed(tiles, idx, player),
            other_role(player),
        ) == target {
            spot_pos(n)
        } else {
            first_best_from(tiles, player, n + 1, target)
        }
    }
}

/// The position the search selects: the first available spot attaining the
/// minimax value, or the origin on a board where the game is already over.
pub open spec fn minimax_pos(tiles: Seq<Tile>, player: Role) -> PlayingPosition {
    if is_terminal(tiles) {
        (0u8, 0u8)
    } else {
        first_best_from(tiles, player, 0, best_value_from(tiles, player, 0))
    }
}

/// Minimax values always lie between the two terminal scores.
pub proof fn lemma_minimax_value_bounds(tiles: Seq<Tile>, player: Role)
    requires
        tiles.len() == 9,
    ensures
        -10 <= minimax_value(tiles, player) <= 10,
    decreases tiles.len() - occupied_count(tiles), 10int,
{
    lemma_occupied_count_bounds(tiles);
    if !has_win(tiles, Role::O) && !has_win(tiles, Role::X) && occupied_count(tiles)
        < tiles.len() {
        lemma_avail_nonempty(tiles);
        lemma_best_value_bounds(tiles, player, 0);
    }
}

/// The best value over a non-empty tail of spots is a real move value; over
/// an empty tail it is the sentinel.
proof fn lemma_best_value_bounds(tiles: Seq<Tile>, player: Role, n: int)
    requires
        tiles.len() == 9,
        0 <= n <= 9,
    ensures
        avail_from(tiles, n).len() == 0 ==> best_value_from(tiles, player, n) == (if player is X {
            -10000int
        } else {
            10000int
        }),
        avail_from(tiles, n).len() > 0 ==> -10 <= best_value_from(tiles, player, n) <= 10,
    decreases tiles.len() - occupied_count(tiles), 9 - n,
{
    lemma_occupied_count_bounds(tiles);
    if n < 9 {
        lemma_best_value_bounds(tiles, player, n + 1);
        let idx = spot_index(n);
        if idx < tiles.len() && tile_is_empty(tiles[idx]) {
            lemma_placed_occupied(tiles, idx, player);
            lemma_minimax_value_bounds(placed(tiles, idx, player), other_role(player));
        }
    }
}

/// `best_value_from` is the extremum of the values of the available spots:
/// it bounds every one of them, and some available spot attains it.
proof fn lemma_best_value_char(tiles: Seq<Tile>, player: Role, n: int)
    requires
        tiles.len() == 9,
        0 <= n <= 9,
    ensures
        forall|j: int|
            0 <= j < avail_from(tiles, n).len() ==> (if player is X {
                spot_value(tiles, player, #[trigger] avail_from(tiles, n)[j]) <= best_value_from(
                    tiles,
                    player,
                    n,
                )
            } else {
                spot_value(tiles, player, #[trigger] avail_from(tiles, n)[j]) >= best_value_from(
                    tiles,
                    player,
                    n,
                )
            }),
        avail_from(tiles, n).len() > 0 ==> exists|j: int|
            0 <= j < avail_from(tiles, n).len() && spot_value(
                tiles,
                player,
                avail_from(tiles, n)[j],
            ) == best_value_from(tiles, player, n),
    decreases 9 - n,
{
    if n < 9 {
        lemma_best_value_char(tiles, player, n + 1);
        lemma_best_value_bounds(tiles, player, n + 1);
        let spots = avail_from(tiles, n);
        let rest = avail_from(tiles, n + 1);
        let best = best_value_from(tiles, player, n);
        let rest_best = best_value_from(tiles, player, n + 1);
        let idx = spot_index(n);
        if idx < tiles.len() && tile_is_empty(tiles[idx]) {
            let p = spot_pos(n);
            let v = spot_value(tiles, player, p);
            assert(pos_index(p) == idx);
            assert(spots == seq![p] + rest);
            assert(spots[0] == p);
            assert forall|j: int| 1 <= j < spots.len() implies spots[j] == rest[j - 1] by {}
            lemma_placed_occupied(tiles, idx, player);
            lemma_minimax_value_bounds(placed(tiles, idx, player), other_role(player));
            if rest.len() == 0 {
                assert(spots[0] == p && spot_value(tiles, player, spots[0]) == best);
            } else {
                if v == best {
                    assert(spot_value(tiles, player, spots[0]) == best);
                } else {
                    let j = choose|j: int|
                        0 <= j < rest.len() && spot_value(tiles, player, rest[j]) == rest_best;
                    assert(spots[j + 1] == rest[j]);
                    assert(spot_value(tiles, player, spots[j + 1]) == best);
                }
            }
        }
    }
}

/// A minimax algorithm that performs on a tic-tac-toe board. Returns the
/// best move found: its score is the minimax value of the position, and on
/// a board where the game is not over its coordinates are the first
/// available spot attaining that value. The board is left exactly as it
/// was.
pub fn minimax(board: &mut Board, player: Role) -> (m: Move)
    requires
        old(board).wf(),
    ensures
        final(board).wf(),
        final(board).tiles@ == old(board).tiles@,
        final(board).turns == old(board).turns,
        final(board).playing_position == old(board).playing_position,
        final(board).highlighted_solution == old(board).highlighted_solution,
        m.score as int == minimax_value(old(board).tiles@, player),
        m.pos == minimax_pos(old(board).tiles@, player),
    decreases 9 - old(board).turns,
{
    let ghost tiles0 = board.tiles@;
    let available_spots = board.get_available_spots();
    if let GameResult::Winner(Role::O, _) = board.compute_result(Role::O) {
        return Move::with_score(-10);
    }
    if let GameResult::Winner(Role::X, _) = board.compute_result(Role::X) {
        return Move::with_score(10);
    }
    if available_spots.len() == 0 {
        proof {
            lemma_occupied_count_bounds(tiles0);
            if occupied_count(tiles0) < 9 {
                lemma_avail_nonempty(tiles0);
            }
        }
        return Move::with_score(0);
    }
    proof {
        lemma_avail_elems(tiles0, 0);
        assert(tile_is_empty(tiles0[pos_index(avail_from(tiles0, 0)[0])]));
        lemma_occupied_count_bounds(tiles0);
        if occupied_count(tiles0) == 9 {
            lemma_all_occupied(tiles0);
        }
        assert(!is_terminal(tiles0));
    }
    let mut moves: Vec<Move> = Vec::new();
    let mut i: usize = 0;
    while i < available_spots.len()
        invariant
            board.wf(),
            board.tiles@ == tiles0,
            board.turns == old(board).turns,
            board.playing_position == old(board).playing_position,
            board.highlighted_solution == old(board).highlighted_solution,
            tiles0.len() == 9,
            i <= available_spots.len(),
            available_spots@ == avail_from(tiles0, 0),
            moves@.len() == i,
            forall|j: int|
                0 <= j < i ==> (#[trigger] moves@[j]).pos == available_spots@[j]
                    && moves@[j].score as int == spot_value(tiles0, player, available_spots@[j])
                    && -10 <= moves@[j].score <= 10,
        decreases available_spots.len() - i,
    {
        let spot = available_spots[i];
        proof {
            lemma_avail_elems(tiles0, 0);
            assert(tile_is_empty(tiles0[pos_index(spot)]));
            lemma_placed_occupied(tiles0, pos_index(spot), player);
        }
        let _ = board.set(spot.0, spot.1, player);
        let sub = if player == Role::X {
            minimax(board, Role::O)
        } else {
            minimax(board, Role::X)
        };
        let m = Move::new(spot, sub.score);
        board.reset(spot.0, spot.1);
        proof {
            assert(board.tiles@ =~= tiles0);
            assert(other_role(player) == (if player == Role::X {
                Role::O
            } else {
                Role::X
            }));
            assert(m.score as int == spot_value(tiles0, player, spot));
            lemma_minimax_value_bounds(placed(tiles0, pos_index(spot), player), other_role(player));
        }
        moves.push(m);
        i = i + 1;
    }
    let ghost target = best_value_from(tiles0, player, 0);
    let mut best_move: usize = 0;
    if player == Role::X {
        let mut best_score: i32 = -10000;
        let mut j: usize = 0;
        while j < moves.len()
            invariant
                j <= moves.len(),
                moves@.len() == available_spots@.len(),
                available_spots@ == avail_from(tiles0, 0),
                tiles0.len() == 9,
                player == Role::X,
                forall|q: int|
                    0 <= q < moves@.len() ==> (#[trigger] moves@[q]).pos == available_spots@[q]
                        && moves@[q].score as int == spot_value(
                        tiles0,
                        player,
                        available_spots@[q],
                    ) && -10 <= moves@[q].score <= 10,
                j == 0 ==> best_score == -10000 && best_move == 0,
                j > 0 ==> {
                    &&& best_move < j
                    &&& moves@[best_move as int].score == best_score
                    &&& forall|q: int| 0 <= q < j ==> (#[trigger] moves@[q]).score <= best_score
                    &&& forall|q: int|
                        0 <= q < best_move ==> (#[trigger] moves@[q]).score < best_score
                },
            decreases moves.len() - j,
        {
            if moves[j].score > best_score {
                best_score = moves[j].score;
                best_move = j;
            }
            j = j + 1;
        }
        proof {
            lemma_minimax_selection(tiles0, player, moves@, best_move as int);
        }
    } else {
        let mut best_score: i32 = 10000;
        let mut j: usize = 0;
        while j < moves.len()
            invariant
                j <= moves.len(),
                moves@.len() == available_spots@.len(),
                available_spots@ == avail_from(tiles0, 0),
                tiles0.len() == 9,
                player == Role::O,
                forall|q: int|
                    0 <= q < moves@.len() ==> (#[trigger] moves@[q]).pos == available_spots@[q]
                        && moves@[q].score as int == spot_value(
                        tiles0,
                        player,
                        available_spots@[q],
                    ) && -10 <= moves@[q].score <= 10,
                j == 0 ==> best_score == 10000 && best_move == 0,
                j > 0 ==> {
                    &&& best_move < j
                    &&& moves@[best_move as int].score == best_score
                    &&& forall|q: int| 0 <= q < j ==> (#[trigger] moves@[q]).score >= best_score
                    &&& forall|q: int|
                        0 <= q < best_move ==> (#[trigger] moves@[q]).score > best_score
                },
            decreases moves.len() - j,
        {
            if moves[j].score < best_score {
                best_score = moves[j].score;
                best_move = j;
            }
            j = j + 1;
        }
        proof {
            lemma_minimax_selection(tiles0, player, moves@, best_move as int);
        }
    }
    moves[best_move]
}

/// From the selection loop's exit facts, the chosen entry of `moves` is the
/// minimax move: its score is the minimax value and its position the first
/// spot attaining it.
proof fn lemma_minimax_selection(tiles: Seq<Tile>, player: Role, moves: Seq<Move>, b: int)
    requires
        tiles.len() == 9,
        !is_terminal(tiles),
        moves.len() == avail_from(tiles, 0).len(),
        moves.len() > 0,
        forall|q: int|
            0 <= q < moves.len() ==> (#[trigger] moves[q]).pos == avail_from(tiles, 0)[q]
                && moves[q].score as int == spot_value(tiles, player, avail_from(tiles, 0)[q]),
        0 <= b < moves.len(),
        forall|q: int|
            0 <= q < moves.len() ==> (if player is X {
                (#[trigger] moves[q]).score <= moves[b].score
            } else {
                (#[trigger] moves[q]).score >= moves[b].score
            }),
        forall|q: int|
            0 <= q < b ==> (if player is X {
                (#[trigger] moves[q]).score < moves[b].score
            } else {
                (#[trigger] moves[q]).score > moves[b].score
            }),
    ensures
        moves[b].score as int == minimax_value(tiles, player),
        moves[b].pos == minimax_pos(tiles, player),
{
    let spots = avail_from(tiles, 0);
    let best = best_value_from(tiles, player, 0);
    lemma_best_value_char(tiles, player, 0);
    let jw = choose|j: int|
        0 <= j < spots.len() && spot_value(tiles, player, spots[j]) == best;
    assert(moves[jw].score as int == best);
    assert(moves[b].score as int == best);
    assert(minimax_value(tiles, player) == best);
    assert(spot_value(tiles, player, spots[b]) == best);
    assert forall|j2: int| 0 <= j2 < b implies spot_value(tiles, player, #[trigger] spots[j2])
        != best by {
        assert(moves[j2].score as int == spot_value(tiles, player, spots[j2]));
    }
    lemma_first_best_char(tiles, player, 0, b, best);
}

/// When some available spot from `n` on has the target value,
/// `first_best_from` lands on an empty on-grid spot with that value.
proof fn lemma_first_best_found(tiles: Seq<Tile>, player: Role, n: int, target: int)
    requires
        tiles.len() == 9,
        0 <= n <= 9,
        exists|j: int|
            0 <= j < avail_from(tiles, n).len() && spot_value(
                tiles,
                player,
                #[trigger] avail_from(tiles, n)[j],
            ) == target,
    ensures
        ({
            let p = first_best_from(tiles, player, n, target);
            &&& p.0 < 3
            &&& p.1 < 3
            &&& tile_is_empty(tiles[pos_index(p)])
            &&& spot_value(tiles, player, p) == target
        }),
    decreases 9 - n,
{
    let spots = avail_from(tiles, n);
    let rest = avail_from(tiles, n + 1);
    let idx = spot_index(n);
    let j = choose|j: int|
        0 <= j < spots.len() && spot_value(tiles, player, #[trigger] spots[j]) == target;
    if idx < tiles.len() && tile_is_empty(tiles[idx]) {
        let p0 = spot_pos(n);
        assert(spots == seq![p0] + rest);
        assert(pos_index(p0) == idx);
        if minimax_value(placed(tiles, idx, player), other_role(player)) == target {
            assert(spot_value(tiles, player, p0) == target);
        } else {
            assert(spots[0] == p0);
            assert(spot_value(tiles, player, spots[0]) != target);
            assert(j != 0);
            assert(spots[j] == rest[j - 1]);
            lemma_first_best_found(tiles, player, n + 1, target);
        }
    } else {
        assert(spots == rest);
        lemma_first_best_found(tiles, player, n + 1, target);
    }
}

/// The search never gives up value. From a board where the game is not
/// over, the spot the search selects is an empty cell on the grid, and
/// taking it preserves the exact minimax value of the position: the side
/// that invoked the search concedes nothing by playing the returned move,
/// so it never turns a non-losing position into a provably lost one.
pub proof fn lemma_search_move_is_optimal(tiles: Seq<Tile>, player: Role)
    requires
        tiles.len() == 9,
        !is_terminal(tiles),
    ensures
        ({
            let p = minimax_pos(tiles, player);
            &&& p.0 < 3
            &&& p.1 < 3
            &&& tile_is_empty(tiles[pos_index(p)])
            &&& minimax_value(placed(tiles, pos_index(p), player), other_role(player))
                == minimax_value(tiles, player)
        }),
{
    let best = best_value_from(tiles, player, 0);
    lemma_occupied_count_bounds(tiles);
    lemma_avail_nonempty(tiles);
    lemma_best_value_char(tiles, player, 0);
    assert(minimax_value(tiles, player) == best);
    lemma_first_best_found(tiles, player, 0, best);
}

/// A reply never moves the value past the replier's optimum: whichever
/// empty cell o takes, the position x then faces is worth at least what
/// the position was worth with o to move, and symmetrically no x move
/// exceeds x's value. Together with `lemma_search_move_is_optimal` this is
/// the search's whole-game guarantee: from any position worth at least a
/// draw to x, the search's own moves keep the value exactly and every
/// reply by o keeps it at least, so the value never drops below zero —
/// and since a position where o has won is worth -10, such a game can
/// never end in a loss for the side using the search.
pub proof fn lemma_reply_keeps_value(tiles: Seq<Tile>, p: PlayingPosition)
    requires
        tiles.len() == 9,
        !is_terminal(tiles),
        p.0 < 3,
        p.1 < 3,
        tile_is_empty(tiles[pos_index(p)]),
    ensures
        minimax_value(placed(tiles, pos_index(p), Role::O), Role::X) >= minimax_value(
            tiles,
            Role::O,
        ),
        minimax_value(placed(tiles, pos_index(p), Role::X), Role::O) <= minimax_value(
            tiles,
            Role::X,
        ),
{
    let n = p.0 as int * 3 + p.1 as int;
    assert(spot_pos(n) == p);
    assert(spot_index(n) == pos_index(p));
    lemma_avail_contains(tiles, 0, n);
    let spots = avail_from(tiles, 0);
    let j = choose|j: int| 0 <= j < spots.len() && spots[j] == p;
    lemma_best_value_char(tiles, Role::O, 0);
    lemma_best_value_char(tiles, Role::X, 0);
    assert(spot_value(tiles, Role::O, spots[j]) >= best_value_from(tiles, Role::O, 0));
    assert(spot_value(tiles, Role::X, spots[j]) <= best_value_from(tiles, Role::X, 0));
}

/// `first_best_from` picks exactly the first available spot whose value is
/// the target.
proof fn lemma_first_best_char(tiles: Seq<Tile>, player: Role, n: int, j: int, target: int)
    requires
        tiles.len() == 9,
        0 <= n <= 9,
        0 <= j < avail_from(tiles, n).len(),
        spot_value(tiles, player, avail_from(tiles, n)[j]) == target,
        forall|j2: int|
            0 <= j2 < j ==> spot_value(tiles, player, #[trigger] avail_from(tiles, n)[j2])
                != target,
    ensures
        first_best_from(tiles, player, n, target) == avail_from(tiles, n)[j],
    decreases 9 - n,
{
    let spots = avail_from(tiles, n);
    let rest = avail_from(tiles, n + 1);
    let idx = spot_index(n);
    if idx < tiles.len() && tile_is_empty(tiles[idx]) {
        let p = spot_pos(n);
        assert(spots == seq![p] + rest);
        assert(spots[0] == p);
        assert(pos_index(p) == idx);
        if j == 0 {
            assert(first_best_from(tiles, player, n, target) == p);
        } else {
            assert(spot_value(tiles, player, p) != target);
            assert forall|j2: int| 0 <= j2 < j - 1 implies spot_value(
                tiles,
                player,
                #[trigger] rest[j2],
            ) != target by {
                assert(spots[j2 + 1] == rest[j2]);
            }
            assert(spots[j] == rest[j - 1]);
            lemma_first_best_char(tiles, player, n + 1, j - 1, target);
        }
    } else {
        lemma_first_best_char(tiles, player, n + 1, j, target);
    }
}

} // verus!
