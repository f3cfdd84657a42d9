//! The 3x3 board: tiles, legal spots, move application and undo, and
//! win/draw detection by scanning the eight canonical lines.

use vstd::prelude::*;

use crate::game::players::Role;
use crate::rendering::{Color, Error, Renderer};

verus! {

/// Board coordinates as (column, row), each in [0, 3).
pub type PlayingPosition = (u8, u8);

/// The number a tile carries from the classic 3x3 magic square; kept for
/// presentation and history, it plays no part in win detection.
pub type MagicSquareNumber = u8;

/// Three positions that together form a winning line.
pub type Solution = [PlayingPosition; 3];

/// The result of the game at a given point in time.
#[derive(Debug, PartialEq)]
pub enum GameResult {
    /// The game is a tie.
    Draw,
    /// The game is not finished yet.
    NotFinished,
    /// One of the players won; carries the winning role and the line that won.
    Winner(Role, Solution),
}

/// A tile on the board.
#[derive(Copy, Debug, PartialEq, Eq, Structural)]
pub enum Tile {
    Empty(MagicSquareNumber),
    O(MagicSquareNumber),
    X(MagicSquareNumber),
}

impl Tile {
    /// Renders this tile to the terminal.
    pub fn render<R: Renderer>(&self, renderer: &R) -> Result<(), Error> {
        let written = match self {
            Tile::Empty(_) => renderer.write(" "),
            Tile::O(_) => renderer.write("o"),
            Tile::X(_) => renderer.write("x"),
        };
        match written {
            Ok(_) => Ok(()),
            Err(e) => Err(e),
        }
    }
}

impl Clone for Tile {
    /// Cloning a tile yields the same tile.
    fn clone(&self) -> (t: Self)
        ensures
            t == *self,
    {
        *self
    }
}

/// The magic-square number a tile carries.
pub open spec fn tile_magic(t: Tile) -> MagicSquareNumber {
    match t {
        Tile::Empty(m) => m,
        Tile::O(m) => m,
        Tile::X(m) => m,
    }
}

/// Whether a tile is empty.
pub open spec fn tile_is_empty(t: Tile) -> bool {
    t is Empty
}

/// Whether a tile is occupied by the given role.
pub open spec fn tile_owned_by(t: Tile, r: Role) -> bool {
    match t {
        Tile::Empty(_) => false,
        Tile::O(_) => r is O,
        Tile::X(_) => r is X,
    }
}

/// Index of the cell at column `x`, row `y` in the row-major tile sequence.
pub open spec fn cell_index(x: int, y: int) -> int {
    y * 3 + x
}

/// Index of the cell at a position.
pub open spec fn pos_index(p: PlayingPosition) -> int {
    cell_index(p.0 as int, p.1 as int)
}

/// How many tiles of the sequence are occupied (not empty).
pub open spec fn occupied_count(tiles: Seq<Tile>) -> int
    decreases tiles.len(),
{
    if tiles.len() == 0 {
        0
    } else {
        occupied_count(tiles.drop_last()) + if tile_is_empty(tiles.last()) {
            0int
        } else {
            1int
        }
    }
}

pub proof fn lemma_occupied_count_bounds(tiles: Seq<Tile>)
    ensures
        0 <= occupied_count(tiles) <= tiles.len(),
    decreases tiles.len(),
{
    if tiles.len() > 0 {
        lemma_occupied_count_bounds(tiles.drop_last());
    }
}

/// Updating one tile changes the occupied count exactly by the difference in
/// occupancy between the new and the old tile.
pub proof fn lemma_occupied_count_update(tiles: Seq<Tile>, i: int, t: Tile)
    requires
        0 <= i < tiles.len(),
    ensures
        occupied_count(tiles.update(i, t)) == occupied_count(tiles) - (if tile_is_empty(
            tiles[i],
        ) {
            0int
        } else {
            1int
        }) + (if tile_is_empty(t) {
            0int
        } else {
            1int
        }),
    decreases tiles.len(),
{
    let updated = tiles.update(i, t);
    if i == tiles.len() - 1 {
        assert(updated.drop_last() =~= tiles.drop_last());
        assert(updated.last() == t);
    } else {
        assert(updated.drop_last() =~= tiles.drop_last().update(i, t));
        assert(updated.last() == tiles.last());
        lemma_occupied_count_update(tiles.drop_last(), i, t);
    }
}

/// A sequence with as many occupied tiles as elements has no empty tile.
pub proof fn lemma_all_occupied(tiles: Seq<Tile>)
    requires
        occupied_count(tiles) == tiles.len(),
    ensures
        forall|i: int| 0 <= i < tiles.len() ==> !tile_is_empty(#[trigger] tiles[i]),
    decreases tiles.len(),
{
    if tiles.len() > 0 {
        lemma_occupied_count_bounds(tiles.drop_last());
        lemma_all_occupied(tiles.drop_last());
        assert forall|i: int| 0 <= i < tiles.len() implies !tile_is_empty(#[trigger] tiles[i]) by {
            if i < tiles.len() - 1 {
                assert(tiles.drop_last()[i] == tiles[i]);
            }
        }
    }
}

/// If fewer tiles are occupied than the sequence holds, some tile is empty.
pub proof fn lemma_some_tile_empty(tiles: Seq<Tile>)
    requires
        occupied_count(tiles) < tiles.len(),
    ensures
        exists|i: int| 0 <= i < tiles.len() && tile_is_empty(tiles[i]),
    decreases tiles.len(),
{
    if tile_is_empty(tiles.last()) {
        assert(tile_is_empty(tiles[tiles.len() - 1]));
    } else {
        lemma_some_tile_empty(tiles.drop_last());
        let i = choose|i: int|
            0 <= i < tiles.drop_last().len() && tile_is_empty(tiles.drop_last()[i]);
        assert(tile_is_empty(tiles[i]));
    }
}

/// The position `(column, row)` of cell `j` on canonical line `k`.
///
/// The scan order is fixed: the three rows top to bottom, then the three
/// columns left to right, then the main diagonal, then the anti-diagonal.
pub open spec fn line_cell(k: int, j: int) -> PlayingPosition {
    if k < 3 {
        ((j as u8), (k as u8))
    } else if k < 6 {
        (((k - 3) as u8), (j as u8))
    } else if k == 6 {
        ((j as u8), (j as u8))
    } else {
        (((2 - j) as u8), (j as u8))
    }
}

/// The three cells of canonical line `k`, in scan order.
pub fn nth_solution(k: u8) -> (s: Solution)
    requires
        k < 8,
    ensures
        s@.len() == 3,
        s@[0] == line_cell(k as int, 0),
        s@[1] == line_cell(k as int, 1),
        s@[2] == line_cell(k as int, 2),
{
    match k {
        0 => [(0, 0), (1, 0), (2, 0)],
        1 => [(0, 1), (1, 1), (2, 1)],
        2 => [(0, 2), (1, 2), (2, 2)],
        3 => [(0, 0), (0, 1), (0, 2)],
        4 => [(1, 0), (1, 1), (1, 2)],
        5 => [(2, 0), (2, 1), (2, 2)],
        6 => [(0, 0), (1, 1), (2, 2)],
        _ => [(2, 0), (1, 1), (0, 2)],
    }
}

/// Whether all three cells of canonical line `k` are occupied by `r`.
pub open spec fn line_won(tiles: Seq<Tile>, r: Role, k: int) -> bool {
    &&& tile_owned_by(tiles[pos_index(line_cell(k, 0))], r)
    &&& tile_owned_by(tiles[pos_index(line_cell(k, 1))], r)
    &&& tile_owned_by(tiles[pos_index(line_cell(k, 2))], r)
}

/// The first canonical line from `k` on that `r` has fully occupied, or 8 if
/// there is none.
pub open spec fn first_win_from(tiles: Seq<Tile>, r: Role, k: int) -> int
    decreases 8 - k,
{
    if !(0 <= k < 8) {
        8
    } else if line_won(tiles, r, k) {
        k
    } else {
        first_win_from(tiles, r, k + 1)
    }
}

/// Whether `r` has fully occupied some canonical line.
pub open spec fn has_win(tiles: Seq<Tile>, r: Role) -> bool {
    first_win_from(tiles, r, 0) < 8
}

proof fn lemma_first_win_from_props(tiles: Seq<Tile>, r: Role, k: int)
    requires
        0 <= k <= 8,
    ensures
        k <= first_win_from(tiles, r, k) <= 8,
        first_win_from(tiles, r, k) < 8 ==> line_won(tiles, r, first_win_from(tiles, r, k)),
        forall|j: int| k <= j < first_win_from(tiles, r, k) ==> !line_won(tiles, r, j),
        forall|j: int|
            k <= j < 8 && line_won(tiles, r, j) ==> first_win_from(tiles, r, k) <= j,
    decreases 8 - k,
{
    if k < 8 && !line_won(tiles, r, k) {
        lemma_first_win_from_props(tiles, r, k + 1);
    }
}

/// The fixed scan finds exactly the first fully occupied line: the reported
/// line is won by `r`, no earlier line in the scan order is won by `r`, and
/// any line won by `r` comes no earlier than the reported one.
pub proof fn lemma_first_win_properties(tiles: Seq<Tile>, r: Role)
    ensures
        0 <= first_win_from(tiles, r, 0) <= 8,
        first_win_from(tiles, r, 0) < 8 ==> line_won(tiles, r, first_win_from(tiles, r, 0)),
        forall|j: int| 0 <= j < first_win_from(tiles, r, 0) ==> !line_won(tiles, r, j),
        forall|j: int|
            0 <= j < 8 && line_won(tiles, r, j) ==> first_win_from(tiles, r, 0) <= j,
{
    lemma_first_win_from_props(tiles, r, 0);
}

/// Occupying all three cells of a canonical line makes the scan report a
/// win for that role, and what it reports is the first won line in the
/// fixed scan order — never a later one.
pub proof fn lemma_won_line_is_reported(
    tiles: Seq<Tile>,
    r: Role,
    k: int,
    result: GameResult,
    turns: int,
)
    requires
        0 <= k < 8,
        line_won(tiles, r, k),
        result_matches(result, tiles, turns, r),
    ensures
        ({
            let w = first_win_from(tiles, r, 0);
            &&& (result matches GameResult::Winner(wr, sol) && wr == r && sol@ =~= seq![
                line_cell(w, 0),
                line_cell(w, 1),
                line_cell(w, 2),
            ])
            &&& w <= k
            &&& line_won(tiles, r, w)
            &&& forall|j: int| 0 <= j < w ==> !line_won(tiles, r, j)
        }),
{
    lemma_first_win_properties(tiles, r);
}

/// A board where the checked role holds no line is a draw exactly when all
/// nine turns are taken, and otherwise not finished.
pub proof fn lemma_no_line_is_draw_or_open(tiles: Seq<Tile>, r: Role, result: GameResult, turns: int)
    requires
        !has_win(tiles, r),
        result_matches(result, tiles, turns, r),
    ensures
        turns >= 9 ==> result == GameResult::Draw,
        turns < 9 ==> result == GameResult::NotFinished,
{
}

proof fn lemma_first_win_from_prefix(tiles: Seq<Tile>, r: Role, k: int)
    requires
        0 <= k <= 8,
        forall|j: int| 0 <= j < k ==> !line_won(tiles, r, j),
    ensures
        first_win_from(tiles, r, 0) == first_win_from(tiles, r, k),
    decreases k,
{
    if k > 0 {
        lemma_first_win_from_prefix(tiles, r, k - 1);
    }
}

/// What `compute_result` returns, given the tiles, the turn counter and the
/// role that is checked: the first line fully occupied by the role wins;
/// otherwise the ninth turn makes a draw; otherwise the game goes on.
pub open spec fn result_matches(r: GameResult, tiles: Seq<Tile>, turns: int, role: Role) -> bool {
    let w = first_win_from(tiles, role, 0);
    if w < 8 {
        r matches GameResult::Winner(wr, sol) && wr == role && sol@ =~= seq![
            line_cell(w, 0),
            line_cell(w, 1),
            line_cell(w, 2),
        ]
    } else if turns >= 9 {
        r == GameResult::Draw
    } else {
        r == GameResult::NotFinished
    }
}

/// The tiles after the given role takes the cell at index `i`; the tile keeps
/// its magic-square number.
pub open spec fn placed(tiles: Seq<Tile>, i: int, role: Role) -> Seq<Tile> {
    tiles.update(
        i,
        match role {
            Role::O => Tile::O(tile_magic(tiles[i])),
            Role::X => Tile::X(tile_magic(tiles[i])),
        },
    )
}

proof fn lemma_occupied_index(tiles: Seq<Tile>, a: int)
    requires
        0 <= a < tiles.len(),
        !tile_is_empty(tiles[a]),
    ensures
        occupied_count(tiles) >= 1,
    decreases tiles.len(),
{
    lemma_occupied_count_bounds(tiles.drop_last());
    if a < tiles.len() - 1 {
        lemma_occupied_index(tiles.drop_last(), a);
    }
}

proof fn lemma_occupied_pair(tiles: Seq<Tile>, a: int, b: int)
    requires
        0 <= a < tiles.len(),
        0 <= b < tiles.len(),
        a != b,
        !tile_is_empty(tiles[a]),
        !tile_is_empty(tiles[b]),
    ensures
        occupied_count(tiles) >= 2,
    decreases tiles.len(),
{
    let hi = if a > b {
        a
    } else {
        b
    };
    let lo = if a > b {
        b
    } else {
        a
    };
    if hi == tiles.len() - 1 {
        lemma_occupied_index(tiles.drop_last(), lo);
    } else {
        lemma_occupied_pair(tiles.drop_last(), a, b);
    }
}

proof fn lemma_occupied_triple(tiles: Seq<Tile>, a: int, b: int, c: int)
    requires
        0 <= a < tiles.len(),
        0 <= b < tiles.len(),
        0 <= c < tiles.len(),
        a != b,
        a != c,
        b != c,
        !tile_is_empty(tiles[a]),
        !tile_is_empty(tiles[b]),
        !tile_is_empty(tiles[c]),
    ensures
        occupied_count(tiles) >= 3,
    decreases tiles.len(),
{
    let hi = if a >= b && a >= c {
        a
    } else if b >= a && b >= c {
        b
    } else {
        c
    };
    if hi == tiles.len() - 1 {
        if hi == a {
            lemma_occupied_pair(tiles.drop_last(), b, c);
        } else if hi == b {
            lemma_occupied_pair(tiles.drop_last(), a, c);
        } else {
            lemma_occupied_pair(tiles.drop_last(), a, b);
        }
    } else {
        lemma_occupied_triple(tiles.drop_last(), a, b, c);
    }
}

/// A board with fewer than three occupied tiles has no winner.
pub proof fn lemma_no_win_with_few_tiles(tiles: Seq<Tile>, r: Role)
    requires
        tiles.len() == 9,
        occupied_count(tiles) < 3,
    ensures
        !has_win(tiles, r),
{
    if has_win(tiles, r) {
        lemma_first_win_properties(tiles, r);
        let w = first_win_from(tiles, r, 0);
        let i0 = pos_index(line_cell(w, 0));
        let i1 = pos_index(line_cell(w, 1));
        let i2 = pos_index(line_cell(w, 2));
        lemma_occupied_triple(tiles, i0, i1, i2);
    }
}

/// A move by one role cannot complete a line for the other: whoever had no
/// win keeps having none when the opponent takes a cell.
pub proof fn lemma_place_keeps_other_safe(tiles: Seq<Tile>, i: int, role: Role, r: Role)
    requires
        tiles.len() == 9,
        0 <= i < tiles.len(),
        !has_win(tiles, r),
        r != role,
    ensures
        !has_win(placed(tiles, i, role), r),
{
    let after = placed(tiles, i, role);
    if has_win(after, r) {
        lemma_first_win_properties(after, r);
        lemma_first_win_properties(tiles, r);
        let w = first_win_from(after, r, 0);
        assert(line_won(tiles, r, w));
    }
}

/// Taking an empty cell raises the occupied count by exactly one.
pub proof fn lemma_placed_occupied(tiles: Seq<Tile>, i: int, role: Role)
    requires
        0 <= i < tiles.len(),
        tile_is_empty(tiles[i]),
    ensures
        occupied_count(placed(tiles, i, role)) == occupied_count(tiles) + 1,
        placed(tiles, i, role).len() == tiles.len(),
        !tile_is_empty(placed(tiles, i, role)[i]),
        occupied_count(tiles) < tiles.len(),
{
    let t = match role {
        Role::O => Tile::O(tile_magic(tiles[i])),
        Role::X => Tile::X(tile_magic(tiles[i])),
    };
    lemma_occupied_count_update(tiles, i, t);
    lemma_occupied_count_bounds(tiles);
    if occupied_count(tiles) == tiles.len() {
        lemma_all_occupied(tiles);
    }
}

/// The position of spot number `n` in the canonical spot order: column by
/// column, and within a column row by row.
pub open spec fn spot_pos(n: int) -> PlayingPosition {
    (((n / 3) as u8), ((n % 3) as u8))
}

/// The tile index of spot number `n`.
pub open spec fn spot_index(n: int) -> int {
    pos_index(spot_pos(n))
}

/// The empty positions among spots `n` to 8, in the canonical spot order.
pub open spec fn avail_from(tiles: Seq<Tile>, n: int) -> Seq<PlayingPosition>
    decreases 9 - n,
{
    if !(0 <= n < 9) {
        Seq::empty()
    } else {
        let rest = avail_from(tiles, n + 1);
        if spot_index(n) < tiles.len() && tile_is_empty(tiles[spot_index(n)]) {
            seq![spot_pos(n)] + rest
        } else {
            rest
        }
    }
}

/// Every position listed as available is on the grid and empty.
pub proof fn lemma_avail_elems(tiles: Seq<Tile>, n: int)
    ensures
        forall|j: int|
            0 <= j < avail_from(tiles, n).len() ==> {
                let p = #[trigger] avail_from(tiles, n)[j];
                &&& p.0 < 3
                &&& p.1 < 3
                &&& pos_index(p) < tiles.len()
                &&& tile_is_empty(tiles[pos_index(p)])
            },
    decreases 9 - n,
{
    if 0 <= n < 9 {
        lemma_avail_elems(tiles, n + 1);
        let rest = avail_from(tiles, n + 1);
        let s = avail_from(tiles, n);
        if spot_index(n) < tiles.len() && tile_is_empty(tiles[spot_index(n)]) {
            assert forall|j: int| 0 <= j < s.len() implies {
                let p = #[trigger] s[j];
                &&& p.0 < 3
                &&& p.1 < 3
                &&& pos_index(p) < tiles.len()
                &&& tile_is_empty(tiles[pos_index(p)])
            } by {
                if j == 0 {
                    assert(s[0] == spot_pos(n));
                } else {
                    assert(s[j] == rest[j - 1]);
                }
            }
        }
    }
}

/// Every empty on-grid spot from `n` on is listed as available.
pub proof fn lemma_avail_contains(tiles: Seq<Tile>, n: int, m: int)
    requires
        0 <= n <= m < 9,
        spot_index(m) < tiles.len(),
        tile_is_empty(tiles[spot_index(m)]),
    ensures
        avail_from(tiles, n).contains(spot_pos(m)),
    decreases 9 - n,
{
    if n == m {
        assert(avail_from(tiles, n)[0] == spot_pos(n));
    } else {
        lemma_avail_contains(tiles, n + 1, m);
        let rest = avail_from(tiles, n + 1);
        let j = choose|j: int| 0 <= j < rest.len() && rest[j] == spot_pos(m);
        if spot_index(n) < tiles.len() && tile_is_empty(tiles[spot_index(n)]) {
            assert(avail_from(tiles, n)[j + 1] == spot_pos(m));
        }
    }
}

/// A board that is not full has at least one available spot.
pub proof fn lemma_avail_nonempty(tiles: Seq<Tile>)
    requires
        tiles.len() == 9,
        occupied_count(tiles) < 9,
    ensures
        avail_from(tiles, 0).len() > 0,
{
    lemma_some_tile_empty(tiles);
    let i = choose|i: int| 0 <= i < tiles.len() && tile_is_empty(tiles[i]);
    let x = i % 3;
    let y = i / 3;
    let n = x * 3 + y;
    assert(spot_index(n) == i);
    lemma_avail_contains(tiles, 0, n);
}

/// The nine tiles of a fresh board, each carrying its magic-square number.
pub open spec fn initial_tiles() -> Seq<Tile> {
    seq![
        Tile::Empty(8),
        Tile::Empty(1),
        Tile::Empty(6),
        Tile::Empty(3),
        Tile::Empty(5),
        Tile::Empty(7),
        Tile::Empty(4),
        Tile::Empty(9),
        Tile::Empty(2),
    ]
}

/// A tic-tac-toe board.
pub struct Board {
    /// The winning line to highlight when rendering, if any.
    pub highlighted_solution: Option<Solution>,
    /// The visual indication of the last played spot.
    pub playing_position: PlayingPosition,
    /// The nine tiles, row-major.
    pub tiles: Vec<Tile>,
    /// How many moves have been played: always the number of occupied tiles.
    pub turns: u8,
}

impl Clone for Board {
    /// Cloning yields a board equal to this one in every field.
    fn clone(&self) -> (b: Self)
        ensures
            b.tiles@ == self.tiles@,
            b.turns == self.turns,
            b.playing_position == self.playing_position,
            b.highlighted_solution == self.highlighted_solution,
    {
        let tiles = self.tiles.clone();
        proof {
            assert(tiles@ =~= self.tiles@);
        }
        Board {
            highlighted_solution: self.highlighted_solution,
            playing_position: self.playing_position,
            tiles,
            turns: self.turns,
        }
    }
}

impl Board {
    /// Well-formedness: nine tiles, the turn counter equals the number of
    /// occupied tiles, and the cursor is on the grid.
    pub open spec fn wf(self) -> bool {
        &&& self.tiles@.len() == 9
        &&& self.turns as int == occupied_count(self.tiles@)
        &&& (self.playing_position.0 as int) < 3
        &&& (self.playing_position.1 as int) < 3
    }

    /// Constructs a new tic-tac-toe board.
    pub fn new() -> (b: Board)
        ensures
            b.wf(),
            b.tiles@ == initial_tiles(),
            b.turns == 0,
            b.playing_position == (1u8, 1u8),
            b.highlighted_solution is None,
    {
        let mut tiles: Vec<Tile> = Vec::new();
        tiles.push(Tile::Empty(8));
        tiles.push(Tile::Empty(1));
        tiles.push(Tile::Empty(6));
        tiles.push(Tile::Empty(3));
        tiles.push(Tile::Empty(5));
        tiles.push(Tile::Empty(7));
        tiles.push(Tile::Empty(4));
        tiles.push(Tile::Empty(9));
        tiles.push(Tile::Empty(2));
        proof {
            assert(tiles@ =~= initial_tiles());
            reveal_with_fuel(occupied_count, 10);
        }
        Board { highlighted_solution: None, playing_position: (1, 1), tiles, turns: 0 }
    }

    /// Gets a tile given its board coordinates.
    pub fn get(&self, x: u8, y: u8) -> (t: &Tile)
        requires
            self.wf(),
            x < 3,
            y < 3,
        ensures
            *t == self.tiles@[cell_index(x as int, y as int)],
    {
        &self.tiles[(y as usize) * 3 + x as usize]
    }

    /// Indicates whether a given spot is empty.
    pub fn is_empty(&self, x: u8, y: u8) -> (r: bool)
        requires
            self.wf(),
            x < 3,
            y < 3,
        ensures
            r == tile_is_empty(self.tiles@[cell_index(x as int, y as int)]),
    {
        match *self.get(x, y) {
            Tile::Empty(_) => true,
            _ => false,
        }
    }

    /// Computes the current result of the game for the given role.
    ///
    /// Scans the 8 canonical lines in the fixed order and reports the first
    /// one fully occupied by the role; with no such line, the board is a
    /// draw once all nine turns are taken, and otherwise not finished.
    pub fn compute_result(&self, for_role: Role) -> (r: GameResult)
        requires
            self.wf(),
        ensures
            result_matches(r, self.tiles@, self.turns as int, for_role),
    {
        let ghost tiles = self.tiles@;
        let mut k: u8 = 0;
        while k < 8
            invariant
                self.wf(),
                tiles == self.tiles@,
                k <= 8,
                forall|j: int| 0 <= j < k ==> !line_won(tiles, for_role, j),
            decreases 8 - k,
        {
            let sol = nth_solution(k);
            if self.owned_by(sol[0].0, sol[0].1, for_role) && self.owned_by(
                sol[1].0,
                sol[1].1,
                for_role,
            ) && self.owned_by(sol[2].0, sol[2].1, for_role) {
                proof {
                    lemma_first_win_from_prefix(tiles, for_role, k as int);
                    assert(first_win_from(tiles, for_role, k as int) == k as int);
                }
                return GameResult::Winner(for_role, sol);
            }
            k = k + 1;
        }
        proof {
            lemma_first_win_from_prefix(tiles, for_role, 8);
        }
        if 9 > self.turns {
            GameResult::NotFinished
        } else {
            GameResult::Draw
        }
    }

    /// Whether the tile at the given coordinates is occupied by the role.
    fn owned_by(&self, x: u8, y: u8, role: Role) -> (r: bool)
        requires
            self.wf(),
            x < 3,
            y < 3,
        ensures
            r == tile_owned_by(self.tiles@[cell_index(x as int, y as int)], role),
    {
        match (*self.get(x, y), role) {
            (Tile::O(_), Role::O) => true,
            (Tile::X(_), Role::X) => true,
            _ => false,
        }
    }

    /// Gets a list of all empty spots on the board, in the canonical order.
    pub fn get_available_spots(&self) -> (spots: Vec<PlayingPosition>)
        requires
            self.wf(),
        ensures
            spots@ == avail_from(self.tiles@, 0),
    {
        let ghost tiles = self.tiles@;
        let mut spots: Vec<PlayingPosition> = Vec::new();
        let mut n: u8 = 0;
        while n < 9
            invariant
                self.wf(),
                tiles == self.tiles@,
                n <= 9,
                spots@ + avail_from(tiles, n as int) == avail_from(tiles, 0),
            decreases 9 - n,
        {
            let x = n / 3;
            let y = n % 3;
            assert(spot_pos(n as int) == (x, y));
            assert(spot_index(n as int) == cell_index(x as int, y as int));
            let ghost old_spots = spots@;
            if self.is_empty(x, y) {
                spots.push((x, y));
                proof {
                    assert(avail_from(tiles, n as int) =~= seq![spot_pos(n as int)] + avail_from(
                        tiles,
                        n as int + 1,
                    ));
                    assert(spots@ + avail_from(tiles, n as int + 1) =~= old_spots + avail_from(
                        tiles,
                        n as int,
                    ));
                }
            }
            n = n + 1;
        }
        proof {
            assert(spots@ + avail_from(tiles, 9) =~= spots@);
        }
        spots
    }

    /// Renders this tic-tac-toe board to the terminal, marking the
    /// highlighted solution, if any, with a green background.
    pub fn render<R: Renderer>(&self, renderer: &R) -> Result<(), Error>
        requires
            self.wf(),
    {
        let mut highlighting_index: usize = 0;
        let mut y: u8 = 0;
        while y < 3
            invariant
                self.wf(),
                y <= 3,
                highlighting_index <= 3,
            decreases 3 - y,
        {
            let mut x: u8 = 0;
            while x < 3
                invariant
                    self.wf(),
                    x <= 3,
                    y < 3,
                    highlighting_index <= 3,
                decreases 3 - x,
            {
                if x > 0 {
                    renderer.write("|")?;
                }
                let mut reset_background = false;
                if let Some(solution) = self.highlighted_solution {
                    if highlighting_index < 3 && solution[highlighting_index].0 == x
                        && solution[highlighting_index].1 == y {
                        highlighting_index = highlighting_index + 1;
                        renderer.set_background_color(Color::Green)?;
                        reset_background = true;
                    }
                }
                self.get(x, y).render(renderer)?;
                if reset_background {
                    renderer.set_background_color(Color::Black)?;
                }
                x = x + 1;
            }
            if y < 2 {
                renderer.write("\n-+-+-\n")?;
            }
            y = y + 1;
        }
        Ok(())
    }

    /// Sets the o or x tile at the given coordinates and returns the new
    /// state of the game; a move on an occupied cell changes nothing and
    /// reports the game as not finished.
    pub fn set(&mut self, x: u8, y: u8, for_role: Role) -> (r: GameResult)
        requires
            old(self).wf(),
            x < 3,
            y < 3,
        ensures
            final(self).wf(),
            final(self).highlighted_solution == old(self).highlighted_solution,
            final(self).playing_position == old(self).playing_position,
            tile_is_empty(old(self).tiles@[cell_index(x as int, y as int)]) ==> {
                &&& final(self).tiles@ == placed(
                    old(self).tiles@,
                    cell_index(x as int, y as int),
                    for_role,
                )
                &&& final(self).turns == old(self).turns + 1
                &&& result_matches(r, final(self).tiles@, final(self).turns as int, for_role)
            },
            !tile_is_empty(old(self).tiles@[cell_index(x as int, y as int)]) ==> {
                &&& *final(self) == *old(self)
                &&& r == GameResult::NotFinished
            },
    {
        let index = (y as usize) * 3 + x as usize;
        let current_tile = self.tiles[index];
        match current_tile {
            Tile::Empty(magic_square_number) => {
                let new_tile = match for_role {
                    Role::O => Tile::O(magic_square_number),
                    Role::X => Tile::X(magic_square_number),
                };
                proof {
                    lemma_occupied_count_bounds(self.tiles@);
                    lemma_occupied_count_update(self.tiles@, index as int, new_tile);
                }
                self.tiles[index] = new_tile;
                self.turns = self.turns + 1;
                self.compute_result(for_role)
            },
            _ => GameResult::NotFinished,
        }
    }

    /// Sets the empty tile at the given coordinates, keeping its magic-square
    /// number, and decrements the turn counter. Used by the move search to
    /// restore the board after speculative exploration.
    pub fn reset(&mut self, x: u8, y: u8)
        requires
            old(self).wf(),
            x < 3,
            y < 3,
            old(self).turns >= 1,
        ensures
            final(self).tiles@ == old(self).tiles@.update(
                cell_index(x as int, y as int),
                Tile::Empty(tile_magic(old(self).tiles@[cell_index(x as int, y as int)])),
            ),
            final(self).turns == old(self).turns - 1,
            final(self).highlighted_solution == old(self).highlighted_solution,
            final(self).playing_position == old(self).playing_position,
            !tile_is_empty(old(self).tiles@[cell_index(x as int, y as int)]) ==> final(self).wf(),
    {
        let index = (y as usize) * 3 + x as usize;
        let current_tile = self.tiles[index];
        let magic_square_number = match current_tile {
            Tile::Empty(m) => m,
            Tile::O(m) => m,
            Tile::X(m) => m,
        };
        proof {
            lemma_occupied_count_update(self.tiles@, index as int, Tile::Empty(magic_square_number));
        }
        self.tiles[index] = Tile::Empty(magic_square_number);
        self.turns = self.turns - 1;
    }

    /// Tells the board to draw a visual indication on a particular solution.
    /// Used to show the winning combo.
    pub fn highlight_solution(&mut self, solution: Solution)
        ensures
            *final(self) == (Board { highlighted_solution: Some(solution), ..*old(self) }),
    {
        self.highlighted_solution = Some(solution);
    }
}

} // verus!
