//! The randomised Prim's algorithm as a state machine on sequences, and what
//! holds of every state that it can reach.

use vstd::prelude::*;
use crate::Point;
use crate::execution::Tile;
use crate::generation::grid::{rectangular, uniform_rows, with_cell};
use crate::generation::frontier::swap_removed;
use crate::generation::paths::{adjacent, connected, open_cell, opens_kept};
use crate::generation::paths::{lemma_connected_ends_are_open, lemma_connected_first_step};
use crate::generation::paths::{
    lemma_connected_by_step, lemma_connected_monotone, lemma_connected_to_itself,
};
use crate::generation::prim_generator::CellType;
use crate::generation::tally::{count_in_rows, lemma_count_in_rows_update};

verus! {

/// What a `PrimCarving` holds: the options it runs for, the working grid, the
/// cells that are resolved, and the frontier, each entry a cell `(x, y)` of the
/// working grid.
pub struct PrimState {
    pub width: nat,
    pub height: nat,
    pub cells: Seq<Seq<CellType>>,
    pub seen: Seq<Seq<bool>>,
    pub frontier: Seq<(usize, usize)>,
}

/// Whether `(x, y)` is a cell of `cells` that holds a passage.
pub open spec fn is_passage(cells: Seq<Seq<CellType>>, x: int, y: int) -> bool {
    &&& 0 <= y < cells.len()
    &&& 0 <= x < cells[y].len()
    &&& cells[y][x] == CellType::Passage
}

/// One if `(x, y)` is a passage of `cells`, else zero.
pub open spec fn passage_count(cells: Seq<Seq<CellType>>, x: int, y: int) -> nat {
    if is_passage(cells, x, y) {
        1
    } else {
        0
    }
}

/// How many of the four neighbours of `(x, y)` are passages.
pub open spec fn passages_around(cells: Seq<Seq<CellType>>, x: int, y: int) -> nat {
    passage_count(cells, x, y - 1) + passage_count(cells, x - 1, y) + passage_count(cells, x, y + 1)
        + passage_count(cells, x + 1, y)
}

/// The maze that a working grid stands for: the working cell `(x, y)` is the
/// maze cell `(x + 1, y + 1)`, and every other maze cell is wall.
#[verifier::opaque]
pub open spec fn maze_rows(cells: Seq<Seq<CellType>>, width: nat, height: nat) -> Seq<Seq<Tile>> {
    Seq::new(
        height + 1,
        |y: int|
            Seq::new(
                width + 1,
                |x: int|
                    if is_passage(cells, x - 1, y - 1) {
                        Tile::Passage
                    } else {
                        Tile::Wall
                    },
            ),
    )
}

impl PrimState {
    /// Whether `(x, y)` is a wall cell of the working grid that has not been
    /// resolved yet.
    pub open spec fn fresh_wall(self, x: int, y: int) -> bool {
        &&& 0 <= y < self.cells.len()
        &&& 0 <= x < self.cells[y].len()
        &&& self.cells[y][x] == CellType::Wall
        &&& !self.seen[y][x]
    }

    /// `(x, y)` as a one-entry sequence if it is a fresh wall, else nothing.
    pub open spec fn fresh_entry(self, x: int, y: int) -> Seq<(usize, usize)> {
        if self.fresh_wall(x, y) {
            seq![(x as usize, y as usize)]
        } else {
            seq![]
        }
    }

    /// The fresh walls among the neighbours of `(x, y)`: above, left, below,
    /// right, in that order.
    pub open spec fn fresh_around(self, x: int, y: int) -> Seq<(usize, usize)> {
        self.fresh_entry(x, y - 1) + self.fresh_entry(x - 1, y) + self.fresh_entry(x, y + 1)
            + self.fresh_entry(x + 1, y)
    }

    /// The state after the frontier entry `pick` has been taken out and
    /// resolved.
    ///
    /// An entry that is already resolved is dropped. Otherwise the cell is now
    /// resolved; if exactly one of its neighbours is a passage it becomes a
    /// passage itself, and its fresh wall neighbours join the frontier.
    pub open spec fn expanded(self, pick: int) -> PrimState {
        let (x, y) = self.frontier[pick];
        let rest = swap_removed(self.frontier, pick);
        if self.seen[y as int][x as int] {
            PrimState { frontier: rest, ..self }
        } else {
            let seen = with_cell(self.seen, x as int, y as int, true);
            if passages_around(self.cells, x as int, y as int) == 1 {
                PrimState {
                    cells: with_cell(self.cells, x as int, y as int, CellType::Passage),
                    seen,
                    frontier: rest + (PrimState { seen, ..self }).fresh_around(x as int, y as int),
                    ..self
                }
            } else {
                PrimState { seen, frontier: rest, ..self }
            }
        }
    }

    /// The finish cell of the maze: the last cell of the working grid.
    pub open spec fn finish(self) -> Point {
        Point((self.width - 1) as usize, (self.height - 1) as usize)
    }

    /// The maze that the working grid stands for.
    pub open spec fn carved(self) -> Seq<Seq<Tile>> {
        maze_rows(self.cells, self.width, self.height)
    }

    /// What holds of the state of a run from its first step to its last:
    /// the two grids have the size of the working grid, the frontier lies
    /// inside it, every passage is resolved, the finish cell is a passage, and
    /// every passage of the maze is connected to the finish cell.
    pub open spec fn sound(self) -> bool {
        &&& 3 <= self.width < usize::MAX
        &&& 3 <= self.height < usize::MAX
        &&& rectangular(self.cells, (self.width - 1) as nat, (self.height - 1) as nat)
        &&& rectangular(self.seen, (self.width - 1) as nat, (self.height - 1) as nat)
        &&& self.frontier_inside()
        &&& forall|x: int, y: int|
            0 <= x < self.width - 1 && 0 <= y < self.height - 1 && self.cells[y][x]
                == CellType::Passage ==> #[trigger] self.seen[y][x]
        &&& self.cells[self.height - 2][self.width - 2] == CellType::Passage
        &&& self.joined()
    }

    /// Every frontier entry is a cell of the working grid.
    pub open spec fn frontier_inside(self) -> bool {
        forall|i: int|
            0 <= i < self.frontier.len() ==> (#[trigger] self.frontier[i]).0 < self.width - 1
                && self.frontier[i].1 < self.height - 1
    }

    /// Every passage of the maze is connected to the finish cell.
    pub open spec fn joined(self) -> bool {
        forall|p: Point| #[trigger]
            open_cell(self.carved(), p) ==> connected(self.carved(), p, self.finish())
    }

    /// The state a run starts from: the finish cell is a passage and resolved,
    /// and the frontier holds its left and its upper neighbour.
    pub open spec fn seeded(width: nat, height: nat) -> PrimState {
        PrimState {
            width,
            height,
            cells: with_cell(
                uniform_rows((width - 1) as nat, (height - 1) as nat, CellType::Wall),
                width - 2,
                height - 2,
                CellType::Passage,
            ),
            seen: with_cell(
                uniform_rows((width - 1) as nat, (height - 1) as nat, false),
                width - 2,
                height - 2,
                true,
            ),
            frontier: seq![
                ((width - 3) as usize, (height - 2) as usize),
                ((width - 2) as usize, (height - 3) as usize),
            ],
        }
    }

    /// How many cells of the working grid are not resolved yet.
    pub open spec fn unresolved(self) -> nat {
        count_in_rows(self.seen, false)
    }
}

/// The rows of a maze after its start cell has been opened: where the cell
/// `(1, 1)` is wall and its right neighbour `(2, 1)` a passage, the two swap
/// their tiles; any other maze stays as it is.
pub open spec fn open_start(rows: Seq<Seq<Tile>>) -> Seq<Seq<Tile>> {
    if 1 < rows.len() && 2 < rows[1].len() && rows[1][1] == Tile::Wall && rows[1][2]
        == Tile::Passage {
        with_cell(with_cell(rows, 1, 1, Tile::Passage), 2, 1, Tile::Wall)
    } else {
        rows
    }
}

/// The state of a run for `width` x `height` after the frontier picks `picks`,
/// taken in order.
pub open spec fn carved_by(width: nat, height: nat, picks: Seq<int>) -> PrimState
    decreases picks.len(),
{
    if picks.len() == 0 {
        PrimState::seeded(width, height)
    } else {
        carved_by(width, height, picks.drop_last()).expanded(picks.last())
    }
}

/// Whether each pick of `picks` is an index into the frontier as it stands
/// when the pick is made.
pub open spec fn picks_fit(width: nat, height: nat, picks: Seq<int>) -> bool
    decreases picks.len(),
{
    picks.len() == 0 || (picks_fit(width, height, picks.drop_last()) && 0 <= picks.last()
        < carved_by(width, height, picks.drop_last()).frontier.len())
}

/// Whether `picks` drives a run to its end: every pick fits, and the frontier
/// is empty after the last.
pub open spec fn complete_run(width: nat, height: nat, picks: Seq<int>) -> bool {
    picks_fit(width, height, picks) && carved_by(width, height, picks).frontier.len() == 0
}

/// The maze that the generator hands out after the picks `picks`: what was
/// carved, with the start cell opened.
pub open spec fn prim_outcome(width: nat, height: nat, picks: Seq<int>) -> Seq<Seq<Tile>> {
    open_start(carved_by(width, height, picks).carved())
}

/// The state a run starts from is sound.
pub proof fn lemma_seeded_is_sound(width: nat, height: nat)
    requires
        3 <= width < usize::MAX,
        3 <= height < usize::MAX,
    ensures
        PrimState::seeded(width, height).sound(),
{
    let st = PrimState::seeded(width, height);
    let maze = st.carved();
    assert forall|p: Point| #[trigger] open_cell(maze, p) implies connected(maze, p, st.finish()) by {
        lemma_open_in_maze(st.cells, width, height, p);
        assert(p == st.finish());
        lemma_connected_to_itself(maze, p);
    }
}

/// The open cells of the maze are the passages of the working grid, moved by
/// one column and one row.
pub proof fn lemma_open_in_maze(cells: Seq<Seq<CellType>>, width: nat, height: nat, p: Point)
    ensures
        open_cell(maze_rows(cells, width, height), p) <==> p.0 <= width && p.1 <= height
            && is_passage(cells, p.0 - 1, p.1 - 1),
{
    reveal(maze_rows);
}

/// Every entry of `fresh_around` is a fresh wall of the grid.
proof fn lemma_fresh_around_in_range(st: PrimState, x: int, y: int, i: int)
    requires
        1 <= st.width < usize::MAX,
        1 <= st.height < usize::MAX,
        rectangular(st.cells, (st.width - 1) as nat, (st.height - 1) as nat),
        0 <= i < st.fresh_around(x, y).len(),
    ensures
        st.fresh_wall(st.fresh_around(x, y)[i].0 as int, st.fresh_around(x, y)[i].1 as int),
{
    let a = st.fresh_entry(x, y - 1);
    let b = st.fresh_entry(x - 1, y);
    let c = st.fresh_entry(x, y + 1);
    let d = st.fresh_entry(x + 1, y);
    let all = st.fresh_around(x, y);
    assert(all == a + b + c + d);
    if i < a.len() {
        assert(all[i] == a[i]);
    } else if i < a.len() + b.len() {
        assert(all[i] == b[i - a.len()]);
    } else if i < a.len() + b.len() + c.len() {
        assert(all[i] == c[i - a.len() - b.len()]);
    } else {
        assert(all[i] == d[i - a.len() - b.len() - c.len()]);
    }
}

/// Carving a cell that has a passage for a neighbour keeps every passage of
/// the maze connected to the finish cell.
proof fn lemma_carving_keeps_joined(st: PrimState, x: int, y: int)
    requires
        3 <= st.width < usize::MAX,
        3 <= st.height < usize::MAX,
        rectangular(st.cells, (st.width - 1) as nat, (st.height - 1) as nat),
        st.joined(),
        0 <= x < st.width - 1,
        0 <= y < st.height - 1,
        passages_around(st.cells, x, y) >= 1,
    ensures
        (PrimState { cells: with_cell(st.cells, x, y, CellType::Passage), ..st }).joined(),
{
    let next = PrimState { cells: with_cell(st.cells, x, y, CellType::Passage), ..st };
    let before = st.carved();
    let after = next.carved();
    let here = Point((x + 1) as usize, (y + 1) as usize);
    assert forall|p: Point| open_cell(before, p) implies open_cell(after, p) by {
        lemma_open_in_maze(st.cells, st.width, st.height, p);
        lemma_open_in_maze(next.cells, st.width, st.height, p);
    }
    assert(opens_kept(before, after));
    let (nx, ny) = if is_passage(st.cells, x, y - 1) {
        (x, y - 1)
    } else if is_passage(st.cells, x - 1, y) {
        (x - 1, y)
    } else if is_passage(st.cells, x, y + 1) {
        (x, y + 1)
    } else {
        (x + 1, y)
    };
    assert(is_passage(st.cells, nx, ny));
    let near = Point((nx + 1) as usize, (ny + 1) as usize);
    lemma_open_in_maze(st.cells, st.width, st.height, near);
    assert(connected(before, near, st.finish()));
    lemma_connected_monotone(before, after, near, st.finish());
    lemma_open_in_maze(next.cells, st.width, st.height, here);
    assert(adjacent(here, near));
    lemma_connected_by_step(after, here, near, st.finish());
    assert forall|p: Point| #[trigger] open_cell(after, p) implies connected(
        after,
        p,
        next.finish(),
    ) by {
        if p != here {
            lemma_open_in_maze(st.cells, st.width, st.height, p);
            lemma_open_in_maze(next.cells, st.width, st.height, p);
            assert(open_cell(before, p));
            lemma_connected_monotone(before, after, p, st.finish());
        }
    }
}

/// After a step the frontier still lies inside the working grid.
proof fn lemma_frontier_stays_inside(st: PrimState, pick: int)
    requires
        st.sound(),
        0 <= pick < st.frontier.len(),
    ensures
        st.expanded(pick).frontier_inside(),
        st.expanded(pick).width == st.width,
        st.expanded(pick).height == st.height,
{
    let (x, y) = st.frontier[pick];
    let (xi, yi) = (x as int, y as int);
    let next = st.expanded(pick);
    let rest = swap_removed(st.frontier, pick);
    assert forall|i: int| 0 <= i < rest.len() implies (#[trigger] rest[i]).0 < st.width - 1 && rest[i].1
        < st.height - 1 by {
        if i == pick {
            assert(rest[i] == st.frontier[st.frontier.len() - 1]);
        } else {
            assert(rest[i] == st.frontier[i]);
        }
    }
    if !st.seen[yi][xi] && passages_around(st.cells, xi, yi) == 1 {
        let marked = PrimState { seen: with_cell(st.seen, xi, yi, true), ..st };
        let fresh = marked.fresh_around(xi, yi);
        assert forall|i: int| 0 <= i < fresh.len() implies (#[trigger] fresh[i]).0 < st.width - 1
            && fresh[i].1 < st.height - 1 by {
            lemma_fresh_around_in_range(marked, xi, yi, i);
        }
        assert forall|i: int| 0 <= i < next.frontier.len() implies (#[trigger] next.frontier[i]).0
            < st.width - 1 && next.frontier[i].1 < st.height - 1 by {
            if i < rest.len() {
                assert(next.frontier[i] == rest[i]);
            } else {
                assert(next.frontier[i] == fresh[i - rest.len()]);
            }
        }
    }
}

/// A step keeps a sound state sound.
pub proof fn lemma_expanded_is_sound(st: PrimState, pick: int)
    requires
        st.sound(),
        0 <= pick < st.frontier.len(),
    ensures
        st.expanded(pick).sound(),
{
    let (x, y) = st.frontier[pick];
    let next = st.expanded(pick);
    lemma_frontier_stays_inside(st, pick);
    if !st.seen[y as int][x as int] && passages_around(st.cells, x as int, y as int) == 1 {
        let carved = PrimState {
            cells: with_cell(st.cells, x as int, y as int, CellType::Passage),
            ..st
        };
        lemma_carving_keeps_joined(st, x as int, y as int);
        assert(next.carved() == carved.carved());
        assert(next.finish() == carved.finish());
        assert(next.joined());
    } else {
        assert(next.carved() == st.carved());
        assert(next.finish() == st.finish());
        assert(next.joined());
    }
}

/// Each step brings the run closer to its end: it resolves a cell, or else it
/// resolves none and shortens the frontier.
pub proof fn lemma_expanded_is_smaller(st: PrimState, pick: int)
    requires
        st.sound(),
        0 <= pick < st.frontier.len(),
    ensures
        st.expanded(pick).unresolved() < st.unresolved() || (st.expanded(pick).unresolved()
            == st.unresolved() && st.expanded(pick).frontier.len() < st.frontier.len()),
{
    let (x, y) = st.frontier[pick];
    if !st.seen[y as int][x as int] {
        lemma_count_in_rows_update(st.seen, x as int, y as int, true, false);
    }
}

/// Every state that fitting picks lead to is sound.
pub proof fn lemma_run_is_sound(width: nat, height: nat, picks: Seq<int>)
    requires
        3 <= width < usize::MAX,
        3 <= height < usize::MAX,
        picks_fit(width, height, picks),
    ensures
        carved_by(width, height, picks).sound(),
        carved_by(width, height, picks).width == width,
        carved_by(width, height, picks).height == height,
    decreases picks.len(),
{
    if picks.len() == 0 {
        lemma_seeded_is_sound(width, height);
    } else {
        lemma_run_is_sound(width, height, picks.drop_last());
        lemma_expanded_is_sound(carved_by(width, height, picks.drop_last()), picks.last());
    }
}

/// Opening the start cell leaves the finish cell a passage.
pub proof fn lemma_finish_stays_open(st: PrimState)
    requires
        st.sound(),
    ensures
        open_start(st.carved())[st.height - 1][st.width - 1] == Tile::Passage,
{
    reveal(maze_rows);
    assert(is_passage(st.cells, st.width - 2, st.height - 2));
}

/// The outcome of a run has one column and one row more than the options
/// ask for, consists of walls and passages only, and has walls all along its
/// border.
pub proof fn lemma_outcome_is_walled(width: nat, height: nat, picks: Seq<int>)
    requires
        3 <= width < usize::MAX,
        3 <= height < usize::MAX,
        picks_fit(width, height, picks),
    ensures
        rectangular(prim_outcome(width, height, picks), width + 1, height + 1),
        forall|x: int, y: int|
            0 <= x <= width && 0 <= y <= height ==> {
                let tile = #[trigger] prim_outcome(width, height, picks)[y][x];
                &&& tile == Tile::Wall || tile == Tile::Passage
                &&& x == 0 || y == 0 || x == width || y == height ==> tile == Tile::Wall
            },
{
    reveal(maze_rows);
    lemma_run_is_sound(width, height, picks);
}

/// A run is fixed by its picks: two runs for the same options that pick the
/// same entries, one after the other, hand out the same maze.
pub proof fn lemma_same_picks_same_maze(
    width: nat,
    height: nat,
    first: Seq<int>,
    second: Seq<int>,
)
    requires
        first.len() == second.len(),
        forall|i: int| 0 <= i < first.len() ==> first[i] == second[i],
    ensures
        carved_by(width, height, first) == carved_by(width, height, second),
        prim_outcome(width, height, first) == prim_outcome(width, height, second),
{
    assert(first =~= second);
}

/// What becomes of the start cell. A start cell that the run carved is joined
/// to the finish cell. One that was left a wall beside a wall stays a wall.
/// One that was left a wall beside a passage trades tiles with that passage,
/// and is then joined to the finish cell if and only if the cell below it
/// is.
pub proof fn lemma_fate_of_the_start(width: nat, height: nat, picks: Seq<int>)
    requires
        3 <= width < usize::MAX,
        3 <= height < usize::MAX,
        picks_fit(width, height, picks),
    ensures
        ({
            let carved = carved_by(width, height, picks).carved();
            let maze = prim_outcome(width, height, picks);
            let start = Point(1, 1);
            let finish = Point((width - 1) as usize, (height - 1) as usize);
            &&& carved[1][1] == Tile::Passage ==> maze == carved && connected(maze, start, finish)
            &&& carved[1][1] == Tile::Wall && carved[1][2] == Tile::Wall ==> maze == carved
                && !connected(maze, start, finish)
            &&& carved[1][1] == Tile::Wall && carved[1][2] == Tile::Passage ==> {
                &&& maze == with_cell(with_cell(carved, 1, 1, Tile::Passage), 2, 1, Tile::Wall)
                &&& connected(maze, start, finish) <==> connected(maze, Point(1, 2), finish)
            }
        }),
{
    lemma_run_is_sound(width, height, picks);
    let st = carved_by(width, height, picks);
    let carved = st.carved();
    let maze = prim_outcome(width, height, picks);
    let start = Point(1, 1);
    let finish = Point((width - 1) as usize, (height - 1) as usize);
    assert(rectangular(carved, width + 1, height + 1)) by {
        reveal(maze_rows);
    }
    assert(carved[1].len() == width + 1);
    if carved[1][1] == Tile::Passage {
        lemma_open_in_maze(st.cells, width, height, start);
        assert(open_cell(carved, start));
    } else if carved[1][2] == Tile::Wall {
        assert(carved[1][1] == Tile::Wall) by {
            reveal(maze_rows);
        }
        if connected(maze, start, finish) {
            lemma_connected_ends_are_open(maze, start, finish);
        }
    } else {
        assert(carved[1][1] == Tile::Wall && carved[1][2] == Tile::Passage) by {
            reveal(maze_rows);
        }
        assert(maze[1][1] == Tile::Passage);
        assert(maze[1][2] == Tile::Wall);
        assert(open_cell(maze, start));
        if connected(maze, Point(1, 2), finish) {
            lemma_connected_by_step(maze, start, Point(1, 2), finish);
        }
        if connected(maze, start, finish) {
            lemma_connected_first_step(maze, start, finish);
            let next = choose|c: Point| adjacent(start, c) && #[trigger] connected(maze, c, finish);
            lemma_connected_ends_are_open(maze, next, finish);
            assert(carved[0][1] == Tile::Wall && carved[1][0] == Tile::Wall) by {
                reveal(maze_rows);
            }
            assert(maze[0].len() == width + 1);
            assert(maze[0][1] == Tile::Wall);
            assert(maze[1][0] == Tile::Wall);
            assert(next == Point(1, 2));
        }
    }
}

} // verus!
