//! A maze generator that grows passages from the finish cell by a randomised
//! Prim's algorithm, working on the maze's own cells.

use vstd::prelude::*;
use crate::{GeneratorOptions, Point};
use crate::chance::random_below;
use crate::execution::{Tile, TileType};
use crate::generation::{Generator, Maze};
use crate::generation::grid::{filled_rows, put_cell, rectangular, rows_of};
use crate::generation::prim_model::{
    carved_by, complete_run, is_passage, maze_rows, open_start, passages_around, picks_fit,
    prim_outcome, PrimState,
};
use crate::generation::prim_model::{
    lemma_expanded_is_smaller, lemma_expanded_is_sound, lemma_finish_stays_open,
    lemma_seeded_is_sound,
};

verus! {

/// A cell of the generator's working grid.
#[derive(Debug, Clone, Copy, PartialEq, Eq, Structural)]
pub enum CellType {
    Wall,
    Passage,
}

impl TileType for CellType {
    open spec fn blocks(&self) -> bool {
        *self == CellType::Wall
    }

    fn is_wall(&self) -> (wall: bool) {
        match self {
            CellType::Wall => true,
            CellType::Passage => false,
        }
    }
}

/// Simple generator which uses a Randomised Prim's Algorithm to generate passageways and a maze.
///
/// For options `width` x `height` it builds a maze of `width + 1` columns and
/// `height + 1` rows. The working grid covers the columns `1..width` and the
/// rows `1..height` of that maze; everything outside stays wall.
#[derive(Debug)]
pub struct PrimGenerator {
    options: GeneratorOptions,
}

/// The state of one run of the generator, between two steps.
pub struct PrimCarving {
    width: usize,
    height: usize,
    cells: Vec<Vec<CellType>>,
    seen: Vec<Vec<bool>>,
    frontier: Vec<(usize, usize)>,
}

impl View for PrimCarving {
    type V = PrimState;

    closed spec fn view(&self) -> PrimState {
        PrimState {
            width: self.width as nat,
            height: self.height as nat,
            cells: rows_of(self.cells),
            seen: rows_of(self.seen),
            frontier: self.frontier@,
        }
    }
}

/// Whether the cell `(cx, cy)` of the working grid comes before `(x, y)` in
/// row-major order.
spec fn copied(cx: int, cy: int, x: int, y: int) -> bool {
    cy < y || (cy == y && cx < x)
}

/// The maze with the passages of the working grid copied in up to, and
/// without, the cell `(x, y)`.
spec fn partly_copied(cells: Seq<Seq<CellType>>, width: nat, height: nat, x: int, y: int) -> Seq<
    Seq<Tile>,
> {
    Seq::new(
        height + 1,
        |r: int|
            Seq::new(
                width + 1,
                |c: int|
                    if copied(c - 1, r - 1, x, y) && is_passage(cells, c - 1, r - 1) {
                        Tile::Passage
                    } else {
                        Tile::Wall
                    },
            ),
    )
}

/// Swap the tiles of the start cell and its right neighbour where the start
/// cell is wall and the neighbour a passage.
fn open_start_cell(maze: &mut Maze<Tile>)
    ensures
        final(maze)@ == open_start(old(maze)@),
        final(maze).shaped(),
        final(maze).cols() == old(maze).cols(),
        final(maze).start_point() == old(maze).start_point(),
        final(maze).finish_point() == old(maze).finish_point(),
{
    let start_is_wall = match maze.get_cell(Point(1, 1)) {
        Some(Tile::Wall) => true,
        _ => false,
    };
    if start_is_wall {
        let east_is_passage = match maze.get_cell(Point(2, 1)) {
            Some(Tile::Passage) => true,
            _ => false,
        };
        if east_is_passage {
            maze.set_cell(Point(1, 1), Tile::Passage);
            maze.set_cell(Point(2, 1), Tile::Wall);
        }
    }
}

impl PrimCarving {
    /// The state is sound.
    pub open spec fn wf(&self) -> bool {
        self@.sound()
    }

    /// The number of frontier entries that wait to be resolved.
    pub fn frontier_len(&self) -> (len: usize)
        ensures
            len == self@.frontier.len(),
    {
        self.frontier.len()
    }

    /// The frontier, each entry a cell `(x, y)` of the working grid.
    pub fn get_frontier(&self) -> (frontier: &Vec<(usize, usize)>)
        ensures
            frontier@ == self@.frontier,
    {
        &self.frontier
    }

    /// The working grid, top row first.
    pub fn get_cells(&self) -> (cells: &Vec<Vec<CellType>>)
        ensures
            rows_of(*cells) == self@.cells,
    {
        &self.cells
    }

    fn passage_at(cells: &Vec<Vec<CellType>>, x: usize, y: usize) -> (found: bool)
        ensures
            found == is_passage(rows_of(*cells), x as int, y as int),
    {
        match PrimGenerator::grid_get_point(cells, (x, y)).0 {
            Some(CellType::Passage) => true,
            _ => false,
        }
    }

    fn is_fresh(&self, x: usize, y: usize) -> (fresh: bool)
        requires
            rectangular(self@.cells, (self@.width - 1) as nat, (self@.height - 1) as nat),
            rectangular(self@.seen, (self@.width - 1) as nat, (self@.height - 1) as nat),
        ensures
            fresh == self@.fresh_wall(x as int, y as int),
    {
        match PrimGenerator::grid_get_point(&self.cells, (x, y)).0 {
            Some(CellType::Wall) => {
                assert(self@.seen[y as int].len() == self@.cells[y as int].len());
                !self.seen[y][x]
            },
            _ => false,
        }
    }

    /// How many of the four neighbours of `(x, y)` are passages.
    fn count_passages_around(&self, x: usize, y: usize) -> (passages: usize)
        requires
            x < usize::MAX,
            y < usize::MAX,
        ensures
            passages == passages_around(self@.cells, x as int, y as int),
    {
        let above = y > 0 && Self::passage_at(&self.cells, x, y - 1);
        let left = x > 0 && Self::passage_at(&self.cells, x - 1, y);
        let below = Self::passage_at(&self.cells, x, y + 1);
        let right = Self::passage_at(&self.cells, x + 1, y);
        let mut passages: usize = 0;
        if above {
            passages += 1;
        }
        if left {
            passages += 1;
        }
        if below {
            passages += 1;
        }
        if right {
            passages += 1;
        }
        passages
    }

    /// Add the fresh walls among the neighbours of `(x, y)` to the frontier:
    /// above, left, below, right.
    fn push_fresh_around(&mut self, x: usize, y: usize)
        requires
            x < usize::MAX,
            y < usize::MAX,
            rectangular(
                old(self)@.cells,
                (old(self)@.width - 1) as nat,
                (old(self)@.height - 1) as nat,
            ),
            rectangular(
                old(self)@.seen,
                (old(self)@.width - 1) as nat,
                (old(self)@.height - 1) as nat,
            ),
        ensures
            final(self)@ == (PrimState {
                frontier: old(self)@.frontier + old(self)@.fresh_around(x as int, y as int),
                ..old(self)@
            }),
    {
        let ghost st = self@;
        let above = y > 0 && self.is_fresh(x, y - 1);
        let left = x > 0 && self.is_fresh(x - 1, y);
        let below = self.is_fresh(x, y + 1);
        let right = self.is_fresh(x + 1, y);
        let mut fresh: Vec<(usize, usize)> = Vec::new();
        if above {
            fresh.push((x, y - 1));
        }
        assert(fresh@ =~= st.fresh_entry(x as int, y - 1));
        if left {
            fresh.push((x - 1, y));
        }
        assert(fresh@ =~= st.fresh_entry(x as int, y - 1) + st.fresh_entry(x - 1, y as int));
        if below {
            fresh.push((x, y + 1));
        }
        assert(fresh@ =~= st.fresh_entry(x as int, y - 1) + st.fresh_entry(x - 1, y as int)
            + st.fresh_entry(x as int, y + 1));
        if right {
            fresh.push((x + 1, y));
        }
        assert(fresh@ =~= st.fresh_around(x as int, y as int));
        self.frontier.append(&mut fresh);
    }

    /// Take the frontier entry `pick` out and resolve it.
    pub fn expand(&mut self, pick: usize)
        requires
            old(self).wf(),
            pick < old(self)@.frontier.len(),
        ensures
            final(self)@ == old(self)@.expanded(pick as int),
            final(self).wf(),
    {
        let ghost before = self@;
        proof {
            lemma_expanded_is_sound(before, pick as int);
        }
        let (x, y) = self.frontier.swap_remove(pick);
        assert(before.seen[y as int].len() == before.width - 1);
        assert(before.cells[y as int].len() == before.width - 1);
        if self.seen[y][x] {
            return ;
        }
        let passages = self.count_passages_around(x, y);
        put_cell(&mut self.seen, x, y, true);
        if passages == 1 {
            self.push_fresh_around(x, y);
            put_cell(&mut self.cells, x, y, CellType::Passage);
        }
    }

    /// Copy the working grid into a maze, set its start and finish points, and
    /// open its start cell.
    pub fn into_maze(self) -> (maze: Maze<Tile>)
        requires
            self.wf(),
        ensures
            maze@ == open_start(self@.carved()),
            maze.shaped(),
            maze.cols() == self@.width + 1,
            maze@.len() == self@.height + 1,
            maze.start_point() == Point(1, 1),
            maze.finish_point() == self@.finish(),
    {
        let mut maze: Maze<Tile> = Maze::new(self.width + 1, self.height + 1);
        maze.fill(Tile::Wall);
        maze.set_start(Point(1, 1));
        maze.set_finish(Point(self.width - 1, self.height - 1));
        let ghost cells = self@.cells;
        let ghost width = self@.width;
        let ghost height = self@.height;
        proof {
            reveal(maze_rows);
        }
        assert(maze@ =~~= partly_copied(cells, width, height, 0, 0));
        let mut y: usize = 0;
        while y < self.height - 1
            invariant
                self.wf(),
                cells == self@.cells,
                width == self@.width,
                height == self@.height,
                y <= self.height - 1,
                maze@ == partly_copied(cells, width, height, 0, y as int),
                maze.cols() == width + 1,
                maze.start_point() == Point(1, 1),
                maze.finish_point() == self@.finish(),
            decreases self.height - 1 - y,
        {
            let mut x: usize = 0;
            while x < self.width - 1
                invariant
                    self.wf(),
                    cells == self@.cells,
                    width == self@.width,
                    height == self@.height,
                    y < self.height - 1,
                    x <= self.width - 1,
                    maze@ == partly_copied(cells, width, height, x as int, y as int),
                    maze.cols() == width + 1,
                    maze.start_point() == Point(1, 1),
                    maze.finish_point() == self@.finish(),
                decreases self.width - 1 - x,
            {
                if Self::passage_at(&self.cells, x, y) {
                    maze.set_cell(Point(x + 1, y + 1), Tile::Passage);
                }
                assert(maze@ =~~= partly_copied(cells, width, height, x + 1, y as int));
                x += 1;
            }
            assert(maze@ =~~= partly_copied(cells, width, height, 0, y + 1));
            y += 1;
        }
        assert(maze@ =~~= self@.carved());
        open_start_cell(&mut maze);
        maze
    }
}

impl Clone for PrimGenerator {
    fn clone(&self) -> (copy: Self)
        ensures
            copy == *self,
    {
        proof {
            use_type_invariant(self);
        }
        PrimGenerator { options: self.options }
    }
}

impl PrimGenerator {
    #[verifier::type_invariant]
    spec fn large_enough(&self) -> bool {
        self.options.width >= 3 && self.options.height >= 3
    }

    /// The width that the generator is set to.
    pub closed spec fn width(&self) -> nat {
        self.options.width as nat
    }

    /// The height that the generator is set to.
    pub closed spec fn height(&self) -> nat {
        self.options.height as nat
    }

    /// The cell of `grid` at `point`, if there is one, together with the point.
    pub fn grid_get_point(grid: &Vec<Vec<CellType>>, point: (usize, usize)) -> (found: (
        Option<&CellType>,
        (usize, usize),
    ))
        ensures
            found.1 == point,
            point.1 < grid@.len() && point.0 < grid@[point.1 as int]@.len() ==> found.0 == Some(
                &grid@[point.1 as int]@[point.0 as int],
            ),
            !(point.1 < grid@.len() && point.0 < grid@[point.1 as int]@.len()) ==> found.0.is_none(),
    {
        let (x, y) = point;
        if y < grid.len() {
            let row = &grid[y];
            if x < row.len() {
                (Some(&row[x]), (x, y))
            } else {
                (None, (x, y))
            }
        } else {
            (None, (x, y))
        }
    }

    /// Set up a run: a working grid of walls in which the finish cell is a
    /// passage, with the finish cell's left and upper neighbour as frontier.
    pub fn begin(&self) -> (carving: PrimCarving)
        ensures
            carving.wf(),
            carving@ == PrimState::seeded(self.width(), self.height()),
            3 <= self.width() <= i32::MAX,
            3 <= self.height() <= i32::MAX,
    {
        proof {
            use_type_invariant(self);
        }
        let width = self.options.width as usize;
        let height = self.options.height as usize;
        let mut cells = filled_rows(width - 1, height - 1, CellType::Wall);
        let mut seen = filled_rows(width - 1, height - 1, false);
        put_cell(&mut cells, width - 2, height - 2, CellType::Passage);
        put_cell(&mut seen, width - 2, height - 2, true);
        let mut frontier: Vec<(usize, usize)> = Vec::new();
        frontier.push((width - 3, height - 2));
        frontier.push((width - 2, height - 3));
        let carving = PrimCarving { width, height, cells, seen, frontier };
        proof {
            lemma_seeded_is_sound(width as nat, height as nat);
            assert(carving@.frontier =~= PrimState::seeded(width as nat, height as nat).frontier);
        }
        carving
    }
}

impl Generator for PrimGenerator {
    type Options = GeneratorOptions;

    type Tiles = Tile;

    open spec fn ready(&self) -> bool {
        true
    }

    fn new() -> (generator: Self)
        ensures
            generator.width() == 30,
            generator.height() == 30,
    {
        PrimGenerator { options: GeneratorOptions::default() }
    }

    fn get_name(&self) -> (name: &str)
        ensures
            name@ == "Prim Generator"@,
    {
        "Prim Generator"
    }

    open spec fn describes_itself(&self) -> bool {
        true
    }

    fn get_description(&self) -> (description: &str)
        ensures
            description@ == "Generate Mazes with Prim Algorithm"@,
    {
        "Generate Mazes with Prim Algorithm"
    }

    open spec fn has_options(&self) -> bool {
        true
    }

    fn get_options(&self) -> (options: GeneratorOptions)
        ensures
            options.width == self.width(),
            options.height == self.height(),
            options.width >= 3,
            options.height >= 3,
    {
        proof {
            use_type_invariant(self);
        }
        self.options
    }

    /// Takes the options over if both sides are at least 3; otherwise the
    /// generator keeps the options it has.
    fn set_options(&mut self, _options: GeneratorOptions)
        ensures
            _options.width >= 3 && _options.height >= 3 ==> final(self).width() == _options.width
                && final(self).height() == _options.height,
            _options.width < 3 || _options.height < 3 ==> *final(self) == *old(self),
    {
        // Prims grid needs to be at least 3x3, but even then should be much larger to get a better maze
        if _options.width < 3 || _options.height < 3 {
            return ;
        }
        self.options = _options;
    }

    /// Runs the algorithm with picks drawn from the thread's random number
    /// generator.
    fn generate_maze(&mut self) -> (maze: Maze<Tile>)
        ensures
            *final(self) == *old(self),
            maze.shaped(),
            maze.cols() == old(self).width() + 1,
            maze@.len() == old(self).height() + 1,
            maze.start_point() == Point(1, 1),
            maze.finish_point() == Point(
                (old(self).width() - 1) as usize,
                (old(self).height() - 1) as usize,
            ),
            maze.tile_at(maze.finish_point()) == Tile::Passage,
            exists|picks: Seq<int>| #[trigger]
                complete_run(old(self).width(), old(self).height(), picks) && maze@ == prim_outcome(
                    old(self).width(),
                    old(self).height(),
                    picks,
                ),
    {
        let mut carving = self.begin();
        let ghost width = self.width();
        let ghost height = self.height();
        let ghost mut picks: Seq<int> = Seq::empty();
        let mut rng = rand::thread_rng();
        while carving.frontier_len() > 0
            invariant
                carving.wf(),
                picks_fit(width, height, picks),
                carving@ == carved_by(width, height, picks),
                carving@.width == width,
                carving@.height == height,
            decreases carving@.unresolved(), carving@.frontier.len(),
        {
            let len = carving.frontier_len();
            let pick = if len > 1 {
                random_below(&mut rng, len)
            } else {
                0
            };
            proof {
                lemma_expanded_is_smaller(carving@, pick as int);
                assert(picks.push(pick as int).drop_last() =~= picks);
                picks = picks.push(pick as int);
            }
            carving.expand(pick);
        }
        proof {
            assert(complete_run(width, height, picks));
            lemma_finish_stays_open(carving@);
        }
        carving.into_maze()
    }
}

} // verus!
