//! A maze generator that runs a randomised Prim's algorithm on a grid of
//! twice the resolution: rooms sit at odd coordinates, the cells between two
//! rooms connect them, and corridors are one cell wide.

use vstd::prelude::*;
use crate::{GeneratorOptions, Point};
use crate::chance::random_below;
use crate::execution::{Tile, TileType};
use crate::generation::{Generator, Maze};
use crate::generation::grid::{filled_rows, put_cell, rows_of, with_cell};
use crate::generation::gapped_model::{
    grown_by, linked_grid, midpoint, opened_at, steps_fit, tiles_of, two_apart, two_gapped, east,
    north, west, GappedState,
};
use crate::generation::gapped_model::{
    lemma_around_entry, lemma_expanded_is_smaller, lemma_expanded_is_sound, lemma_gap_in_grid,
    lemma_maze_of_sound_state, lemma_opening_keeps_around, lemma_rooms_are_joined,
    lemma_seeded_is_sound,
};
use crate::generation::paths::connected;

verus! {

/// A cell of the generator's working grid.
#[derive(Debug, Clone, Copy, PartialEq, Eq, Structural)]
pub enum GridCell {
    Passage,
    Wall,
}

impl TileType for GridCell {
    open spec fn blocks(&self) -> bool {
        *self == GridCell::Wall
    }

    fn is_wall(&self) -> (wall: bool) {
        match self {
            GridCell::Wall => true,
            GridCell::Passage => false,
        }
    }
}

/// A maze generator on a grid of rooms and the gaps between them.
///
/// For options `width` x `height` it works on a grid of `2 * width + 1`
/// columns and `2 * height + 1` rows, which it keeps between runs together
/// with the frontier of the run.
pub struct GappedPrimGenerator {
    options: GeneratorOptions,
    grid: Vec<Vec<GridCell>>,
    frontier: Vec<Point>,
}

impl View for GappedPrimGenerator {
    type V = GappedState;

    closed spec fn view(&self) -> GappedState {
        GappedState {
            width: if self.options.width > 0 {
                self.options.width as nat
            } else {
                0
            },
            height: if self.options.height > 0 {
                self.options.height as nat
            } else {
                0
            },
            grid: rows_of(self.grid),
            frontier: self.frontier@,
        }
    }
}

impl GappedPrimGenerator {
    /// The options that the generator is set to.
    pub closed spec fn options(&self) -> GeneratorOptions {
        self.options
    }

    /// The view follows the options: a side that is not positive counts as
    /// zero rooms.
    pub proof fn lemma_view_follows_options(&self)
        ensures
            self.options().width > 0 ==> self@.width == self.options().width,
            self.options().width <= 0 ==> self@.width == 0,
            self.options().height > 0 ==> self@.height == self.options().height,
            self.options().height <= 0 ==> self@.height == 0,
    {
    }

    /// The cell of the working grid at `point`.
    pub fn get_grid(&self, point: Point) -> (cell: GridCell)
        requires
            point.1 < self@.grid.len(),
            point.0 < self@.grid[point.1 as int].len(),
        ensures
            cell == self@.grid[point.1 as int][point.0 as int],
    {
        self.grid[point.get_y()][point.get_x()]
    }

    /// The number of columns of the working grid.
    pub fn get_real_width(&self) -> (width: usize)
        requires
            self.options().width >= 0,
        ensures
            width == self@.real_width(),
    {
        self.get_options().width as usize * 2 + 1
    }

    /// The number of rows of the working grid.
    pub fn get_real_height(&self) -> (height: usize)
        requires
            self.options().height >= 0,
        ensures
            height == self@.real_height(),
    {
        self.get_options().height as usize * 2 + 1
    }

    /// Whether `point` lies inside the border of the working grid.
    pub fn is_point_legal(&self, point: Point) -> (legal: bool)
        requires
            self.options().width >= 0,
            self.options().height >= 0,
        ensures
            legal == self@.legal(point),
    {
        point.get_x() > 0 && point.get_x() < self.get_real_width() - 1 && point.get_y() > 0
            && point.get_y() < self.get_real_height() - 1
    }

    /// The four points at distance two from `point` along one axis. Going
    /// left or up from a coordinate below two wraps round.
    pub fn get_two_gapped_cells(&self, point: Point) -> (cells: Vec<Point>)
        requires
            point.0 + 2 <= usize::MAX,
            point.1 + 2 <= usize::MAX,
        ensures
            cells@ == two_gapped(point),
    {
        let Point(x, y) = point;
        let mut cells: Vec<Point> = Vec::new();
        cells.push(Point(x.wrapping_sub(2), y));
        cells.push(Point(x + 2, y));
        cells.push(Point(x, y.wrapping_sub(2)));
        cells.push(Point(x, y + 2));
        assert(cells@ =~= two_gapped(point));
        cells
    }

    /// The legal points of the given kind among the four points two away from
    /// `point`.
    fn get_cells_around_point(&self, point: Point, kind: GridCell) -> (cells: Vec<Point>)
        requires
            self.options().width >= 0,
            self.options().height >= 0,
            self@.built(),
            point.0 + 2 <= usize::MAX,
            point.1 + 2 <= usize::MAX,
        ensures
            cells@ == self@.around(point, kind),
    {
        let candidates = self.get_two_gapped_cells(point);
        let mut cells: Vec<Point> = Vec::new();
        let ghost st = self@;
        if self.is_of_kind(candidates[0], kind) {
            cells.push(candidates[0]);
        }
        assert(cells@ =~= st.entry(west(point), kind));
        if self.is_of_kind(candidates[1], kind) {
            cells.push(candidates[1]);
        }
        assert(cells@ =~= st.entry(west(point), kind) + st.entry(east(point), kind));
        if self.is_of_kind(candidates[2], kind) {
            cells.push(candidates[2]);
        }
        assert(cells@ =~= st.entry(west(point), kind) + st.entry(east(point), kind) + st.entry(
            north(point),
            kind,
        ));
        if self.is_of_kind(candidates[3], kind) {
            cells.push(candidates[3]);
        }
        assert(cells@ =~= st.around(point, kind));
        cells
    }

    fn is_of_kind(&self, point: Point, kind: GridCell) -> (found: bool)
        requires
            self.options().width >= 0,
            self.options().height >= 0,
            self@.built(),
        ensures
            found == self@.holds(point, kind),
    {
        if self.is_point_legal(point) {
            assert(self@.grid[point.1 as int].len() == self@.real_width());
            self.get_grid(point) == kind
        } else {
            false
        }
    }

    /// The walls among the legal points two away from `point`.
    pub fn get_frontier_around_point(&self, point: Point) -> (cells: Vec<Point>)
        requires
            self.options().width >= 0,
            self.options().height >= 0,
            self@.built(),
            point.0 + 2 <= usize::MAX,
            point.1 + 2 <= usize::MAX,
        ensures
            cells@ == self@.around(point, GridCell::Wall),
    {
        self.get_cells_around_point(point, GridCell::Wall)
    }

    /// The passages among the legal points two away from `point`.
    pub fn get_neighbours_around_point(&self, point: Point) -> (cells: Vec<Point>)
        requires
            self.options().width >= 0,
            self.options().height >= 0,
            self@.built(),
            point.0 + 2 <= usize::MAX,
            point.1 + 2 <= usize::MAX,
        ensures
            cells@ == self@.around(point, GridCell::Passage),
    {
        self.get_cells_around_point(point, GridCell::Passage)
    }

    /// The point between two points that differ by two along one axis.
    pub fn point_between(&self, point_a: Point, point_b: Point) -> (between: Point)
        requires
            two_apart(point_a, point_b),
        ensures
            between == midpoint(point_a, point_b),
    {
        let Point(xa, ya) = point_a;
        let Point(xb, yb) = point_b;
        let x = if xb == xa {
            xa
        } else if xb > xa {
            1 + xa
        } else {
            xa - 1
        };
        let y = if yb == ya {
            ya
        } else if yb > ya {
            1 + ya
        } else {
            ya - 1
        };
        Point(x, y)
    }

    /// Open the cell between `point` and the passage at index `choice` among
    /// the passages two away from it.
    pub fn connect_chosen_neighbour(&mut self, point: Point, choice: usize)
        requires
            old(self).options().width >= 0,
            old(self).options().height >= 0,
            old(self)@.built(),
            point.0 + 2 <= usize::MAX,
            point.1 + 2 <= usize::MAX,
            choice < old(self)@.around(point, GridCell::Passage).len(),
        ensures
            final(self).options() == old(self).options(),
            final(self)@.frontier == old(self)@.frontier,
            final(self)@.grid == with_cell(
                old(self)@.grid,
                midpoint(point, old(self)@.around(point, GridCell::Passage)[choice as int]).0 as int,
                midpoint(point, old(self)@.around(point, GridCell::Passage)[choice as int]).1 as int,
                GridCell::Passage,
            ),
    {
        let neighbours = self.get_neighbours_around_point(point);
        let neighbour = neighbours[choice];
        proof {
            lemma_around_entry(self@, point, GridCell::Passage, choice as int);
            lemma_gap_in_grid(self@, point, neighbour);
        }
        let Point(x, y) = self.point_between(point, neighbour);
        assert(self@.grid[y as int].len() == self@.real_width());
        put_cell(&mut self.grid, x, y, GridCell::Passage);
    }

    /// Open the cell between `point` and one of the passages two away from
    /// it, drawn from the thread's random number generator. Where there is no
    /// such passage, nothing changes.
    pub fn connect_random_neighbour(&mut self, point: Point)
        requires
            old(self).options().width >= 0,
            old(self).options().height >= 0,
            old(self)@.built(),
            point.0 + 2 <= usize::MAX,
            point.1 + 2 <= usize::MAX,
        ensures
            final(self).options() == old(self).options(),
            final(self)@.frontier == old(self)@.frontier,
            old(self)@.around(point, GridCell::Passage).len() == 0 ==> final(self)@.grid == old(self)@.grid,
            old(self)@.around(point, GridCell::Passage).len() > 0 ==> exists|choice: int|
                0 <= choice < old(self)@.around(point, GridCell::Passage).len() && final(self)@.grid
                    == #[trigger] linked_grid(old(self)@, point, choice),
    {
        let neighbours = self.get_neighbours_around_point(point);
        if neighbours.len() == 0 {
            return ;
        }
        let picked_index = if neighbours.len() > 1 {
            let mut rng = rand::thread_rng();
            random_below(&mut rng, neighbours.len())
        } else {
            0
        };
        self.connect_chosen_neighbour(point, picked_index);
        assert(self@.grid == linked_grid(old(self)@, point, picked_index as int));
    }

    /// The frontier of the run, each entry a room of the working grid.
    pub fn get_frontier(&self) -> (frontier: &Vec<Point>)
        ensures
            frontier@ == self@.frontier,
    {
        &self.frontier
    }

    /// Set up a run: a working grid of walls in which the origin is a passage
    /// and the only frontier entry.
    pub fn begin(&mut self)
        requires
            old(self).ready(),
        ensures
            final(self).options() == old(self).options(),
            final(self)@ == GappedState::seeded(old(self)@.width, old(self)@.height),
            final(self)@.sound(),
    {
        let width = self.get_real_width();
        let height = self.get_real_height();
        self.grid = filled_rows(width, height, GridCell::Wall);
        put_cell(&mut self.grid, 1, 1, GridCell::Passage);
        self.frontier = Vec::new();
        self.frontier.push(Point(1, 1));
        proof {
            lemma_seeded_is_sound(self@.width, self@.height);
            assert(self@.frontier =~= GappedState::seeded(self@.width, self@.height).frontier);
        }
    }

    /// Take the frontier entry `pick` out and open its room. Returns the room
    /// and the walls two away from it.
    fn open_pick(&mut self, pick: usize) -> (opened: (Point, Vec<Point>))
        requires
            old(self).ready(),
            old(self)@.sound(),
            pick < old(self)@.frontier.len(),
        ensures
            final(self).options() == old(self).options(),
            final(self)@ == opened_at(old(self)@, pick as int),
            final(self)@.built(),
            opened.0 == old(self)@.frontier[pick as int],
            opened.1@ == final(self)@.around(opened.0, GridCell::Wall),
            opened.0.0 + 2 <= usize::MAX,
            opened.0.1 + 2 <= usize::MAX,
    {
        let point = self.frontier.swap_remove(pick);
        assert(old(self)@.is_room(point));
        assert(self@.grid[point.1 as int].len() == self@.real_width());
        put_cell(&mut self.grid, point.0, point.1, GridCell::Passage);
        let around = self.get_frontier_around_point(point);
        (point, around)
    }

    /// Take the frontier entry `pick` out, open its room, and link it to the
    /// passage at index `choice` among the passages two away from it.
    pub fn expand(&mut self, pick: usize, choice: usize)
        requires
            old(self).ready(),
            old(self)@.sound(),
            pick < old(self)@.frontier.len(),
            old(self)@.choice_fits(pick as int, choice as int),
        ensures
            final(self).options() == old(self).options(),
            final(self)@ == old(self)@.expanded(pick as int, choice as int),
            final(self)@.sound(),
    {
        proof {
            lemma_expanded_is_sound(self@, pick as int, choice as int);
            lemma_opening_keeps_around(self@, pick as int, GridCell::Passage);
        }
        let (point, mut around) = self.open_pick(pick);
        let linked = self.get_neighbours_around_point(point);
        if linked.len() > 0 {
            self.connect_chosen_neighbour(point, choice);
        }
        self.frontier.append(&mut around);
    }

    /// Copy the working grid into a maze, cell by cell.
    pub fn to_maze(&self) -> (maze: Maze<Tile>)
        requires
            self.options().width >= 0,
            self.options().height >= 0,
            self@.built(),
        ensures
            maze@ == tiles_of(self@.grid),
            maze.shaped(),
            maze.cols() == self@.real_width(),
            maze@.len() == self@.real_height(),
            maze.start_point() == Point(0, 0),
            maze.finish_point() == Point(0, 0),
    {
        let width = self.get_real_width();
        let height = self.get_real_height();
        let mut maze: Maze<Tile> = Maze::new(width, height);
        let ghost grid = self@.grid;
        let mut y: usize = 0;
        while y < height
            invariant
                self@.built(),
                grid == self@.grid,
                width == self@.real_width(),
                height == self@.real_height(),
                y <= height,
                maze.shaped(),
                maze.cols() == width,
                maze@.len() == height,
                maze.start_point() == Point(0, 0),
                maze.finish_point() == Point(0, 0),
                forall|r: int, c: int|
                    0 <= r < y && 0 <= c < width ==> #[trigger] maze@[r][c] == tiles_of(grid)[r][c],
            decreases height - y,
        {
            let mut x: usize = 0;
            while x < width
                invariant
                    self@.built(),
                    grid == self@.grid,
                    width == self@.real_width(),
                    height == self@.real_height(),
                    y < height,
                    x <= width,
                    maze.shaped(),
                    maze.cols() == width,
                    maze@.len() == height,
                    maze.start_point() == Point(0, 0),
                    maze.finish_point() == Point(0, 0),
                    forall|r: int, c: int|
                        0 <= r < y && 0 <= c < width ==> #[trigger] maze@[r][c] == tiles_of(
                            grid,
                        )[r][c],
                    forall|c: int|
                        0 <= c < x ==> #[trigger] maze@[y as int][c] == tiles_of(grid)[y as int][c],
                decreases width - x,
            {
                assert(grid[y as int].len() == width);
                let tile = match self.get_grid(Point(x, y)) {
                    GridCell::Passage => Tile::Passage,
                    GridCell::Wall => Tile::Wall,
                };
                maze.set_cell(Point(x, y), tile);
                x += 1;
            }
            y += 1;
        }
        assert(maze@ =~~= tiles_of(grid));
        maze
    }
}

impl Generator for GappedPrimGenerator {
    type Options = GeneratorOptions;

    type Tiles = Tile;

    /// Both sides of the options are positive.
    open spec fn ready(&self) -> bool {
        self.options().width >= 1 && self.options().height >= 1
    }

    fn new() -> (generator: Self)
        ensures
            generator.options().width == 30,
            generator.options().height == 30,
            generator@.grid.len() == 0,
            generator@.frontier.len() == 0,
    {
        GappedPrimGenerator {
            options: GeneratorOptions::default(),
            grid: Vec::new(),
            frontier: Vec::new(),
        }
    }

    fn get_name(&self) -> (name: &str)
        ensures
            name@ == "Prim Generator"@,
    {
        "Prim Generator"
    }

    fn set_options(&mut self, _options: GeneratorOptions)
        ensures
            final(self).options() == _options,
            final(self)@.grid == old(self)@.grid,
            final(self)@.frontier == old(self)@.frontier,
    {
        self.options = _options;
    }

    fn get_options(&self) -> (options: GeneratorOptions)
        ensures
            options == self.options(),
    {
        self.options
    }

    open spec fn has_options(&self) -> bool {
        true
    }

    /// Runs the algorithm with picks drawn from the thread's random number
    /// generator. The start and the finish point of the maze are left at
    /// `(0, 0)` for the caller to set.
    fn generate_maze(&mut self) -> (maze: Maze<Tile>)
        ensures
            final(self).options() == old(self).options(),
            final(self)@.sound(),
            final(self)@.frontier.len() == 0,
            exists|steps: Seq<(int, int)>| #[trigger]
                steps_fit(old(self)@.width, old(self)@.height, steps) && final(self)@ == grown_by(
                    old(self)@.width,
                    old(self)@.height,
                    steps,
                ),
            maze@ == tiles_of(final(self)@.grid),
            maze.shaped(),
            maze.cols() == 2 * old(self)@.width + 1,
            maze@.len() == 2 * old(self)@.height + 1,
            maze.start_point() == Point(0, 0),
            maze.finish_point() == Point(0, 0),
            forall|x: int, y: int|
                0 <= x < maze.cols() && 0 <= y < maze@.len() && (x == 0 || y == 0 || x == maze.cols()
                    - 1 || y == maze@.len() - 1) ==> #[trigger] maze@[y][x] == Tile::Wall,
            forall|room: Point|
                final(self)@.is_room(room) ==> #[trigger] maze.tile_at(room) == Tile::Passage,
            forall|a: Point, b: Point|
                maze.walkable(a) && maze.walkable(b) ==> #[trigger] connected(maze@, a, b),
    {
        self.begin();
        let ghost width = self@.width;
        let ghost height = self@.height;
        let ghost mut steps: Seq<(int, int)> = Seq::empty();
        let mut rng = rand::thread_rng();
        while self.frontier.len() > 0
            invariant
                self.ready(),
                self.options() == old(self).options(),
                self@.sound(),
                self@.width == width,
                self@.height == height,
                steps_fit(width, height, steps),
                self@ == grown_by(width, height, steps),
            decreases self@.walls(), self@.stale(),
        {
            let ghost before = self@;
            let random_index = random_below(&mut rng, self.frontier.len());
            let (point, mut around) = self.open_pick(random_index);
            let ghost opened = self@;
            self.connect_random_neighbour(point);
            self.frontier.append(&mut around);
            proof {
                let pick = random_index as int;
                lemma_opening_keeps_around(before, pick, GridCell::Passage);
                let linked = opened.around(point, GridCell::Passage);
                let choice = if linked.len() == 0 {
                    0
                } else {
                    choose|choice: int|
                        0 <= choice < linked.len() && self@.grid == #[trigger] linked_grid(
                            opened,
                            point,
                            choice,
                        )
                };
                assert(before.choice_fits(pick, choice));
                assert(self@ == before.expanded(pick, choice));
                lemma_expanded_is_sound(before, pick, choice);
                lemma_expanded_is_smaller(before, pick, choice);
                assert(steps.push((pick, choice)).drop_last() =~= steps);
                steps = steps.push((pick, choice));
            }
        }
        proof {
            let st = self@;
            lemma_maze_of_sound_state(st);
            assert forall|room: Point| st.is_room(room) implies tiles_of(
                st.grid,
            )[room.1 as int][room.0 as int] == Tile::Passage by {
                lemma_rooms_are_joined(st, room, room);
            }
        }
        self.to_maze()
    }
}

} // verus!
