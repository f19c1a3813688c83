//! The maze grid and the generators that fill it.

use vstd::prelude::*;
use crate::Point;
use crate::execution::TileType;
use crate::generation::grid::{put_cell, rectangular, rows_of, with_cell};

pub mod actual_prim_generator;
pub mod blank_generator;
pub mod frontier;
pub mod gapped_model;
pub mod grid;
pub mod paths;
pub mod prim_generator;
pub mod prim_model;
pub mod tally;

verus! {

/// Something which generates mazes.
pub trait Generator: Sized {
    type Options: Default;

    type Tiles: TileType + Default;

    /// Whether the generator's options describe a maze that it can build.
    spec fn ready(&self) -> bool;

    /// Creates a new generator of this type
    fn new() -> (generator: Self)
        ensures
            generator.ready(),
    ;

    /// Provides the name of the maze generator
    fn get_name(&self) -> &str;

    /// Provides the description of the generator. A generator that has no
    /// description of its own is described as a maze generator.
    fn get_description(&self) -> (description: &str)
        ensures
            !self.describes_itself() ==> description@ == "A maze generator"@,
    {
        "A maze generator"
    }

    /// Generates the maze
    fn generate_maze(&mut self) -> (maze: Maze<Self::Tiles>)
        requires
            old(self).ready(),
        ensures
            final(self).ready(),
    ;

    /// Set the options on this maze
    fn set_options(&mut self, _options: Self::Options) {
    }

    /// Get the options set. A generator that keeps no options hands out the
    /// default options.
    fn get_options(&self) -> (options: Self::Options)
        ensures
            !self.has_options() ==> call_ensures(Self::Options::default, (), options),
    {
        Self::Options::default()
    }

    /// Whether the generator has a description of its own.
    open spec fn describes_itself(&self) -> bool {
        false
    }

    /// Whether the generator keeps the options that it is given.
    open spec fn has_options(&self) -> bool {
        false
    }
}

/// A rectangular grid of tiles with a start and a finish point.
///
/// Rows are stored top to bottom; the cell at `Point(x, y)` is column `x` of
/// row `y`. The start and finish points are carried along and are not checked
/// against the grid. The view of a maze is its sequence of rows.
#[derive(Debug)]
pub struct Maze<T: TileType + Default> {
    width: usize,
    height: usize,
    grid: Vec<Vec<T>>,
    start: Point,
    goal: Point,
}

impl<T: TileType + Default + Clone> Clone for Maze<T> {
    /// A maze of the same size with the same start and finish, each cell a
    /// clone of the cell it stands for.
    fn clone(&self) -> (copy: Self)
        ensures
            self.shaped(),
            copy.shaped(),
            copy.cols() == self.cols(),
            copy@.len() == self@.len(),
            copy.start_point() == self.start_point(),
            copy.finish_point() == self.finish_point(),
            forall|x: int, y: int|
                0 <= x < self.cols() && 0 <= y < self@.len() ==> cloned(
                    self@[y][x],
                    #[trigger] copy@[y][x],
                ),
    {
        proof {
            use_type_invariant(self);
        }
        let mut grid: Vec<Vec<T>> = Vec::new();
        let mut i: usize = 0;
        while i < self.height
            invariant
                rectangular(self@, self.width as nat, self.height as nat),
                i <= self.height,
                grid@.len() == i,
                forall|y: int| 0 <= y < i ==> (#[trigger] grid@[y])@.len() == self.width,
                forall|x: int, y: int|
                    0 <= x < self.width && 0 <= y < i ==> cloned(self@[y][x], #[trigger] grid@[y]@[x]),
            decreases self.height - i,
        {
            let mut row: Vec<T> = Vec::new();
            let mut j: usize = 0;
            assert(self@[i as int].len() == self.width);
            while j < self.width
                invariant
                    i < self.height,
                    self@[i as int].len() == self.width,
                    self@.len() == self.height,
                    j <= self.width,
                    row@.len() == j,
                    forall|x: int| 0 <= x < j ==> cloned(self@[i as int][x], #[trigger] row@[x]),
                decreases self.width - j,
            {
                row.push(self.grid[i][j].clone());
                j += 1;
            }
            grid.push(row);
            i += 1;
        }
        Maze { width: self.width, height: self.height, grid, start: self.start, goal: self.goal }
    }
}

impl<T: TileType + Default> View for Maze<T> {
    type V = Seq<Seq<T>>;

    closed spec fn view(&self) -> Seq<Seq<T>> {
        rows_of(self.grid)
    }
}

impl<T: TileType + Default> Maze<T> {
    #[verifier::type_invariant]
    spec fn well_formed(&self) -> bool {
        rectangular(self@, self.width as nat, self.height as nat)
    }

    /// The number of columns.
    pub closed spec fn cols(&self) -> nat {
        self.width as nat
    }

    /// The start point.
    pub closed spec fn start_point(&self) -> Point {
        self.start
    }

    /// The finish point.
    pub closed spec fn finish_point(&self) -> Point {
        self.goal
    }

    /// The grid has one row per unit of height, each as wide as the maze.
    pub open spec fn shaped(&self) -> bool {
        rectangular(self@, self.cols(), self@.len())
    }

    /// Whether `point` addresses a cell of the grid.
    pub open spec fn in_range(&self, point: Point) -> bool {
        point.0 < self.cols() && point.1 < self@.len()
    }

    /// The tile at `point`, which must be in range.
    pub open spec fn tile_at(&self, point: Point) -> T
        recommends
            self.in_range(point),
    {
        self@[point.1 as int][point.0 as int]
    }

    /// Whether the robot may stand on `point`: it is in range and its tile
    /// does not block.
    pub open spec fn walkable(&self, point: Point) -> bool {
        self.in_range(point) && !self.tile_at(point).blocks()
    }

    /// Create a maze of the given size with every cell set to the default tile.
    pub fn new(width: usize, height: usize) -> (maze: Self)
        ensures
            maze.shaped(),
            maze.cols() == width,
            maze@.len() == height,
            maze.start_point() == Point(0, 0),
            maze.finish_point() == Point(0, 0),
            forall|x: int, y: int|
                0 <= x < width && 0 <= y < height ==> call_ensures(
                    T::default,
                    (),
                    #[trigger] maze@[y][x],
                ),
    {
        let mut grid: Vec<Vec<T>> = Vec::new();
        let mut i: usize = 0;
        while i < height
            invariant
                i <= height,
                grid@.len() == i,
                forall|y: int| 0 <= y < i ==> (#[trigger] grid@[y])@.len() == width,
                forall|x: int, y: int|
                    0 <= x < width && 0 <= y < i ==> call_ensures(
                        T::default,
                        (),
                        #[trigger] grid@[y]@[x],
                    ),
            decreases height - i,
        {
            let mut row: Vec<T> = Vec::new();
            let mut j: usize = 0;
            while j < width
                invariant
                    j <= width,
                    row@.len() == j,
                    forall|x: int| 0 <= x < j ==> call_ensures(T::default, (), #[trigger] row@[x]),
                decreases width - j,
            {
                row.push(T::default());
                j += 1;
            }
            grid.push(row);
            i += 1;
        }
        Maze { width, height, grid, start: Point(0, 0), goal: Point(0, 0) }
    }

    /// Overwrite every cell with a clone of `tile`.
    pub fn fill(&mut self, tile: T) where T: Clone
        ensures
            final(self).shaped(),
            final(self).cols() == old(self).cols(),
            final(self)@.len() == old(self)@.len(),
            final(self).start_point() == old(self).start_point(),
            final(self).finish_point() == old(self).finish_point(),
            forall|x: int, y: int|
                0 <= x < final(self).cols() && 0 <= y < final(self)@.len() ==> cloned(
                    tile,
                    #[trigger] final(self)@[y][x],
                ),
    {
        proof {
            use_type_invariant(&*self);
        }
        let mut i: usize = 0;
        while i < self.height
            invariant
                i <= self.height,
                self.width == old(self).width,
                self.height == old(self).height,
                self.start == old(self).start,
                self.goal == old(self).goal,
                rectangular(self@, self.width as nat, self.height as nat),
                forall|x: int, y: int|
                    0 <= x < self.width && 0 <= y < i ==> cloned(tile, #[trigger] self@[y][x]),
            decreases self.height - i,
        {
            let mut j: usize = 0;
            while j < self.width
                invariant
                    i < self.height,
                    j <= self.width,
                    self.width == old(self).width,
                    self.height == old(self).height,
                    self.start == old(self).start,
                    self.goal == old(self).goal,
                    rectangular(self@, self.width as nat, self.height as nat),
                    forall|x: int, y: int|
                        0 <= x < self.width && 0 <= y < i ==> cloned(tile, #[trigger] self@[y][x]),
                    forall|x: int| 0 <= x < j ==> cloned(tile, #[trigger] self@[i as int][x]),
                decreases self.width - j,
            {
                put_cell(&mut self.grid, j, i, tile.clone());
                j += 1;
            }
            i += 1;
        }
    }

    /// Get the width of the maze
    pub fn get_width(&self) -> (width: usize)
        ensures
            width == self.cols(),
            self.shaped(),
    {
        proof {
            use_type_invariant(self);
        }
        self.width
    }

    /// Get the height of the maze
    pub fn get_height(&self) -> (height: usize)
        ensures
            height == self@.len(),
            self.shaped(),
    {
        proof {
            use_type_invariant(self);
        }
        self.height
    }

    /// Get the cell at the given point, or `None` if the point is outside the grid.
    pub fn get_cell(&self, point: Point) -> (cell: Option<&T>)
        ensures
            self.shaped(),
            self.in_range(point) ==> cell == Some(&self.tile_at(point)),
            !self.in_range(point) ==> cell.is_none(),
    {
        proof {
            use_type_invariant(self);
        }
        if point.get_y() < self.grid.len() {
            let row = &self.grid[point.get_y()];
            if point.get_x() < row.len() {
                Some(&row[point.get_x()])
            } else {
                None
            }
        } else {
            None
        }
    }

    /// Set the cell at the point to a type. A point outside the grid is ignored.
    pub fn set_cell(&mut self, point: Point, typ: T)
        ensures
            final(self).shaped(),
            final(self).cols() == old(self).cols(),
            final(self).start_point() == old(self).start_point(),
            final(self).finish_point() == old(self).finish_point(),
            old(self).in_range(point) ==> final(self)@ == with_cell(
                old(self)@,
                point.0 as int,
                point.1 as int,
                typ,
            ),
            !old(self).in_range(point) ==> final(self)@ == old(self)@,
    {
        proof {
            use_type_invariant(&*self);
        }
        if point.get_y() < self.grid.len() {
            if point.get_x() < self.width {
                assert(self@[point.1 as int].len() == self.width);
                put_cell(&mut self.grid, point.get_x(), point.get_y(), typ);
            }
        }
    }

    /// The rows of the grid, top to bottom.
    pub fn get_grid(&self) -> (grid: &Vec<Vec<T>>)
        ensures
            self.shaped(),
            grid@.len() == self@.len(),
            forall|y: int| 0 <= y < grid@.len() ==> (#[trigger] grid@[y])@ == self@[y],
    {
        proof {
            use_type_invariant(self);
        }
        &self.grid
    }

    /// Whether the robot may stand on `point`.
    pub fn can_move(&self, point: Point) -> (ok: bool)
        ensures
            ok == self.walkable(point),
    {
        match self.get_cell(point) {
            None => false,
            Some(tile) => tile.can_walk(),
        }
    }

    /// Get the start location of the maze
    pub fn get_start(&self) -> (point: Point)
        ensures
            point == self.start_point(),
    {
        self.start
    }

    /// Set the start point of the maze
    pub fn set_start(&mut self, point: Point)
        ensures
            final(self)@ == old(self)@,
            final(self).cols() == old(self).cols(),
            final(self).start_point() == point,
            final(self).finish_point() == old(self).finish_point(),
    {
        proof {
            use_type_invariant(&*self);
        }
        self.start = point
    }

    /// Get the finish point of the maze
    pub fn get_finish(&self) -> (point: Point)
        ensures
            point == self.finish_point(),
    {
        self.goal
    }

    /// Set the finish point of the maze
    pub fn set_finish(&mut self, point: Point)
        ensures
            final(self)@ == old(self)@,
            final(self).cols() == old(self).cols(),
            final(self).start_point() == old(self).start_point(),
            final(self).finish_point() == point,
    {
        proof {
            use_type_invariant(&*self);
        }
        self.goal = point
    }
}

} // verus!
