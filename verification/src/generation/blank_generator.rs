//! An example generator: an empty room with a wall round it.

use vstd::prelude::*;
use crate::Point;
use crate::execution::Tile;
use crate::generation::{Generator, Maze};

verus! {

/// Example Generator which generates nothing
pub struct BlankGenerator;

/// The tile that the blank maze has at column `x` of row `y`: wall on the
/// border of the 20 x 20 grid, passage inside.
pub open spec fn blank_tile(x: int, y: int) -> Tile {
    if x == 0 || y == 0 || x == 19 || y == 19 {
        Tile::Wall
    } else {
        Tile::Passage
    }
}

impl Generator for BlankGenerator {
    type Options = ();

    type Tiles = Tile;

    open spec fn ready(&self) -> bool {
        true
    }

    fn new() -> (generator: Self) {
        BlankGenerator {  }
    }

    fn get_name(&self) -> (name: &str)
        ensures
            name@ == "Blank Generator"@,
    {
        "Blank Generator"
    }

    fn generate_maze(&mut self) -> (maze: Maze<Tile>)
        ensures
            maze.shaped(),
            maze.cols() == 20,
            maze@.len() == 20,
            maze.start_point() == Point(1, 1),
            maze.finish_point() == Point(18, 18),
            forall|x: int, y: int|
                0 <= x < 20 && 0 <= y < 20 ==> #[trigger] maze@[y][x] == blank_tile(x, y),
    {
        let mut maze: Maze<Tile> = Maze::new(20, 20);
        maze.set_start(Point(1, 1));
        maze.set_finish(Point(18, 18));
        let height = maze.get_height();
        let width = maze.get_width();
        let mut i: usize = 0;
        while i < height
            invariant
                height == 20,
                width == 20,
                i <= height,
                maze.shaped(),
                maze.cols() == 20,
                maze@.len() == 20,
                maze.start_point() == Point(1, 1),
                maze.finish_point() == Point(18, 18),
                forall|x: int, y: int|
                    0 <= x < i && 0 <= y < 20 ==> #[trigger] maze@[y][x] == blank_tile(x, y),
            decreases height - i,
        {
            let mut j: usize = 0;
            while j < width
                invariant
                    height == 20,
                    width == 20,
                    i < height,
                    j <= width,
                    maze.shaped(),
                    maze.cols() == 20,
                    maze@.len() == 20,
                    maze.start_point() == Point(1, 1),
                    maze.finish_point() == Point(18, 18),
                    forall|x: int, y: int|
                        0 <= x < i && 0 <= y < 20 ==> #[trigger] maze@[y][x] == blank_tile(x, y),
                    forall|y: int| 0 <= y < j ==> #[trigger] maze@[y][i as int] == blank_tile(i as int, y),
                decreases width - j,
            {
                if i == 0 || j == 0 || i == height - 1 || j == height - 1 {
                    maze.set_cell(Point(i, j), Tile::Wall);
                } else {
                    maze.set_cell(Point(i, j), Tile::Passage);
                }
                j += 1;
            }
            i += 1;
        }
        maze
    }
}

} // verus!
