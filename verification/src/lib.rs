//! A robot that walks a generated maze under a pluggable navigation strategy.
//!
//! The crate has two halves. `generation` holds the maze grid and the
//! generators that carve it; `execution` holds the robot, its heading model
//! and the engines that drive a controller tick by tick.

use vstd::prelude::*;

mod chance;
pub mod execution;
pub mod generation;

verus! {

/// A cell position: `Point(x, y)` with `x` counting columns and `y` rows.
#[derive(Debug, Clone, Copy, PartialEq, Eq, Structural)]
pub struct Point(pub usize, pub usize);

impl Point {
    /// The column of the point.
    pub fn get_x(&self) -> (x: usize)
        ensures
            x == self.0,
    {
        self.0
    }

    /// The row of the point.
    pub fn get_y(&self) -> (y: usize)
        ensures
            y == self.1,
    {
        self.1
    }
}

/// The size a generator is asked for, in cells.
#[derive(Debug, Clone, Copy)]
pub struct GeneratorOptions {
    pub width: i32,
    pub height: i32,
}

impl Default for GeneratorOptions {
    fn default() -> (options: Self)
        ensures
            options.width == 30,
            options.height == 30,
    {
        GeneratorOptions { width: 30, height: 30 }
    }
}

} // verus!
