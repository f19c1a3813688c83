//! The robot of the single-threaded controller: it owns its maze.

use vstd::prelude::*;
use crate::Point;
use crate::execution::{
    ahead, rows_left_behind, tile_ahead, tile_seen, try_step, turned, way_is_free,
};
use crate::execution::{private, Facing, Heading, Robot, Tile};
use crate::generation::Maze;

verus! {

pub struct DefaultRobot {
    location: Point,
    target: Point,
    maze: Box<Maze<Tile>>,
    heading: Heading,
    steps: i64,
    collisions: i64,
    runs: i32,
}

/// What a `DefaultRobot` holds: where it stands and where it is to go, the
/// direction it faces, the maze it walks, and its counters.
pub struct RobotState {
    pub location: Point,
    pub goal: Point,
    pub heading: Heading,
    pub maze: Maze<Tile>,
    pub steps: i64,
    pub collisions: i64,
    pub runs: i32,
}

impl View for DefaultRobot {
    type V = RobotState;

    closed spec fn view(&self) -> RobotState {
        RobotState {
            location: self.location,
            goal: self.target,
            heading: self.heading,
            maze: *self.maze,
            steps: self.steps,
            collisions: self.collisions,
            runs: self.runs,
        }
    }
}

impl RobotState {
    /// The state after one advance.
    ///
    /// If the way ahead is free the robot takes the step and counts it;
    /// otherwise it stays and counts a collision. Either way the cell it stood
    /// on is marked as visited.
    pub open spec fn advanced(self, next: RobotState) -> bool {
        &&& next.goal == self.goal
        &&& next.heading == self.heading
        &&& next.runs == self.runs
        &&& next.maze@ == rows_left_behind(self.maze, self.location)
        &&& next.maze.cols() == self.maze.cols()
        &&& next.maze.start_point() == self.maze.start_point()
        &&& next.maze.finish_point() == self.maze.finish_point()
        &&& way_is_free(self.maze, self.location, self.heading) ==> {
            &&& Some(next.location) == ahead(self.location, self.heading)
            &&& next.steps == self.steps + 1
            &&& next.collisions == self.collisions
        }
        &&& !way_is_free(self.maze, self.location, self.heading) ==> {
            &&& next.location == self.location
            &&& next.steps == self.steps
            &&& next.collisions == self.collisions + 1
        }
    }
}

impl DefaultRobot {
    /// The view shows what the robot traits speak of, and a turn changes the
    /// heading alone.
    pub proof fn lemma_view(&self)
        ensures
            self.heading() == self@.heading,
            self.location() == self@.location,
            self.goal() == self@.goal,
            forall|heading: Heading| #[trigger]
                self.turned_to(heading)@ == (RobotState { heading, ..self@ }),
    {
    }
}

impl Default for DefaultRobot {
    /// A robot at `(1, 1)` that faces south, in an empty maze.
    fn default() -> (robot: Self)
        ensures
            robot@.location == Point(1, 1),
            robot@.goal == Point(0, 0),
            robot@.heading == Heading::South,
            robot@.steps == 0,
            robot@.collisions == 0,
            robot@.runs == 0,
            robot@.maze@.len() == 0,
            robot@.maze.cols() == 0,
    {
        DefaultRobot {
            location: Point(1, 1),
            target: Point(0, 0),
            maze: Box::new(Maze::new(0, 0)),
            heading: Heading::South,
            steps: 0,
            collisions: 0,
            runs: 0,
        }
    }
}

impl Robot for DefaultRobot {
    type Tiles = Tile;

    closed spec fn heading(&self) -> Heading {
        self.heading
    }

    closed spec fn location(&self) -> Point {
        self.location
    }

    closed spec fn goal(&self) -> Point {
        self.target
    }

    closed spec fn turned_to(&self, heading: Heading) -> Self {
        DefaultRobot { heading, ..*self }
    }

    proof fn lemma_turned_to(&self, heading: Heading) {
    }

    proof fn lemma_turned_twice(&self, first: Heading, second: Heading) {
    }

    open spec fn keeps_statistics(&self) -> bool {
        true
    }

    /// Look at the relative facing direction and get the tile. Beyond the
    /// edge of the maze the robot sees a wall.
    fn look(&self, face: Facing) -> (tile: Tile)
        ensures
            tile == tile_ahead(self@.maze, self@.location, turned(self@.heading, face)),
    {
        let heading = self.heading.augment_heading(face);
        tile_seen(self.get_maze(), self.get_location(), heading)
    }

    /// Change the robot to face a certain way
    fn face(&mut self, face: Facing) {
        self.set_heading(self.heading.augment_heading(face))
    }

    /// Set the robots absolute heading
    fn set_heading(&mut self, heading: Heading) {
        self.heading = heading
    }

    /// Get the robots current heading
    fn get_heading(&self) -> (heading: Heading) {
        self.heading
    }

    /// Get the location of the robot
    fn get_goal_location(&self) -> (goal: Point) {
        self.target
    }

    /// Get the current location of the robot
    fn get_location(&self) -> (location: Point) {
        self.location
    }

    fn get_runs(&self) -> (runs: i32)
        ensures
            runs == self@.runs,
    {
        self.runs
    }

    fn get_steps(&self) -> (steps: i64)
        ensures
            steps == self@.steps,
    {
        self.steps
    }

    fn get_collisions(&self) -> (collisions: i64)
        ensures
            collisions == self@.collisions,
    {
        self.collisions
    }
}

impl DefaultRobot {
    /// Get the current maze
    pub fn get_maze(&self) -> (maze: &Maze<Tile>)
        ensures
            *maze == self@.maze,
    {
        &*self.maze
    }
}

impl private::Robot for DefaultRobot {
    /// Both counters are below the largest number they can hold.
    open spec fn roadworthy(&self) -> bool {
        self@.steps < i64::MAX && self@.collisions < i64::MAX
    }

    proof fn lemma_turning_keeps_roadworthy(&self, heading: Heading) {
    }

    open spec fn advanced(&self, next: &Self) -> bool {
        self@.advanced(next@)
    }

    open spec fn given(&self, maze: Maze<Tile>, next: &Self) -> bool {
        next@ == (RobotState {
            maze,
            location: maze.start_point(),
            goal: maze.finish_point(),
            ..self@
        })
    }

    /// Set the maze currently being used by the robot. The robot moves to the
    /// start of the maze and aims for its finish.
    fn set_maze(&mut self, maze: Box<Maze<Tile>>) {
        self.maze = maze;
        self.set_target_location(self.maze.get_finish());
        self.set_location(self.maze.get_start());
    }

    /// Set the current location of the robot
    fn set_location(&mut self, loc: Point)
        ensures
            final(self)@ == (RobotState { location: loc, ..old(self)@ }),
    {
        self.location = loc
    }

    open spec fn can_reset(&self) -> bool {
        true
    }

    /// Reset everything
    fn reset(&mut self)
        ensures
            *final(self) == *old(self),
    {
    }

    /// Set where the robots target is
    fn set_target_location(&mut self, loc: Point)
        ensures
            final(self)@ == (RobotState { goal: loc, ..old(self)@ }),
    {
        self.target = loc
    }

    /// Advance the robot on: one step in the direction it faces if the way is
    /// free, a collision if not. Either way the cell it stood on is marked as
    /// visited.
    fn advance(&mut self)
        ensures
            old(self)@.advanced(final(self)@),
    {
        match try_step(&mut *self.maze, self.location, self.heading) {
            Some(new_loc) => {
                self.steps += 1;
                self.set_location(new_loc);
            },
            None => {
                self.collisions += 1;
            },
        }
    }
}

} // verus!
