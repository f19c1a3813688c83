//! The robot of the threaded controller: its maze lies behind a lock that
//! other threads may read.

use vstd::prelude::*;
use std::sync::{Arc, RwLock};
use crate::Point;
use crate::execution::{ahead, tile_ahead, tile_seen, try_step, turned, way_is_free};
use crate::execution::{private, Facing, Heading, Robot, Tile};
use crate::execution::shared::{new_lock, read_locked, write_locked};
use crate::generation::Maze;

verus! {

pub struct ThreadedRobot {
    location: Point,
    target_loc: Point,
    heading: Heading,
    maze: Arc<RwLock<Maze<Tile>>>,
    steps: i64,
    collisions: i64,
    runs: i32,
}

/// What a `ThreadedRobot` holds of its own. The maze is shared and no part
/// of it.
pub struct ThreadedRobotState {
    pub location: Point,
    pub goal: Point,
    pub heading: Heading,
    pub steps: i64,
    pub collisions: i64,
    pub runs: i32,
}

impl View for ThreadedRobot {
    type V = ThreadedRobotState;

    closed spec fn view(&self) -> ThreadedRobotState {
        ThreadedRobotState {
            location: self.location,
            goal: self.target_loc,
            heading: self.heading,
            steps: self.steps,
            collisions: self.collisions,
            runs: self.runs,
        }
    }
}

impl ThreadedRobotState {
    /// Whether `next` is this state after one advance in the maze `maze`: one
    /// step ahead, counted, if the way is free, and a collision if not. The
    /// robot aims for the finish of the maze that it advances in.
    pub open spec fn advanced_in(self, maze: Maze<Tile>, next: ThreadedRobotState) -> bool {
        &&& next.goal == maze.finish_point()
        &&& next.heading == self.heading
        &&& next.runs == self.runs
        &&& way_is_free(maze, self.location, self.heading) ==> {
            &&& Some(next.location) == ahead(self.location, self.heading)
            &&& next.steps == self.steps + 1
            &&& next.collisions == self.collisions
        }
        &&& !way_is_free(maze, self.location, self.heading) ==> {
            &&& next.location == self.location
            &&& next.steps == self.steps
            &&& next.collisions == self.collisions + 1
        }
    }
}

impl ThreadedRobot {
    /// The lock that guards the robot's maze.
    pub closed spec fn shared_maze(&self) -> Arc<RwLock<Maze<Tile>>> {
        self.maze
    }

    /// A second handle to the robot's maze.
    pub fn get_maze(&self) -> (maze: Arc<RwLock<Maze<Tile>>>)
        ensures
            maze == self.shared_maze(),
    {
        self.maze.clone()
    }

    /// Make `maze` the robot's maze. The robot moves to the start of the maze
    /// as it is when the call reads it, and aims for its finish.
    pub(crate) fn set_maze(&mut self, maze: Arc<RwLock<Maze<Tile>>>)
        ensures
            final(self).shared_maze() == maze,
            final(self)@.heading == old(self)@.heading,
            final(self)@.steps == old(self)@.steps,
            final(self)@.collisions == old(self)@.collisions,
            final(self)@.runs == old(self)@.runs,
    {
        let snapshot = read_locked(&*maze);
        self.place_in(&snapshot);
        self.maze = maze;
    }

    /// Move the robot to the start of `maze` and aim it for the finish.
    pub fn place_in(&mut self, maze: &Maze<Tile>)
        ensures
            final(self)@ == (ThreadedRobotState {
                location: maze.start_point(),
                goal: maze.finish_point(),
                ..old(self)@
            }),
            final(self).shared_maze() == old(self).shared_maze(),
    {
        self.location = maze.get_start();
        self.target_loc = maze.get_finish();
    }

    /// Begin another run in `maze`: the robot goes back to the start of the
    /// maze and aims for its finish, one more run is counted, and the steps
    /// and collisions start from zero again.
    pub fn reset_in(&mut self, maze: &Maze<Tile>)
        requires
            old(self)@.runs < i32::MAX,
        ensures
            final(self)@ == (ThreadedRobotState {
                location: maze.start_point(),
                goal: maze.finish_point(),
                heading: old(self)@.heading,
                steps: 0,
                collisions: 0,
                runs: (old(self)@.runs + 1) as i32,
            }),
            final(self).shared_maze() == old(self).shared_maze(),
    {
        self.place_in(maze);
        self.runs += 1;
        self.steps = 0;
        self.collisions = 0;
    }

    /// Advance the robot in `maze`: one step in the direction it faces if the
    /// way is free, a collision if not. Either way the cell it stood on is
    /// marked as visited, and the robot aims for the finish of `maze` from
    /// now on.
    pub fn advance_in(&mut self, maze: &mut Maze<Tile>)
        requires
            old(self)@.steps < i64::MAX,
            old(self)@.collisions < i64::MAX,
        ensures
            old(self)@.advanced_in(*old(maze), final(self)@),
            final(self).shared_maze() == old(self).shared_maze(),
            final(maze)@ == crate::execution::rows_left_behind(*old(maze), old(self)@.location),
            final(maze).shaped(),
            final(maze).cols() == old(maze).cols(),
            final(maze).start_point() == old(maze).start_point(),
            final(maze).finish_point() == old(maze).finish_point(),
    {
        self.target_loc = maze.get_finish();
        match try_step(maze, self.location, self.heading) {
            Some(new_loc) => {
                self.steps += 1;
                self.location = new_loc;
            },
            None => {
                self.collisions += 1;
            },
        }
    }
}

impl Default for ThreadedRobot {
    /// A robot at `(1, 1)` that faces east, in a maze of 15 x 15 passages of
    /// its own. It aims for the finish of that maze, `(0, 0)`.
    fn default() -> (robot: Self)
        ensures
            robot@ == (ThreadedRobotState {
                location: Point(1, 1),
                goal: Point(0, 0),
                heading: Heading::East,
                steps: 0,
                collisions: 0,
                runs: 0,
            }),
    {
        let maze: Maze<Tile> = Maze::new(15, 15);
        Self {
            location: Point(1, 1),
            target_loc: maze.get_finish(),
            heading: Heading::East,
            maze: Arc::new(new_lock(maze)),
            steps: 0,
            collisions: 0,
            runs: 0,
        }
    }
}

impl Robot for ThreadedRobot {
    type Tiles = Tile;

    closed spec fn heading(&self) -> Heading {
        self.heading
    }

    closed spec fn location(&self) -> Point {
        self.location
    }

    closed spec fn goal(&self) -> Point {
        self.target_loc
    }

    closed spec fn turned_to(&self, heading: Heading) -> Self {
        ThreadedRobot { heading, ..*self }
    }

    proof fn lemma_turned_to(&self, heading: Heading) {
    }

    proof fn lemma_turned_twice(&self, first: Heading, second: Heading) {
    }

    open spec fn keeps_statistics(&self) -> bool {
        true
    }

    fn face(&mut self, face: Facing) {
        self.set_heading(self.heading.augment_heading(face))
    }

    /// Look at the relative facing direction and get the tile, in the maze as
    /// it is when the call reads it: the tile one step away in that maze, or
    /// a wall where that step leaves it.
    fn look(&self, face: Facing) -> (tile: Tile)
        ensures
            exists|maze: Maze<Tile>| #[trigger]
                tile_ahead(maze, self@.location, turned(self@.heading, face)) == tile,
    {
        let heading = self.heading.augment_heading(face);
        let maze = read_locked(&*self.maze);
        let tile = tile_seen(&maze, self.get_location(), heading);
        assert(tile_ahead(maze, self@.location, turned(self@.heading, face)) == tile);
        tile
    }

    fn get_runs(&self) -> (runs: i32)
        ensures
            runs == self@.runs,
    {
        self.runs
    }

    fn get_steps(&self) -> (steps: i64)
        ensures
            steps == self@.steps,
    {
        self.steps
    }

    fn get_collisions(&self) -> (collisions: i64)
        ensures
            collisions == self@.collisions,
    {
        self.collisions
    }

    /// Set the robots absolute heading
    fn set_heading(&mut self, heading: Heading) {
        self.heading = heading
    }

    /// Get the robots current heading
    fn get_heading(&self) -> (heading: Heading) {
        self.heading
    }

    /// Get the location that the robot aims for: the finish of its maze, as
    /// it was when the robot was given the maze or last advanced in it.
    fn get_goal_location(&self) -> (goal: Point) {
        self.target_loc
    }

    /// Get the current location of the robot
    fn get_location(&self) -> (location: Point) {
        self.location
    }
}

impl ThreadedRobot {
    /// The view shows what the robot traits speak of, and a turn changes the
    /// heading alone.
    pub proof fn lemma_view(&self)
        ensures
            self.heading() == self@.heading,
            self.location() == self@.location,
            self.goal() == self@.goal,
            forall|heading: Heading| #[trigger]
                self.turned_to(heading)@ == (ThreadedRobotState { heading, ..self@ }),
            forall|heading: Heading| #[trigger]
                self.turned_to(heading).shared_maze() == self.shared_maze(),
    {
    }
}

impl private::Robot for ThreadedRobot {
    /// Both counters are below the largest number they can hold.
    open spec fn roadworthy(&self) -> bool {
        self@.steps < i64::MAX && self@.collisions < i64::MAX
    }

    proof fn lemma_turning_keeps_roadworthy(&self, heading: Heading) {
    }

    /// There is a maze in which `next` is this robot after one advance.
    open spec fn advanced(&self, next: &Self) -> bool {
        &&& next.shared_maze() == self.shared_maze()
        &&& exists|maze: Maze<Tile>| #[trigger] self@.advanced_in(maze, next@)
    }

    /// The run counter can count one more run.
    open spec fn can_reset(&self) -> bool {
        self@.runs < i32::MAX
    }

    open spec fn given(&self, maze: Maze<Tile>, next: &Self) -> bool {
        next@ == (ThreadedRobotState {
            location: maze.start_point(),
            goal: maze.finish_point(),
            ..self@
        })
    }

    /// Set the maze currently being used by the robot: the robot gets a lock
    /// of its own round `maze`, moves to its start and aims for its finish.
    fn set_maze(&mut self, maze: Box<Maze<Tile>>) {
        self.place_in(&*maze);
        self.maze = Arc::new(new_lock(*maze));
    }

    /// Set the current location of the robot
    fn set_location(&mut self, loc: Point)
        ensures
            final(self)@ == (ThreadedRobotState { location: loc, ..old(self)@ }),
            final(self).shared_maze() == old(self).shared_maze(),
    {
        self.location = loc
    }

    /// Reset everything: the robot goes back to the start of the maze, as the
    /// maze is when the call reads it, and aims for its finish; one more run
    /// is counted, and the steps and collisions start from zero again.
    fn reset(&mut self)
        ensures
            final(self)@.heading == old(self)@.heading,
            final(self)@.runs == old(self)@.runs + 1,
            final(self)@.steps == 0,
            final(self)@.collisions == 0,
            final(self).shared_maze() == old(self).shared_maze(),
    {
        let maze = read_locked(&*self.maze);
        self.reset_in(&maze);
    }

    /// Set where the robots target is
    fn set_target_location(&mut self, loc: Point)
        ensures
            final(self)@ == (ThreadedRobotState { goal: loc, ..old(self)@ }),
            final(self).shared_maze() == old(self).shared_maze(),
    {
        self.target_loc = loc
    }

    /// Advance the robot in the maze as it is when the call reads it, and
    /// write the maze back with the cell the robot stood on marked as visited.
    fn advance(&mut self) {
        let mut maze = read_locked(&*self.maze);
        self.advance_in(&mut maze);
        write_locked(&*self.maze, maze);
    }
}

} // verus!
