//! The robot's heading model, the tile kinds, and the traits that robots and
//! controllers implement.

use vstd::prelude::*;
use vstd::std_specs::convert::FromSpecImpl;
use crate::Point;
use crate::generation::Maze;
use crate::generation::grid::with_cell;

pub mod polled_controller;
pub mod random_controller;
mod private;
pub mod robot;
pub mod threaded_controller;
mod shared;
pub mod threaded_robot;

verus! {

/// A controller moves a robot through a maze. The type that decides where
/// the robot turns is wrapped by a controller, which advances the robot after
/// each decision.
pub trait Controller<T: Robot<Tiles = K>, K: TileType + Default> {
    /// Set the robot the controller operates on
    fn set_robot(&mut self, robot: T);

    /// Get the current robot
    fn get_robot(&self) -> &T;

    /// Set the Maze the controller/robot operates on
    fn set_maze(&mut self, maze: Maze<K>);

    /// Called when the controller is started
    fn start(&mut self);

    /// Called when the controller is reset
    fn reset(&mut self);

    /// Change the delay inbetween moves
    fn set_delay(&mut self, delay: i32);

    /// Get the current delay between moves
    fn get_delay(&self) -> i32;

    /// Returns the name which will be shown
    fn get_name(&self) -> &str;

    /// Returns a description which can be shown. A controller that has no
    /// description of its own is described as a robot controller.
    fn get_description(&self) -> (description: &str)
        ensures
            !self.describes_itself() ==> description@ == "A robot controller"@,
    {
        "A robot controller"
    }

    /// Whether the controller has a description of its own.
    open spec fn describes_itself(&self) -> bool {
        false
    }
}

/// Where a controller stands in its life: not started yet, ticking, at the
/// goal, or stopped from outside.
#[derive(Debug, Clone, Copy, PartialEq, Eq, Structural)]
pub enum EngineState {
    Idle,
    Running,
    Finished,
    Stopped,
}

/// An absolute compass direction.
#[derive(Debug, Clone, Copy, PartialEq, Eq, Structural)]
pub enum Heading {
    North,
    East,
    South,
    West,
}

/// A turn relative to the current heading.
#[derive(Debug, Clone, Copy, PartialEq, Eq, Structural)]
pub enum Facing {
    Ahead,
    Right,
    Behind,
    Left,
}

impl From<u32> for Heading {
    fn from(i: u32) -> (heading: Self) {
        match i {
            1000 => Heading::North,
            1001 => Heading::East,
            1002 => Heading::South,
            _ => Heading::West,
        }
    }
}

impl FromSpecImpl<u32> for Heading {
    open spec fn obeys_from_spec() -> bool {
        true
    }

    /// 1000 is north, 1001 east, 1002 south, and every other number west.
    open spec fn from_spec(i: u32) -> Heading {
        if i == 1000 {
            Heading::North
        } else if i == 1001 {
            Heading::East
        } else if i == 1002 {
            Heading::South
        } else {
            Heading::West
        }
    }
}

impl From<i32> for Facing {
    fn from(i: i32) -> (facing: Self) {
        match i {
            0 => Facing::Ahead,
            1 => Facing::Right,
            2 => Facing::Behind,
            _ => Facing::Left,
        }
    }
}

impl FromSpecImpl<i32> for Facing {
    open spec fn obeys_from_spec() -> bool {
        true
    }

    /// 0 is ahead, 1 right, 2 behind, and every other number left.
    open spec fn from_spec(i: i32) -> Facing {
        if i == 0 {
            Facing::Ahead
        } else if i == 1 {
            Facing::Right
        } else if i == 2 {
            Facing::Behind
        } else {
            Facing::Left
        }
    }
}

/// The heading reached from `heading` by the relative turn `face`.
pub open spec fn turned(heading: Heading, face: Facing) -> Heading {
    match face {
        Facing::Ahead => heading,
        Facing::Right => match heading {
            Heading::North => Heading::East,
            Heading::East => Heading::South,
            Heading::South => Heading::West,
            Heading::West => Heading::North,
        },
        Facing::Behind => match heading {
            Heading::North => Heading::South,
            Heading::East => Heading::West,
            Heading::South => Heading::North,
            Heading::West => Heading::East,
        },
        Facing::Left => match heading {
            Heading::North => Heading::West,
            Heading::West => Heading::South,
            Heading::South => Heading::East,
            Heading::East => Heading::North,
        },
    }
}

impl Heading {
    /// Applies a relative turn to this heading.
    pub fn augment_heading(&self, face: Facing) -> (h: Self)
        ensures
            h == turned(*self, face),
    {
        match face {
            Facing::Ahead => *self,
            Facing::Behind => match self {
                Heading::North => Heading::South,
                Heading::South => Heading::North,
                Heading::East => Heading::West,
                Heading::West => Heading::East,
            },
            Facing::Left => match self {
                Heading::North => Heading::West,
                Heading::West => Heading::South,
                Heading::South => Heading::East,
                Heading::East => Heading::North,
            },
            Facing::Right => match self {
                Heading::North => Heading::East,
                Heading::East => Heading::South,
                Heading::South => Heading::West,
                Heading::West => Heading::North,
            },
        }
    }
}

/// A kind of maze cell. A maze only needs to know whether a cell blocks the
/// robot; a tile type may carry more than that.
pub trait TileType {
    /// Whether this tile blocks movement.
    spec fn blocks(&self) -> bool;

    fn is_wall(&self) -> (wall: bool)
        ensures
            wall == self.blocks(),
    ;

    fn can_walk(&self) -> (walkable: bool)
        ensures
            walkable == !self.blocks(),
    {
        !self.is_wall()
    }
}

/// The state of one maze cell. `BeenBefore` marks a cell the robot has left.
#[derive(Debug, Clone, Copy, PartialEq, Eq, Structural)]
pub enum Tile {
    Passage,
    BeenBefore,
    Wall,
}

impl Default for Tile {
    fn default() -> (tile: Self)
        ensures
            tile == Tile::Passage,
    {
        Tile::Passage
    }
}

impl TileType for Tile {
    open spec fn blocks(&self) -> bool {
        *self == Tile::Wall
    }

    fn is_wall(&self) -> (wall: bool) {
        match self {
            Tile::Wall => true,
            _ => false,
        }
    }
}

/// The point one step from `location` in the direction `heading`, or `None`
/// where that step would leave the range of the coordinates.
pub open spec fn ahead(location: Point, heading: Heading) -> Option<Point> {
    match heading {
        Heading::North => if location.1 > 0 {
            Some(Point(location.0, (location.1 - 1) as usize))
        } else {
            None
        },
        Heading::East => if location.0 < usize::MAX {
            Some(Point((location.0 + 1) as usize, location.1))
        } else {
            None
        },
        Heading::South => if location.1 < usize::MAX {
            Some(Point(location.0, (location.1 + 1) as usize))
        } else {
            None
        },
        Heading::West => if location.0 > 0 {
            Some(Point((location.0 - 1) as usize, location.1))
        } else {
            None
        },
    }
}

/// The point one step from `location` in the direction `heading`, if the
/// coordinates can express it.
pub fn step_ahead(location: Point, heading: Heading) -> (target: Option<Point>)
    ensures
        target == ahead(location, heading),
{
    let Point(x, y) = location;
    match heading {
        Heading::North => match y.checked_sub(1) {
            Some(north) => Some(Point(x, north)),
            None => None,
        },
        Heading::East => match x.checked_add(1) {
            Some(east) => Some(Point(east, y)),
            None => None,
        },
        Heading::South => match y.checked_add(1) {
            Some(south) => Some(Point(x, south)),
            None => None,
        },
        Heading::West => match x.checked_sub(1) {
            Some(west) => Some(Point(west, y)),
            None => None,
        },
    }
}

/// The tile that a robot at `location` sees in the direction `heading`: the
/// tile one step away, or a wall where that step leaves the maze.
pub open spec fn tile_ahead(maze: Maze<Tile>, location: Point, heading: Heading) -> Tile {
    match ahead(location, heading) {
        Some(target) => if maze.in_range(target) {
            maze.tile_at(target)
        } else {
            Tile::Wall
        },
        None => Tile::Wall,
    }
}

/// Whether a robot at `location` can take a step in the direction `heading`:
/// the step stays in the maze and does not end on a wall.
pub open spec fn way_is_free(maze: Maze<Tile>, location: Point, heading: Heading) -> bool {
    match ahead(location, heading) {
        Some(target) => maze.walkable(target),
        None => false,
    }
}

/// The rows of `maze` after a robot has left `location`: the cell there is
/// marked as visited, if it is a cell of the maze.
pub open spec fn rows_left_behind(maze: Maze<Tile>, location: Point) -> Seq<Seq<Tile>> {
    if maze.in_range(location) {
        with_cell(maze@, location.0 as int, location.1 as int, Tile::BeenBefore)
    } else {
        maze@
    }
}

/// What a robot at `location` sees in the direction `heading`.
pub fn tile_seen(maze: &Maze<Tile>, location: Point, heading: Heading) -> (tile: Tile)
    ensures
        tile == tile_ahead(*maze, location, heading),
{
    match step_ahead(location, heading) {
        Some(pos) => match maze.get_cell(pos) {
            Some(tile) => *tile,
            None => Tile::Wall,
        },
        None => Tile::Wall,
    }
}

/// Try to move a robot at `location` one step in the direction `heading`.
/// Returns the cell it moves to, or `None` if a wall or the edge of the maze
/// is in the way. Either way the cell at `location` is marked as visited.
pub fn try_step(maze: &mut Maze<Tile>, location: Point, heading: Heading) -> (target: Option<Point>)
    ensures
        final(maze)@ == rows_left_behind(*old(maze), location),
        final(maze).shaped(),
        final(maze).cols() == old(maze).cols(),
        final(maze).start_point() == old(maze).start_point(),
        final(maze).finish_point() == old(maze).finish_point(),
        way_is_free(*old(maze), location, heading) ==> target == ahead(location, heading),
        !way_is_free(*old(maze), location, heading) ==> target.is_none(),
{
    let target = match step_ahead(location, heading) {
        Some(new_loc) => if maze.can_move(new_loc) {
            Some(new_loc)
        } else {
            None
        },
        None => None,
    };
    maze.set_cell(location, Tile::BeenBefore);
    target
}

/// The robot which is moved about the maze.
/// Has a fairly restricted API so most of the logic
/// has to be implemented in a controller object.
pub trait Robot: Sized + Default {
    type Tiles: TileType + Default;

    /// The direction the robot faces.
    spec fn heading(&self) -> Heading;

    /// The cell the robot stands on.
    spec fn location(&self) -> Point;

    /// The cell the robot is to reach.
    spec fn goal(&self) -> Point;

    /// This robot, turned to face `heading` and otherwise unchanged.
    spec fn turned_to(&self, heading: Heading) -> Self;

    /// Turning changes the heading and neither the location nor the goal,
    /// and a turn to where the robot faces already changes nothing.
    proof fn lemma_turned_to(&self, heading: Heading)
        ensures
            self.turned_to(heading).heading() == heading,
            self.turned_to(heading).location() == self.location(),
            self.turned_to(heading).goal() == self.goal(),
            self.turned_to(self.heading()) == *self,
    ;

    /// Of two turns in a row only the second counts.
    proof fn lemma_turned_twice(&self, first: Heading, second: Heading)
        ensures
            self.turned_to(first).turned_to(second) == self.turned_to(second),
    ;

    /// Look at the relative facing direction and get the tile
    fn look(&self, face: Facing) -> Self::Tiles;

    /// Change the robot to face a certain way
    fn face(&mut self, face: Facing)
        ensures
            *final(self) == old(self).turned_to(turned(old(self).heading(), face)),
    ;

    /// Set the robots absolute heading
    fn set_heading(&mut self, heading: Heading)
        ensures
            *final(self) == old(self).turned_to(heading),
    ;

    /// Get the robots current heading
    fn get_heading(&self) -> (heading: Heading)
        ensures
            heading == self.heading(),
    ;

    /// Get the location of the robot
    fn get_goal_location(&self) -> (goal: Point)
        ensures
            goal == self.goal(),
    ;

    /// Get the current location of the robot
    fn get_location(&self) -> (location: Point)
        ensures
            location == self.location(),
    ;

    /// Get the number of times this robot has been run. A robot that keeps
    /// no statistics has no runs to report.
    fn get_runs(&self) -> (runs: i32)
        ensures
            !self.keeps_statistics() ==> runs == 0,
    {
        0
    }

    /// Get the number of steps this robot has taken. A robot that keeps no
    /// statistics has no steps to report.
    fn get_steps(&self) -> (steps: i64)
        ensures
            !self.keeps_statistics() ==> steps == 0,
    {
        0
    }

    /// Get the number of times this robot has run into something. A robot
    /// that keeps no statistics has no collisions to report.
    fn get_collisions(&self) -> (collisions: i64)
        ensures
            !self.keeps_statistics() ==> collisions == 0,
    {
        0
    }

    /// Whether the robot counts its runs, steps and collisions.
    open spec fn keeps_statistics(&self) -> bool {
        false
    }
}

/// Counters of a robot's runs.
pub struct RobotStatistics {
    steps: i64,
    collisions: i64,
    goal_reached: bool,
    runs: i32,
}

/// What a `RobotStatistics` holds.
pub struct Statistics {
    pub steps: i64,
    pub collisions: i64,
    pub goal_reached: bool,
    pub runs: i32,
}

impl View for RobotStatistics {
    type V = Statistics;

    closed spec fn view(&self) -> Statistics {
        Statistics {
            steps: self.steps,
            collisions: self.collisions,
            goal_reached: self.goal_reached,
            runs: self.runs,
        }
    }
}

impl Default for RobotStatistics {
    fn default() -> (statistics: Self)
        ensures
            statistics@ == (Statistics { steps: 0, collisions: 0, goal_reached: false, runs: 0 }),
    {
        RobotStatistics { steps: 0, collisions: 0, goal_reached: false, runs: 0 }
    }
}

impl RobotStatistics {
    pub fn set_steps(&mut self, steps: i64)
        ensures
            final(self)@ == (Statistics { steps, ..old(self)@ }),
    {
        self.steps = steps
    }

    pub fn get_steps(&self) -> (steps: i64)
        ensures
            steps == self@.steps,
    {
        self.steps
    }

    pub fn set_collision(&mut self, collisions: i64)
        ensures
            final(self)@ == (Statistics { collisions, ..old(self)@ }),
    {
        self.collisions = collisions
    }

    pub fn get_collisions(&self) -> (collisions: i64)
        ensures
            collisions == self@.collisions,
    {
        self.collisions
    }

    pub fn set_goal_reached(&mut self, status: bool)
        ensures
            final(self)@ == (Statistics { goal_reached: status, ..old(self)@ }),
    {
        self.goal_reached = status
    }

    pub fn goal_reached(&self) -> (status: bool)
        ensures
            status == self@.goal_reached,
    {
        self.goal_reached
    }

    pub fn set_run_number(&mut self, runs: i32)
        ensures
            final(self)@ == (Statistics { runs, ..old(self)@ }),
    {
        self.runs = runs
    }

    pub fn get_run_number(&self) -> (runs: i32)
        ensures
            runs == self@.runs,
    {
        self.runs
    }
}

/// The state a controller is in after a start: at the goal there is nothing
/// to run.
pub open spec fn state_after_start(at_goal: bool) -> EngineState {
    if at_goal {
        EngineState::Finished
    } else {
        EngineState::Running
    }
}

/// The state a controller is in after a reset: a running controller is
/// stopped, and any other stays as it is.
pub open spec fn state_after_reset(state: EngineState) -> EngineState {
    if state == EngineState::Running {
        EngineState::Stopped
    } else {
        state
    }
}

/// A controller that has started, or has moved its robot in a tick, has
/// finished exactly if the robot stands on its goal, and is running
/// otherwise: a run ends as finished only with the robot on its goal.
pub proof fn lemma_finished_at_the_goal(at_goal: bool)
    ensures
        state_after_start(at_goal) == EngineState::Finished <==> at_goal,
        state_after_start(at_goal) == EngineState::Running <==> !at_goal,
{
}

/// Nothing but a start makes a controller run: a reset never leaves it
/// running, and it leaves a controller that has finished as it is.
pub proof fn lemma_reset_never_runs(state: EngineState)
    ensures
        state_after_reset(state) != EngineState::Running,
        state != EngineState::Running ==> state_after_reset(state) == state,
        state_after_reset(EngineState::Finished) == EngineState::Finished,
        state_after_reset(EngineState::Running) == EngineState::Stopped,
{
}

/// Four left turns, four right turns and two turns about each bring a
/// heading back to where it was; so does a turn ahead.
pub proof fn lemma_turns_come_round(heading: Heading)
    ensures
        turned(turned(turned(turned(heading, Facing::Left), Facing::Left), Facing::Left), Facing::Left)
            == heading,
        turned(
            turned(turned(turned(heading, Facing::Right), Facing::Right), Facing::Right),
            Facing::Right,
        ) == heading,
        turned(turned(heading, Facing::Behind), Facing::Behind) == heading,
        turned(heading, Facing::Ahead) == heading,
{
}

/// A left turn undoes a right turn and a right turn a left turn, and a turn
/// about is two turns to either side.
pub proof fn lemma_turns_cancel(heading: Heading)
    ensures
        turned(turned(heading, Facing::Left), Facing::Right) == heading,
        turned(turned(heading, Facing::Right), Facing::Left) == heading,
        turned(turned(heading, Facing::Left), Facing::Left) == turned(heading, Facing::Behind),
        turned(turned(heading, Facing::Right), Facing::Right) == turned(heading, Facing::Behind),
{
}

} // verus!
