//! The single-threaded controller: the caller runs it tick by tick.

use vstd::prelude::*;
use crate::execution::{private, state_after_reset, state_after_start};
use crate::execution::{Controller, EngineState, Robot, TileType};
use crate::generation::Maze;

verus! {

/// The part of a controller that most users write: a function that is
/// called once for each move.
///
/// `control_robot` is called at each tick. It sets the direction the robot
/// faces; the wrapper then moves the robot on. `reset` is called when a run
/// is reset. A controller sets up what it needs in its `default`.
pub trait PolledController<R: Robot>: Default {
    /// Decide where the robot turns. A controller may turn the robot and
    /// nothing else.
    fn control_robot(&mut self, robot: &mut R)
        ensures
            *final(robot) == old(robot).turned_to(final(robot).heading()),
    ;

    fn reset(&self) {
    }
}

/// The wrapper does what every controller does round a `PolledController`:
/// it holds the robot and advances it after each decision.
pub struct PolledControllerWrapper<R: Robot, P: PolledController<R>> {
    controller: Box<P>,
    robot: R,
    state: EngineState,
    delay: i32,
}

impl<R: Robot, P: PolledController<R>> PolledControllerWrapper<R, P> {
    /// The robot that the controller moves.
    pub closed spec fn robot(&self) -> R {
        self.robot
    }

    /// Where the controller stands in its life.
    pub closed spec fn state(&self) -> EngineState {
        self.state
    }

    /// The pause after each tick.
    pub closed spec fn delay(&self) -> i32 {
        self.delay
    }

    /// Whether the robot stands on its goal.
    pub open spec fn at_goal(&self) -> bool {
        self.robot().location() == self.robot().goal()
    }

    /// An idle wrapper round a default controller and a default robot.
    pub fn new() -> (wrapper: Self)
        ensures
            wrapper.state() == EngineState::Idle,
            wrapper.delay() == 0,
            call_ensures(R::default, (), wrapper.robot()),
            call_ensures(P::default, (), wrapper.controller()),
    {
        PolledControllerWrapper {
            controller: Box::new(P::default()),
            robot: R::default(),
            state: EngineState::Idle,
            delay: 0,
        }
    }

    /// An idle wrapper round `controller` and a default robot.
    pub fn with_controller(controller: P) -> (wrapper: Self)
        ensures
            wrapper.controller() == controller,
            wrapper.state() == EngineState::Idle,
            wrapper.delay() == 0,
            call_ensures(R::default, (), wrapper.robot()),
    {
        PolledControllerWrapper {
            controller: Box::new(controller),
            robot: R::default(),
            state: EngineState::Idle,
            delay: 0,
        }
    }

    /// The controller that decides where the robot turns.
    pub closed spec fn controller(&self) -> P {
        *self.controller
    }

    /// Where the controller stands in its life.
    pub fn get_state(&self) -> (state: EngineState)
        ensures
            state == self.state(),
    {
        self.state
    }
}

impl<R: Robot + private::Robot, P: PolledController<R>> PolledControllerWrapper<R, P> {
    /// The second half of a tick: advance the robot, and finish if it has
    /// reached its goal. Nothing happens unless the controller is running.
    pub fn advance_robot(&mut self) -> (state: EngineState)
        requires
            old(self).robot().roadworthy(),
        ensures
            state == final(self).state(),
            final(self).delay() == old(self).delay(),
            old(self).state() != EngineState::Running ==> final(self).state() == old(self).state()
                && final(self).robot() == old(self).robot(),
            old(self).state() == EngineState::Running ==> old(self).robot().advanced(
                &final(self).robot(),
            ) && final(self).state() == state_after_start(final(self).at_goal()),
    {
        if self.state == EngineState::Running {
            self.robot.advance();
            if self.robot.get_location() == self.robot.get_goal_location() {
                self.state = EngineState::Finished;
            }
        }
        self.state
    }

    /// One tick: if the controller is running and the robot is not at its
    /// goal, let the controller turn the robot, then advance the robot. A
    /// running controller whose robot stands on its goal finishes without a
    /// move.
    pub fn tick(&mut self) -> (state: EngineState)
        requires
            old(self).robot().roadworthy(),
        ensures
            state == final(self).state(),
            final(self).delay() == old(self).delay(),
            old(self).state() != EngineState::Running ==> final(self).state() == old(self).state()
                && final(self).robot() == old(self).robot(),
            old(self).state() == EngineState::Running && old(self).at_goal() ==> final(self).state()
                == EngineState::Finished && final(self).robot() == old(self).robot(),
            old(self).state() == EngineState::Running && !old(self).at_goal() ==> {
                &&& exists|heading: crate::execution::Heading| #[trigger]
                    old(self).robot().turned_to(heading).advanced(&final(self).robot())
                &&& final(self).state() == state_after_start(final(self).at_goal())
            },
    {
        if self.state == EngineState::Running {
            if self.robot.get_location() == self.robot.get_goal_location() {
                self.state = EngineState::Finished;
            } else {
                let ghost before = self.robot;
                self.controller.control_robot(&mut self.robot);
                proof {
                    before.lemma_turning_keeps_roadworthy(self.robot.heading());
                }
                self.advance_robot();
            }
        }
        self.state
    }
}

impl<R: Robot<Tiles = K> + private::Robot, P: PolledController<R>, K: TileType + Default> Controller<
    R,
    K,
> for PolledControllerWrapper<R, P> {
    /// Set the robot the controller operates on
    fn set_robot(&mut self, robot: R)
        ensures
            final(self).robot() == robot,
            final(self).state() == old(self).state(),
            final(self).delay() == old(self).delay(),
    {
        self.robot = robot;
    }

    fn get_robot(&self) -> (robot: &R)
        ensures
            *robot == self.robot(),
    {
        &self.robot
    }

    /// Give the robot the maze. The robot moves to the start of the maze
    /// and aims for its finish.
    fn set_maze(&mut self, maze: Maze<K>)
        ensures
            final(self).state() == old(self).state(),
            final(self).delay() == old(self).delay(),
            final(self).robot().roadworthy() == old(self).robot().roadworthy(),
            old(self).robot().given(maze, &final(self).robot()),
    {
        let maze = Box::new(maze);
        self.robot.set_maze(maze);
    }

    /// Called when the controller is started: from now on ticks move the
    /// robot, unless it stands on its goal already.
    fn start(&mut self)
        ensures
            final(self).robot() == old(self).robot(),
            final(self).delay() == old(self).delay(),
            final(self).state() == state_after_start(old(self).at_goal()),
    {
        if self.robot.get_location() == self.robot.get_goal_location() {
            self.state = EngineState::Finished;
        } else {
            self.state = EngineState::Running;
        }
    }

    /// Called when the controller is reset: a running controller stops.
    fn reset(&mut self)
        ensures
            final(self).robot() == old(self).robot(),
            final(self).delay() == old(self).delay(),
            final(self).state() == state_after_reset(old(self).state()),
    {
        if self.state == EngineState::Running {
            self.state = EngineState::Stopped;
        }
    }

    /// Change the delay inbetween moves
    fn set_delay(&mut self, delay: i32)
        ensures
            final(self).robot() == old(self).robot(),
            final(self).state() == old(self).state(),
            final(self).delay() == delay,
    {
        self.delay = delay
    }

    /// Get the current delay between moves
    fn get_delay(&self) -> (delay: i32)
        ensures
            delay == self.delay(),
    {
        self.delay
    }

    /// Returns the name which will be shown
    fn get_name(&self) -> (name: &str)
        ensures
            name@ == "Robot Controller"@,
    {
        "Robot Controller"
    }

    /// Returns a description which can be shown
    fn get_description(&self) -> (description: &str)
        ensures
            description@ == "A Polled Robot Controller"@,
    {
        "A Polled Robot Controller"
    }

    open spec fn describes_itself(&self) -> bool {
        true
    }
}

} // verus!
