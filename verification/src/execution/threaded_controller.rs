//! The controller for a worker thread: other threads stop it through a
//! shared flag and follow it through a channel of progress records.

use vstd::prelude::*;
use std::sync::{Arc, Mutex, RwLock};
use std::sync::mpsc::Sender;
use crate::Point;
use crate::execution::{state_after_reset, state_after_start};
use crate::execution::{Controller, EngineState, Heading, Robot, Tile};
use crate::execution::polled_controller::PolledController;
use crate::execution::private::Robot as RobotInternals;
use crate::execution::shared::{read_locked, read_shared, send_on, write_shared};
use crate::execution::threaded_robot::ThreadedRobot;
use crate::generation::Maze;

verus! {

/// The part of a threaded controller that users write: a function that is
/// called once for each move, on the worker thread.
pub trait ThreadedController: Default {
    /// Decide where the robot turns. A controller may turn the robot and
    /// nothing else.
    fn control_robot(&mut self, robot: &mut ThreadedRobot)
        ensures
            *final(robot) == old(robot).turned_to(final(robot).heading()),
    ;

    fn reset(&self) {
    }
}

/// Every `PolledController` for the threaded robot is a `ThreadedController`:
/// each call is handed on unchanged.
impl<T> ThreadedController for T where T: PolledController<ThreadedRobot> {
    fn control_robot(&mut self, robot: &mut ThreadedRobot) {
        PolledController::control_robot(self, robot);
    }

    fn reset(&self) {
        PolledController::reset(self)
    }
}

/// What an observer learns after each tick: whether the run has finished,
/// where the robot stands, where it is to go, where it faces, and, if the
/// controller is set to send them, a copy of the maze.
#[derive(Debug)]
pub struct ThreadedRobotProgress {
    pub finished: bool,
    pub robot_pos: Point,
    pub target_loc: Point,
    pub robot_head: Heading,
    pub maze: Option<Maze<Tile>>,
}

impl ThreadedRobotProgress {
    /// Whether this record shows `robot` as it stands, says `finished`, and
    /// carries a maze exactly if `snapshots` is set.
    pub open spec fn shows(self, robot: ThreadedRobot, finished: bool, snapshots: bool) -> bool {
        &&& self.finished == finished
        &&& self.robot_pos == robot.location()
        &&& self.target_loc == robot.goal()
        &&& self.robot_head == robot.heading()
        &&& self.maze is Some <==> snapshots
    }
}

impl Clone for ThreadedRobotProgress {
    /// A record that says the same, with a copy of the maze if there is one.
    fn clone(&self) -> (copy: Self)
        ensures
            copy.finished == self.finished,
            copy.robot_pos == self.robot_pos,
            copy.target_loc == self.target_loc,
            copy.robot_head == self.robot_head,
            copy.maze is Some <==> self.maze is Some,
            self.maze is Some ==> {
                &&& copy.maze->0@ == self.maze->0@
                &&& copy.maze->0.cols() == self.maze->0.cols()
                &&& copy.maze->0.start_point() == self.maze->0.start_point()
                &&& copy.maze->0.finish_point() == self.maze->0.finish_point()
            },
    {
        let maze = match &self.maze {
            Some(maze) => {
                let copy = maze.clone();
                assert forall|x: int, y: int|
                    0 <= x < maze.cols() && 0 <= y < maze@.len() implies #[trigger] copy@[y][x]
                    == maze@[y][x] by {
                    assert(cloned(maze@[y][x], copy@[y][x]));
                }
                assert(copy@ =~~= maze@);
                Some(copy)
            },
            None => None,
        };
        ThreadedRobotProgress {
            finished: self.finished,
            robot_pos: self.robot_pos,
            target_loc: self.target_loc,
            robot_head: self.robot_head,
            maze,
        }
    }
}

/// What is kept as the latest record after a send: the record, if the
/// channel took it, and nothing new if it did not.
pub fn record_to_keep(
    record: ThreadedRobotProgress,
    sent: bool,
) -> (kept: Option<ThreadedRobotProgress>)
    ensures
        sent ==> kept == Some(record),
        !sent ==> kept.is_none(),
{
    if sent {
        Some(record)
    } else {
        None
    }
}

/// The three cells that a threaded controller shares with other threads:
/// the flag that stops it, the pause after each tick, and the latest
/// progress record.
pub struct SharedCells {
    pub active: Arc<Mutex<bool>>,
    pub thread_delay: Arc<Mutex<i32>>,
    pub latest_robot_update: Arc<Mutex<Option<ThreadedRobotProgress>>>,
}

pub struct ThreadedControllerWrapper<C: ThreadedController> {
    robot: ThreadedRobot,
    active: Arc<Mutex<bool>>,
    thread_delay: Arc<Mutex<i32>>,
    progress_sender: Option<Sender<ThreadedRobotProgress>>,
    latest_robot_update: Arc<Mutex<Option<ThreadedRobotProgress>>>,
    controller: C,
    state: EngineState,
    snapshots: bool,
    handed: Ghost<Seq<ThreadedRobotProgress>>,
}

impl<C: ThreadedController> ThreadedControllerWrapper<C> {
    /// The robot that the controller moves.
    pub closed spec fn robot(&self) -> ThreadedRobot {
        self.robot
    }

    /// Where the controller stands in its life.
    pub closed spec fn state(&self) -> EngineState {
        self.state
    }

    /// Whether progress records carry a copy of the maze.
    pub closed spec fn snapshots(&self) -> bool {
        self.snapshots
    }

    /// Whether the robot stands on its goal.
    pub open spec fn at_goal(&self) -> bool {
        self.robot().location() == self.robot().goal()
    }

    /// The sender that progress records go to, if one is set.
    pub closed spec fn sender(&self) -> Option<Sender<ThreadedRobotProgress>> {
        self.progress_sender
    }

    /// The cells that the controller shares with other threads.
    pub closed spec fn cells(&self) -> SharedCells {
        SharedCells {
            active: self.active,
            thread_delay: self.thread_delay,
            latest_robot_update: self.latest_robot_update,
        }
    }

    /// The progress records that the controller has handed to a sender, in
    /// the order in which it handed them over.
    pub closed spec fn handed(&self) -> Seq<ThreadedRobotProgress> {
        self.handed@
    }

    /// Whether the controller has the sender and the cells that `before` has
    /// and has handed out no record since.
    pub open spec fn silent_since(&self, before: &Self) -> bool {
        &&& self.sender() == before.sender()
        &&& self.cells() == before.cells()
        &&& self.handed() == before.handed()
    }

    /// Whether the controller has the sender and the cells that `before`
    /// has, and has handed out the records `records` since, in that order. A
    /// controller without a sender hands out nothing.
    pub open spec fn handed_since(
        &self,
        before: &Self,
        records: Seq<ThreadedRobotProgress>,
    ) -> bool {
        &&& self.sender() == before.sender()
        &&& self.cells() == before.cells()
        &&& before.sender() is Some ==> self.handed() == before.handed() + records
        &&& before.sender() is None ==> self.handed() == before.handed()
    }

    /// Whether the controller has handed out, since `before`, one record that
    /// shows the robot as it now stands and says `finished`, and nothing
    /// else.
    pub open spec fn reported_since(&self, before: &Self, finished: bool) -> bool {
        exists|record: ThreadedRobotProgress|
            {
                &&& #[trigger] record.shows(self.robot(), finished, self.snapshots())
                &&& self.handed_since(before, seq![record])
            }
    }

    /// Whether the controller has handed out, since `before`, one record that
    /// says that the robot as it now stands has finished, and nothing else.
    pub open spec fn finished_since(&self, before: &Self) -> bool {
        self.reported_since(before, true)
    }

    /// Whether the controller has handed out, since `before`, what a tick
    /// that moves the robot hands out: one record that shows the robot as it
    /// now stands and says that it has not finished, and after it, if the
    /// robot stands on its goal, one that says that it has.
    pub open spec fn ticked_since(&self, before: &Self) -> bool {
        if self.at_goal() {
            exists|first: ThreadedRobotProgress, second: ThreadedRobotProgress|
                #![trigger
                    first.shows(self.robot(), false, self.snapshots()),
                    second.shows(self.robot(), true, self.snapshots()),
                ]
                {
                    &&& first.shows(self.robot(), false, self.snapshots())
                    &&& second.shows(self.robot(), true, self.snapshots())
                    &&& self.handed_since(before, seq![first, second])
                }
        } else {
            exists|first: ThreadedRobotProgress|
                {
                    &&& #[trigger] first.shows(self.robot(), false, self.snapshots())
                    &&& self.handed_since(before, seq![first])
                }
        }
    }

    /// A controller that is stopped through `active`, reads its pause from
    /// `thread_delay` and leaves its last progress record in
    /// `latest_robot_update`. It has no sender yet.
    pub fn new(
        active: Arc<Mutex<bool>>,
        thread_delay: Arc<Mutex<i32>>,
        latest_robot_update: Arc<Mutex<Option<ThreadedRobotProgress>>>,
    ) -> (wrapper: Self)
        ensures
            wrapper.state() == EngineState::Idle,
            !wrapper.snapshots(),
            call_ensures(ThreadedRobot::default, (), wrapper.robot()),
            wrapper.sender() is None,
            wrapper.cells() == (SharedCells { active, thread_delay, latest_robot_update }),
            wrapper.handed() == Seq::<ThreadedRobotProgress>::empty(),
    {
        Self {
            robot: ThreadedRobot::default(),
            active,
            thread_delay,
            progress_sender: None,
            latest_robot_update,
            controller: C::default(),
            state: EngineState::Idle,
            snapshots: false,
            handed: Ghost(Seq::empty()),
        }
    }

    /// Where the controller stands in its life.
    pub fn get_state(&self) -> (state: EngineState)
        ensures
            state == self.state(),
    {
        self.state
    }

    /// Make the shared maze `maze` the robot's maze, given what the shared
    /// flag says: an active controller keeps the maze it has.
    pub fn set_maze_ref_with(&mut self, maze: Arc<RwLock<Maze<Tile>>>, active: bool)
        ensures
            final(self).state() == old(self).state(),
            final(self).snapshots() == old(self).snapshots(),
            final(self).robot().roadworthy() == old(self).robot().roadworthy(),
            final(self).sender() == old(self).sender(),
            final(self).silent_since(old(self)),
            active ==> final(self).robot() == old(self).robot(),
            !active ==> {
                &&& final(self).robot().shared_maze() == maze
                &&& final(self).robot()@.heading == old(self).robot()@.heading
                &&& final(self).robot()@.steps == old(self).robot()@.steps
                &&& final(self).robot()@.collisions == old(self).robot()@.collisions
                &&& final(self).robot()@.runs == old(self).robot()@.runs
            },
    {
        if !active {
            self.robot.set_maze(maze);
        }
    }

    /// Make the shared maze `maze` the robot's maze, unless the shared flag
    /// says that the controller is active.
    pub fn set_maze_ref(&mut self, maze: Arc<RwLock<Maze<Tile>>>)
        ensures
            final(self).state() == old(self).state(),
            final(self).snapshots() == old(self).snapshots(),
            final(self).robot().roadworthy() == old(self).robot().roadworthy(),
            final(self).sender() == old(self).sender(),
            final(self).silent_since(old(self)),
            final(self).robot() == old(self).robot() || final(self).robot().shared_maze() == maze,
    {
        let active = read_shared(&*self.active);
        self.set_maze_ref_with(maze, active);
    }

    /// Send the progress records to `tx` from now on.
    pub fn set_sender(&mut self, tx: Sender<ThreadedRobotProgress>)
        ensures
            final(self).sender() == Some(tx),
            final(self).cells() == old(self).cells(),
            final(self).handed() == old(self).handed(),
            final(self).robot() == old(self).robot(),
            final(self).state() == old(self).state(),
            final(self).snapshots() == old(self).snapshots(),
    {
        self.progress_sender = Some(tx);
    }

    /// Choose whether progress records carry a copy of the maze.
    pub fn set_snapshots(&mut self, snapshots: bool)
        ensures
            final(self).robot() == old(self).robot(),
            final(self).state() == old(self).state(),
            final(self).snapshots() == snapshots,
            final(self).sender() == old(self).sender(),
            final(self).silent_since(old(self)),
    {
        self.snapshots = snapshots;
    }

    /// The progress record for the robot as it stands.
    pub fn progress(&self, finished: bool, maze: Option<Maze<Tile>>) -> (message:
        ThreadedRobotProgress)
        ensures
            message.finished == finished,
            message.robot_pos == self.robot().location(),
            message.target_loc == self.robot().goal(),
            message.robot_head == self.robot().heading(),
            message.maze == maze,
    {
        ThreadedRobotProgress {
            finished,
            robot_head: self.robot.get_heading(),
            robot_pos: self.robot.get_location(),
            target_loc: self.robot.get_goal_location(),
            maze,
        }
    }

    /// Hand a progress record to the sender, if one is set, and keep a copy
    /// of it as the latest one if the channel took it. The record shows the
    /// robot as it stands and says `finished`; it carries a copy of the maze
    /// if the controller is set to send copies. Without a sender nothing is
    /// handed out and nothing kept.
    pub fn send_robot_update(&mut self, finished: bool)
        ensures
            final(self).robot() == old(self).robot(),
            final(self).state() == old(self).state(),
            final(self).snapshots() == old(self).snapshots(),
            final(self).sender() == old(self).sender(),
            final(self).reported_since(old(self), finished),
    {
        let maze = if self.snapshots {
            Some(read_locked(&*self.robot.get_maze()))
        } else {
            None
        };
        let message = self.progress(finished, maze);
        let ghost record = message;
        match &self.progress_sender {
            Some(sender) => {
                let copy = message.clone();
                let sent = send_on(sender, message);
                self.handed = Ghost(self.handed@.push(record));
                match record_to_keep(copy, sent) {
                    Some(kept) => {
                        write_shared(&*self.latest_robot_update, Some(kept));
                    },
                    None => {},
                }
            },
            None => {},
        }
        assert(record.shows(self.robot(), finished, self.snapshots()));
        assert(self.handed_since(old(self), seq![record])) by {
            assert(old(self).handed().push(record) =~= old(self).handed() + seq![record]);
        }
    }

    /// One tick, given what the shared flag says.
    ///
    /// Nothing happens unless the controller is running. A running controller
    /// whose robot stands on its goal finishes, and says so in a progress
    /// record. Otherwise, if `active` is false, it stops, and hands out no
    /// record. Otherwise the controller turns the robot, the robot advances
    /// and a progress record for the robot after the advance goes out; if the
    /// robot has reached its goal by that, the controller finishes, and says
    /// so in a second record.
    pub fn tick_with(&mut self, active: bool) -> (state: EngineState)
        requires
            old(self).robot().roadworthy(),
        ensures
            state == final(self).state(),
            final(self).snapshots() == old(self).snapshots(),
            final(self).sender() == old(self).sender(),
            old(self).state() != EngineState::Running ==> {
                &&& final(self).state() == old(self).state()
                &&& final(self).robot() == old(self).robot()
                &&& final(self).silent_since(old(self))
            },
            old(self).state() == EngineState::Running && old(self).at_goal() ==> {
                &&& final(self).state() == EngineState::Finished
                &&& final(self).robot() == old(self).robot()
                &&& final(self).finished_since(old(self))
            },
            old(self).state() == EngineState::Running && !old(self).at_goal() && !active ==> {
                &&& final(self).state() == EngineState::Stopped
                &&& final(self).robot() == old(self).robot()
                &&& final(self).silent_since(old(self))
            },
            old(self).state() == EngineState::Running && !old(self).at_goal() && active ==> {
                &&& exists|heading: Heading| #[trigger]
                    old(self).robot().turned_to(heading).advanced(&final(self).robot())
                &&& final(self).state() == state_after_start(final(self).at_goal())
                &&& final(self).ticked_since(old(self))
            },
    {
        if self.state == EngineState::Running {
            if self.robot.get_location() == self.robot.get_goal_location() {
                self.state = EngineState::Finished;
                self.send_robot_update(true);
            } else if !active {
                self.state = EngineState::Stopped;
            } else {
                let ghost before = self.robot;
                self.controller.control_robot(&mut self.robot);
                proof {
                    before.lemma_turning_keeps_roadworthy(self.robot.heading());
                }
                RobotInternals::advance(&mut self.robot);
                let ghost advanced = *self;
                self.send_robot_update(false);
                let ghost told = *self;
                let ghost first = choose|record: ThreadedRobotProgress|
                    {
                        &&& #[trigger] record.shows(advanced.robot(), false, advanced.snapshots())
                        &&& told.handed_since(&advanced, seq![record])
                    };
                if self.robot.get_location() == self.robot.get_goal_location() {
                    self.state = EngineState::Finished;
                    let ghost reached = *self;
                    self.send_robot_update(true);
                    proof {
                        let second = choose|record: ThreadedRobotProgress|
                            {
                                &&& #[trigger] record.shows(reached.robot(), true, reached.snapshots())
                                &&& self.handed_since(&reached, seq![record])
                            };
                        assert(old(self).handed() + seq![first] + seq![second] =~= old(self).handed()
                            + seq![first, second]);
                        assert(self.handed_since(old(self), seq![first, second]));
                    }
                } else {
                    assert(self.handed_since(old(self), seq![first]));
                }
            }
        }
        self.state
    }

    /// One tick, with the shared flag read at its start. Whatever the flag
    /// says, a controller that is not running stays as it is, and one whose
    /// robot stands on its goal finishes.
    pub fn tick(&mut self) -> (state: EngineState)
        requires
            old(self).robot().roadworthy(),
        ensures
            state == final(self).state(),
            final(self).snapshots() == old(self).snapshots(),
            final(self).sender() == old(self).sender(),
            old(self).state() != EngineState::Running ==> {
                &&& final(self).state() == old(self).state()
                &&& final(self).robot() == old(self).robot()
                &&& final(self).silent_since(old(self))
            },
            old(self).state() == EngineState::Running && old(self).at_goal() ==> {
                &&& final(self).state() == EngineState::Finished
                &&& final(self).robot() == old(self).robot()
                &&& final(self).finished_since(old(self))
            },
            old(self).state() == EngineState::Running && !old(self).at_goal() ==> {
                ||| {
                    &&& final(self).state() == EngineState::Stopped
                    &&& final(self).robot() == old(self).robot()
                    &&& final(self).silent_since(old(self))
                }
                ||| {
                    &&& exists|heading: Heading| #[trigger]
                        old(self).robot().turned_to(heading).advanced(&final(self).robot())
                    &&& final(self).state() == state_after_start(final(self).at_goal())
                    &&& final(self).ticked_since(old(self))
                }
            },
    {
        let active = read_shared(&*self.active);
        self.tick_with(active)
    }
}

impl<C> Controller<ThreadedRobot, Tile> for ThreadedControllerWrapper<C> where C: ThreadedController {
    fn get_name(&self) -> (name: &str)
        ensures
            name@ == "Threaded Polled Controller"@,
    {
        "Threaded Polled Controller"
    }

    fn get_description(&self) -> (description: &str)
        ensures
            description@ == "Based Multi-Threaded Robot Controller"@,
    {
        "Based Multi-Threaded Robot Controller"
    }

    open spec fn describes_itself(&self) -> bool {
        true
    }

    fn get_robot(&self) -> (robot: &ThreadedRobot)
        ensures
            *robot == self.robot(),
    {
        &self.robot
    }

    fn set_robot(&mut self, robot: ThreadedRobot)
        ensures
            final(self).robot() == robot,
            final(self).state() == old(self).state(),
            final(self).snapshots() == old(self).snapshots(),
            final(self).sender() == old(self).sender(),
            final(self).silent_since(old(self)),
    {
        self.robot = robot;
    }

    /// The pause after each tick, as the shared value stands.
    fn get_delay(&self) -> (delay: i32) {
        read_shared(&*self.thread_delay)
    }

    /// Change the shared pause after each tick.
    fn set_delay(&mut self, delay: i32)
        ensures
            final(self).robot() == old(self).robot(),
            final(self).state() == old(self).state(),
            final(self).snapshots() == old(self).snapshots(),
            final(self).sender() == old(self).sender(),
            final(self).silent_since(old(self)),
    {
        write_shared(&*self.thread_delay, delay);
    }

    /// Give the robot a lock of its own round `maze`. The robot moves to the
    /// start of the maze and aims for its finish.
    fn set_maze(&mut self, maze: Maze<Tile>)
        ensures
            final(self).state() == old(self).state(),
            final(self).snapshots() == old(self).snapshots(),
            final(self).robot().roadworthy() == old(self).robot().roadworthy(),
            old(self).robot().given(maze, &final(self).robot()),
            final(self).sender() == old(self).sender(),
            final(self).silent_since(old(self)),
    {
        RobotInternals::set_maze(&mut self.robot, Box::new(maze));
    }

    /// Called when the controller is started: from now on ticks move the
    /// robot. If the robot stands on its goal already the controller
    /// finishes at once, and says so in a progress record.
    fn start(&mut self)
        ensures
            final(self).robot() == old(self).robot(),
            final(self).snapshots() == old(self).snapshots(),
            final(self).state() == state_after_start(old(self).at_goal()),
            final(self).sender() == old(self).sender(),
            old(self).at_goal() ==> final(self).finished_since(old(self)),
            !old(self).at_goal() ==> final(self).silent_since(old(self)),
    {
        if self.robot.get_location() == self.robot.get_goal_location() {
            self.state = EngineState::Finished;
            self.send_robot_update(true);
        } else {
            self.state = EngineState::Running;
        }
    }

    /// Called when the controller is reset: the shared flag is cleared, and a
    /// running controller stops.
    fn reset(&mut self)
        ensures
            final(self).robot() == old(self).robot(),
            final(self).snapshots() == old(self).snapshots(),
            final(self).state() == state_after_reset(old(self).state()),
            final(self).sender() == old(self).sender(),
            final(self).silent_since(old(self)),
    {
        write_shared(&*self.active, false);
        if self.state == EngineState::Running {
            self.state = EngineState::Stopped;
        }
        self.controller.reset();
    }
}

} // verus!
