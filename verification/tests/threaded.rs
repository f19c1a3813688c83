use robot_maze::execution::polled_controller::PolledController;
use robot_maze::execution::random_controller::RandomController;
use robot_maze::execution::threaded_controller::record_to_keep;
use robot_maze::execution::threaded_controller::{
    ThreadedController, ThreadedControllerWrapper, ThreadedRobotProgress,
};
use robot_maze::execution::threaded_robot::ThreadedRobot;
use robot_maze::execution::{Controller, EngineState, Facing, Heading, Robot, Tile};
use robot_maze::generation::Maze;
use robot_maze::Point;
use std::sync::mpsc::{channel, Receiver};
use std::sync::{Arc, Mutex, RwLock};

/// A controller that always goes straight on. It is written for the
/// single-threaded wrapper and serves the threaded one unchanged.
#[derive(Default)]
struct Straight;

impl<R: Robot> PolledController<R> for Straight {
    fn control_robot(&mut self, robot: &mut R) {
        robot.face(Facing::Ahead);
    }
}

struct Shared {
    active: Arc<Mutex<bool>>,
    delay: Arc<Mutex<i32>>,
    latest: Arc<Mutex<Option<ThreadedRobotProgress>>>,
}

fn shared(active: bool) -> Shared {
    Shared {
        active: Arc::new(Mutex::new(active)),
        delay: Arc::new(Mutex::new(0)),
        latest: Arc::new(Mutex::new(None)),
    }
}

fn wrapper_on<C: ThreadedController>(shared: &Shared) -> ThreadedControllerWrapper<C> {
    ThreadedControllerWrapper::new(shared.active.clone(), shared.delay.clone(), shared.latest.clone())
}

/// A corridor of `length` cells in one row, from the left end to the right.
fn corridor(length: usize) -> Maze<Tile> {
    let mut maze: Maze<Tile> = Maze::new(length, 1);
    maze.set_start(Point(0, 0));
    maze.set_finish(Point(length - 1, 0));
    maze
}

fn received(rx: &Receiver<ThreadedRobotProgress>) -> Vec<ThreadedRobotProgress> {
    rx.try_iter().collect()
}

#[test]
fn the_default_threaded_robot_faces_east_at_one_one() {
    let robot = ThreadedRobot::default();
    assert_eq!(robot.get_location(), Point(1, 1));
    assert_eq!(robot.get_goal_location(), Point(0, 0));
    assert_eq!(robot.get_goal_location(), robot.get_maze().read().unwrap().get_finish());
    assert_eq!(robot.get_heading(), Heading::East);
    assert_eq!(robot.get_steps(), 0);
    assert_eq!(robot.get_collisions(), 0);
    assert_eq!(robot.get_runs(), 0);
    let maze = robot.get_maze();
    assert_eq!(maze.read().unwrap().get_width(), 15);
    assert_eq!(maze.read().unwrap().get_height(), 15);
    assert_eq!(robot.look(Facing::Ahead), Tile::Passage);
}

#[test]
fn the_threaded_robot_sees_what_others_write() {
    let robot = ThreadedRobot::default();
    let maze = robot.get_maze();
    maze.write().unwrap().set_cell(Point(2, 1), Tile::Wall);
    assert_eq!(robot.look(Facing::Ahead), Tile::Wall);
    assert_eq!(robot.look(Facing::Right), Tile::Passage);
}

#[test]
fn the_threaded_robot_sees_wall_beyond_the_maze() {
    let cells = shared(true);
    let mut wrapper: ThreadedControllerWrapper<Straight> = wrapper_on(&cells);
    wrapper.set_maze(corridor(3));
    let robot = wrapper.get_robot();
    assert_eq!(robot.get_location(), Point(0, 0));
    assert_eq!(robot.look(Facing::Left), Tile::Wall);
    assert_eq!(robot.look(Facing::Behind), Tile::Wall);
    assert_eq!(robot.look(Facing::Right), Tile::Wall);
    assert_eq!(robot.look(Facing::Ahead), Tile::Passage);
}

#[test]
fn a_new_threaded_controller_is_idle() {
    let cells = shared(true);
    let mut wrapper: ThreadedControllerWrapper<Straight> = wrapper_on(&cells);
    assert_eq!(wrapper.get_state(), EngineState::Idle);
    assert_eq!(wrapper.get_name(), "Threaded Polled Controller");
    assert_eq!(wrapper.get_description(), "Based Multi-Threaded Robot Controller");
    assert_eq!(wrapper.tick(), EngineState::Idle);
    assert_eq!(wrapper.get_robot().get_steps(), 0);
    assert_eq!(wrapper.get_robot().get_collisions(), 0);
}

#[test]
fn the_delay_lives_in_the_shared_cell() {
    let cells = shared(true);
    let mut wrapper: ThreadedControllerWrapper<Straight> = wrapper_on(&cells);
    assert_eq!(wrapper.get_delay(), 0);
    wrapper.set_delay(40);
    assert_eq!(*cells.delay.lock().unwrap(), 40);
    *cells.delay.lock().unwrap() = 7;
    assert_eq!(wrapper.get_delay(), 7);
}

#[test]
fn setting_a_maze_puts_the_threaded_robot_at_its_start() {
    let cells = shared(true);
    let mut wrapper: ThreadedControllerWrapper<Straight> = wrapper_on(&cells);
    let mut maze = corridor(4);
    maze.set_start(Point(2, 0));
    wrapper.set_maze(maze);
    assert_eq!(wrapper.get_robot().get_location(), Point(2, 0));
    assert_eq!(wrapper.get_robot().get_goal_location(), Point(3, 0));
    assert_eq!(wrapper.get_robot().get_maze().read().unwrap().get_width(), 4);
}

#[test]
fn a_shared_maze_is_taken_only_while_inactive() {
    let cells = shared(true);
    let mut wrapper: ThreadedControllerWrapper<Straight> = wrapper_on(&cells);
    let maze = Arc::new(RwLock::new(corridor(6)));
    wrapper.set_maze_ref(maze.clone());
    assert_eq!(wrapper.get_robot().get_maze().read().unwrap().get_width(), 15);
    assert_eq!(wrapper.get_robot().get_location(), Point(1, 1));
    *cells.active.lock().unwrap() = false;
    wrapper.set_maze_ref(maze.clone());
    assert!(Arc::ptr_eq(&wrapper.get_robot().get_maze(), &maze));
    assert_eq!(wrapper.get_robot().get_location(), Point(0, 0));
    assert_eq!(wrapper.get_robot().get_goal_location(), Point(5, 0));
}

#[test]
fn a_shared_maze_is_taken_by_the_flag_that_is_given() {
    let cells = shared(true);
    let mut wrapper: ThreadedControllerWrapper<Straight> = wrapper_on(&cells);
    let maze = Arc::new(RwLock::new(corridor(6)));
    wrapper.set_maze_ref_with(maze.clone(), true);
    assert!(!Arc::ptr_eq(&wrapper.get_robot().get_maze(), &maze));
    wrapper.set_maze_ref_with(maze.clone(), false);
    assert!(Arc::ptr_eq(&wrapper.get_robot().get_maze(), &maze));
    assert_eq!(wrapper.get_robot().get_location(), Point(0, 0));
}

#[test]
fn each_tick_sends_a_progress_record() {
    let cells = shared(true);
    let mut wrapper: ThreadedControllerWrapper<Straight> = wrapper_on(&cells);
    let (tx, rx) = channel();
    wrapper.set_sender(tx);
    wrapper.set_maze(corridor(4));
    wrapper.start();
    assert_eq!(wrapper.get_state(), EngineState::Running);
    assert!(received(&rx).is_empty());
    assert_eq!(wrapper.tick(), EngineState::Running);
    let records = received(&rx);
    assert_eq!(records.len(), 1);
    assert!(!records[0].finished);
    assert_eq!(records[0].robot_pos, Point(1, 0));
    assert_eq!(records[0].target_loc, Point(3, 0));
    assert_eq!(records[0].robot_head, Heading::East);
    assert!(records[0].maze.is_none());
    let latest = cells.latest.lock().unwrap().clone().unwrap();
    assert_eq!(latest.robot_pos, Point(1, 0));
    assert!(!latest.finished);
    let maze = wrapper.get_robot().get_maze();
    assert_eq!(maze.read().unwrap().get_cell(Point(0, 0)), Some(&Tile::BeenBefore));
    assert_eq!(wrapper.get_robot().get_steps(), 1);
}

#[test]
fn the_run_ends_with_a_finished_record() {
    let cells = shared(true);
    let mut wrapper: ThreadedControllerWrapper<Straight> = wrapper_on(&cells);
    let (tx, rx) = channel();
    wrapper.set_sender(tx);
    wrapper.set_maze(corridor(3));
    wrapper.start();
    assert_eq!(wrapper.tick(), EngineState::Running);
    assert_eq!(wrapper.tick(), EngineState::Finished);
    assert_eq!(wrapper.get_robot().get_location(), Point(2, 0));
    let records = received(&rx);
    assert_eq!(records.len(), 3);
    assert_eq!(records[0].robot_pos, Point(1, 0));
    assert!(!records[0].finished);
    assert_eq!(records[1].robot_pos, Point(2, 0));
    assert!(!records[1].finished);
    assert_eq!(records[2].robot_pos, Point(2, 0));
    assert!(records[2].finished);
    assert!(cells.latest.lock().unwrap().clone().unwrap().finished);
    assert_eq!(wrapper.tick(), EngineState::Finished);
    assert!(received(&rx).is_empty());
    wrapper.reset();
    assert_eq!(wrapper.get_state(), EngineState::Finished);
}

#[test]
fn a_reset_stops_the_run_without_a_finished_record() {
    let cells = shared(true);
    let mut wrapper: ThreadedControllerWrapper<Straight> = wrapper_on(&cells);
    let (tx, rx) = channel();
    wrapper.set_sender(tx);
    wrapper.set_maze(corridor(10));
    wrapper.start();
    assert_eq!(wrapper.tick(), EngineState::Running);
    assert_eq!(wrapper.tick(), EngineState::Running);
    wrapper.reset();
    assert_eq!(wrapper.get_state(), EngineState::Stopped);
    assert!(!*cells.active.lock().unwrap());
    assert_eq!(wrapper.tick(), EngineState::Stopped);
    assert_eq!(wrapper.tick(), EngineState::Stopped);
    assert_eq!(wrapper.get_robot().get_steps(), 2);
    let records = received(&rx);
    assert_eq!(records.len(), 2);
    for record in records {
        assert!(!record.finished);
    }
}

#[test]
fn clearing_the_flag_stops_the_run_at_the_next_tick() {
    let cells = shared(true);
    let mut wrapper: ThreadedControllerWrapper<Straight> = wrapper_on(&cells);
    let (tx, rx) = channel();
    wrapper.set_sender(tx);
    wrapper.set_maze(corridor(10));
    wrapper.start();
    assert_eq!(wrapper.tick(), EngineState::Running);
    *cells.active.lock().unwrap() = false;
    assert_eq!(wrapper.get_state(), EngineState::Running);
    assert_eq!(wrapper.tick(), EngineState::Stopped);
    assert_eq!(wrapper.get_robot().get_location(), Point(1, 0));
    assert_eq!(received(&rx).len(), 1);
    *cells.active.lock().unwrap() = true;
    assert_eq!(wrapper.tick(), EngineState::Stopped);
    wrapper.start();
    assert_eq!(wrapper.tick(), EngineState::Running);
    assert_eq!(wrapper.get_robot().get_location(), Point(2, 0));
}

#[test]
fn a_tick_goes_by_the_flag_it_is_given() {
    let cells = shared(false);
    let mut wrapper: ThreadedControllerWrapper<Straight> = wrapper_on(&cells);
    wrapper.set_maze(corridor(10));
    wrapper.start();
    assert_eq!(wrapper.tick_with(true), EngineState::Running);
    assert_eq!(wrapper.get_robot().get_location(), Point(1, 0));
    assert_eq!(wrapper.tick_with(false), EngineState::Stopped);
    assert_eq!(wrapper.get_robot().get_location(), Point(1, 0));
    assert_eq!(wrapper.tick_with(true), EngineState::Stopped);
}

#[test]
fn a_robot_at_its_goal_finishes_at_the_start() {
    let cells = shared(true);
    let mut wrapper: ThreadedControllerWrapper<Straight> = wrapper_on(&cells);
    let (tx, rx) = channel();
    wrapper.set_sender(tx);
    let mut maze: Maze<Tile> = Maze::new(3, 3);
    maze.set_start(Point(1, 1));
    maze.set_finish(Point(1, 1));
    wrapper.set_maze(maze);
    wrapper.start();
    assert_eq!(wrapper.get_state(), EngineState::Finished);
    let records = received(&rx);
    assert_eq!(records.len(), 1);
    assert!(records[0].finished);
    assert_eq!(records[0].robot_pos, Point(1, 1));
    assert_eq!(records[0].target_loc, Point(1, 1));
}

#[test]
fn a_fresh_controller_has_somewhere_to_go() {
    let cells = shared(true);
    let mut wrapper: ThreadedControllerWrapper<Straight> = wrapper_on(&cells);
    let (tx, rx) = channel();
    wrapper.set_sender(tx);
    wrapper.start();
    assert_eq!(wrapper.get_state(), EngineState::Running);
    assert!(received(&rx).is_empty());
    assert_eq!(wrapper.tick(), EngineState::Running);
    let records = received(&rx);
    assert_eq!(records.len(), 1);
    assert_eq!(records[0].robot_pos, Point(2, 1));
    assert_eq!(records[0].target_loc, Point(0, 0));
}

#[test]
fn the_goal_follows_the_finish_of_the_shared_maze() {
    let cells = shared(false);
    let mut wrapper: ThreadedControllerWrapper<Straight> = wrapper_on(&cells);
    let (tx, rx) = channel();
    wrapper.set_sender(tx);
    let maze = Arc::new(RwLock::new(corridor(6)));
    wrapper.set_maze_ref(maze.clone());
    assert_eq!(wrapper.get_robot().get_goal_location(), Point(5, 0));
    maze.write().unwrap().set_finish(Point(2, 0));
    wrapper.start();
    assert_eq!(wrapper.tick_with(true), EngineState::Running);
    assert_eq!(wrapper.get_robot().get_goal_location(), Point(2, 0));
    assert_eq!(wrapper.tick_with(true), EngineState::Finished);
    assert_eq!(wrapper.get_robot().get_location(), Point(2, 0));
    let records = received(&rx);
    assert_eq!(records.len(), 3);
    assert_eq!(records[0].target_loc, Point(2, 0));
    assert!(records[2].finished);
}

#[test]
fn another_run_begins_at_the_start_of_the_maze() {
    let mut maze: Maze<Tile> = Maze::new(3, 3);
    maze.set_start(Point(0, 1));
    maze.set_finish(Point(2, 1));
    let mut robot = ThreadedRobot::default();
    robot.place_in(&maze);
    robot.advance_in(&mut maze);
    robot.face(Facing::Left);
    robot.advance_in(&mut maze);
    robot.advance_in(&mut maze);
    assert_eq!(robot.get_location(), Point(1, 0));
    assert_eq!(robot.get_steps(), 2);
    assert_eq!(robot.get_collisions(), 1);
    maze.set_finish(Point(2, 2));
    robot.reset_in(&maze);
    assert_eq!(robot.get_location(), Point(0, 1));
    assert_eq!(robot.get_goal_location(), Point(2, 2));
    assert_eq!(robot.get_heading(), Heading::North);
    assert_eq!(robot.get_runs(), 1);
    assert_eq!(robot.get_steps(), 0);
    assert_eq!(robot.get_collisions(), 0);
}

#[test]
fn a_record_is_kept_only_if_the_channel_took_it() {
    let record = ThreadedRobotProgress {
        finished: false,
        robot_pos: Point(2, 3),
        target_loc: Point(4, 4),
        robot_head: Heading::West,
        maze: None,
    };
    assert!(record_to_keep(record.clone(), false).is_none());
    let kept = record_to_keep(record, true).unwrap();
    assert!(!kept.finished);
    assert_eq!(kept.robot_pos, Point(2, 3));
    assert_eq!(kept.target_loc, Point(4, 4));
    assert_eq!(kept.robot_head, Heading::West);
    assert!(kept.maze.is_none());
}

#[test]
fn a_copy_of_a_record_says_the_same() {
    let mut maze: Maze<Tile> = Maze::new(2, 2);
    maze.set_cell(Point(1, 0), Tile::Wall);
    maze.set_finish(Point(1, 1));
    let record = ThreadedRobotProgress {
        finished: true,
        robot_pos: Point(1, 1),
        target_loc: Point(1, 1),
        robot_head: Heading::North,
        maze: Some(maze),
    };
    let copy = record.clone();
    assert!(copy.finished);
    assert_eq!(copy.robot_pos, Point(1, 1));
    assert_eq!(copy.target_loc, Point(1, 1));
    assert_eq!(copy.robot_head, Heading::North);
    let maze = copy.maze.unwrap();
    assert_eq!(maze.get_cell(Point(1, 0)), Some(&Tile::Wall));
    assert_eq!(maze.get_cell(Point(0, 0)), Some(&Tile::Passage));
    assert_eq!(maze.get_finish(), Point(1, 1));
}

#[test]
fn the_threaded_robot_runs_into_a_wall_in_the_maze_it_is_given() {
    let mut maze: Maze<Tile> = Maze::new(3, 3);
    maze.set_start(Point(1, 1));
    maze.set_finish(Point(2, 2));
    maze.set_cell(Point(2, 1), Tile::Wall);
    let mut robot = ThreadedRobot::default();
    robot.place_in(&maze);
    assert_eq!(robot.get_location(), Point(1, 1));
    assert_eq!(robot.get_goal_location(), Point(2, 2));
    robot.advance_in(&mut maze);
    assert_eq!(robot.get_location(), Point(1, 1));
    assert_eq!(robot.get_collisions(), 1);
    assert_eq!(robot.get_steps(), 0);
    assert_eq!(robot.get_heading(), Heading::East);
    assert_eq!(maze.get_cell(Point(1, 1)), Some(&Tile::BeenBefore));
    assert_eq!(maze.get_cell(Point(2, 1)), Some(&Tile::Wall));
}

#[test]
fn the_threaded_robot_steps_into_a_passage_in_the_maze_it_is_given() {
    let mut maze: Maze<Tile> = Maze::new(3, 3);
    maze.set_start(Point(1, 1));
    let mut robot = ThreadedRobot::default();
    robot.place_in(&maze);
    robot.advance_in(&mut maze);
    assert_eq!(robot.get_location(), Point(2, 1));
    assert_eq!(robot.get_steps(), 1);
    assert_eq!(robot.get_collisions(), 0);
    assert_eq!(maze.get_cell(Point(1, 1)), Some(&Tile::BeenBefore));
    assert_eq!(maze.get_cell(Point(2, 1)), Some(&Tile::Passage));
    robot.advance_in(&mut maze);
    assert_eq!(robot.get_location(), Point(2, 1));
    assert_eq!(robot.get_collisions(), 1);
    assert_eq!(maze.get_cell(Point(2, 1)), Some(&Tile::BeenBefore));
    // The robot's own maze is another one and has seen none of this.
    assert_eq!(robot.get_maze().read().unwrap().get_cell(Point(1, 1)), Some(&Tile::Passage));
}

#[test]
fn records_carry_the_maze_when_asked_to() {
    let cells = shared(true);
    let mut wrapper: ThreadedControllerWrapper<Straight> = wrapper_on(&cells);
    let (tx, rx) = channel();
    wrapper.set_sender(tx);
    wrapper.set_snapshots(true);
    wrapper.set_maze(corridor(4));
    wrapper.start();
    wrapper.tick();
    let records = received(&rx);
    assert_eq!(records.len(), 1);
    let maze = records[0].maze.clone().unwrap();
    assert_eq!(maze.get_width(), 4);
    assert_eq!(maze.get_cell(Point(0, 0)), Some(&Tile::BeenBefore));
    assert_eq!(maze.get_cell(Point(1, 0)), Some(&Tile::Passage));
}

#[test]
fn a_record_that_nobody_takes_is_not_kept() {
    let cells = shared(true);
    let mut wrapper: ThreadedControllerWrapper<Straight> = wrapper_on(&cells);
    wrapper.set_maze(corridor(4));
    wrapper.start();
    wrapper.tick();
    assert!(cells.latest.lock().unwrap().is_none());
    let (tx, rx) = channel();
    wrapper.set_sender(tx);
    drop(rx);
    wrapper.tick();
    assert!(cells.latest.lock().unwrap().is_none());
    assert_eq!(wrapper.get_robot().get_steps(), 2);
}

#[test]
fn a_progress_record_shows_the_robot() {
    let cells = shared(true);
    let mut wrapper: ThreadedControllerWrapper<Straight> = wrapper_on(&cells);
    wrapper.set_maze(corridor(4));
    let record = wrapper.progress(true, None);
    assert!(record.finished);
    assert_eq!(record.robot_pos, Point(0, 0));
    assert_eq!(record.target_loc, Point(3, 0));
    assert_eq!(record.robot_head, Heading::East);
    assert!(record.maze.is_none());
}

#[test]
fn the_random_controller_serves_the_threaded_wrapper() {
    let cells = shared(true);
    let mut wrapper: ThreadedControllerWrapper<RandomController> = wrapper_on(&cells);
    let mut maze: Maze<Tile> = Maze::new(3, 3);
    maze.set_start(Point(1, 1));
    maze.set_finish(Point(9, 9));
    wrapper.set_maze(maze);
    wrapper.start();
    for tick in 1..=50 {
        assert_eq!(wrapper.tick(), EngineState::Running);
        let robot = wrapper.get_robot();
        assert_eq!(robot.get_steps() + robot.get_collisions(), tick);
    }
}
