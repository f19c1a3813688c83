use robot_maze::execution::polled_controller::{PolledController, PolledControllerWrapper};
use robot_maze::execution::random_controller::{turn_for, RandomController};
use robot_maze::execution::robot::DefaultRobot;
use robot_maze::execution::{step_ahead, tile_seen, try_step};
use robot_maze::execution::{
    Controller, EngineState, Facing, Heading, Robot, RobotStatistics, Tile, TileType,
};
use robot_maze::generation::actual_prim_generator::GappedPrimGenerator;
use robot_maze::generation::{Generator, Maze};
use robot_maze::{GeneratorOptions, Point};

/// A controller that always goes straight on.
#[derive(Default)]
struct Straight;

impl<R: Robot> PolledController<R> for Straight {
    fn control_robot(&mut self, robot: &mut R) {
        robot.face(Facing::Ahead);
    }
}

/// A controller that turns the robot about on every tick.
#[derive(Default)]
struct TurnAbout;

impl<R: Robot> PolledController<R> for TurnAbout {
    fn control_robot(&mut self, robot: &mut R) {
        robot.face(Facing::Behind);
    }
}

/// A controller that plays a list of turns, one per tick, and then goes
/// straight on.
#[derive(Default)]
struct Script {
    turns: Vec<Facing>,
    played: usize,
}

impl<R: Robot> PolledController<R> for Script {
    fn control_robot(&mut self, robot: &mut R) {
        if self.played < self.turns.len() {
            robot.face(self.turns[self.played]);
            self.played += 1;
        }
    }
}

/// A controller that keeps its right hand on the wall.
#[derive(Default)]
struct RightHand;

impl PolledController<DefaultRobot> for RightHand {
    fn control_robot(&mut self, robot: &mut DefaultRobot) {
        for face in [Facing::Right, Facing::Ahead, Facing::Left, Facing::Behind] {
            if robot.look(face).can_walk() {
                robot.face(face);
                return;
            }
        }
    }
}

/// A controller that does nothing and has no description of its own.
#[derive(Default)]
struct Nameless {
    robot: DefaultRobot,
    delay: i32,
}

impl Controller<DefaultRobot, Tile> for Nameless {
    fn set_robot(&mut self, robot: DefaultRobot) {
        self.robot = robot;
    }

    fn get_robot(&self) -> &DefaultRobot {
        &self.robot
    }

    fn set_maze(&mut self, _maze: Maze<Tile>) {}

    fn start(&mut self) {}

    fn reset(&mut self) {}

    fn set_delay(&mut self, delay: i32) {
        self.delay = delay;
    }

    fn get_delay(&self) -> i32 {
        self.delay
    }

    fn get_name(&self) -> &str {
        "Nameless"
    }
}

/// A robot that only turns on the spot and keeps no statistics.
#[derive(Default)]
struct Weathercock {
    heading: Option<Heading>,
}

impl Robot for Weathercock {
    type Tiles = Tile;

    fn heading(&self) -> Heading {
        self.get_heading()
    }

    fn location(&self) -> Point {
        self.get_location()
    }

    fn goal(&self) -> Point {
        self.get_goal_location()
    }

    fn turned_to(&self, heading: Heading) -> Self {
        Weathercock { heading: Some(heading) }
    }

    fn lemma_turned_to(&self, _heading: Heading) {}

    fn lemma_turned_twice(&self, _first: Heading, _second: Heading) {}

    fn look(&self, _face: Facing) -> Tile {
        Tile::Wall
    }

    fn face(&mut self, face: Facing) {
        self.heading = Some(self.get_heading().augment_heading(face));
    }

    fn set_heading(&mut self, heading: Heading) {
        self.heading = Some(heading);
    }

    fn get_heading(&self) -> Heading {
        self.heading.unwrap_or(Heading::North)
    }

    fn get_goal_location(&self) -> Point {
        Point(0, 0)
    }

    fn get_location(&self) -> Point {
        Point(0, 0)
    }
}

/// Three rows of three cells; `walls` are set to wall.
fn small_maze(start: Point, finish: Point, walls: &[Point]) -> Maze<Tile> {
    let mut maze: Maze<Tile> = Maze::new(3, 3);
    maze.set_start(start);
    maze.set_finish(finish);
    for wall in walls {
        maze.set_cell(*wall, Tile::Wall);
    }
    maze
}

fn started<P: PolledController<DefaultRobot>>(
    controller: P,
    maze: Maze<Tile>,
) -> PolledControllerWrapper<DefaultRobot, P> {
    let mut wrapper = PolledControllerWrapper::with_controller(controller);
    wrapper.set_maze(maze);
    wrapper.start();
    wrapper
}

#[test]
fn four_lefts_or_rights_and_two_turns_about_come_round() {
    for heading in [Heading::North, Heading::East, Heading::South, Heading::West] {
        let mut left = heading;
        let mut right = heading;
        for _ in 0..4 {
            left = left.augment_heading(Facing::Left);
            right = right.augment_heading(Facing::Right);
        }
        assert_eq!(left, heading);
        assert_eq!(right, heading);
        let about = heading.augment_heading(Facing::Behind).augment_heading(Facing::Behind);
        assert_eq!(about, heading);
        assert_eq!(heading.augment_heading(Facing::Ahead), heading);
    }
}

#[test]
fn turns_follow_the_compass() {
    assert_eq!(Heading::North.augment_heading(Facing::Right), Heading::East);
    assert_eq!(Heading::East.augment_heading(Facing::Right), Heading::South);
    assert_eq!(Heading::South.augment_heading(Facing::Right), Heading::West);
    assert_eq!(Heading::West.augment_heading(Facing::Right), Heading::North);
    assert_eq!(Heading::North.augment_heading(Facing::Left), Heading::West);
    assert_eq!(Heading::West.augment_heading(Facing::Left), Heading::South);
    assert_eq!(Heading::South.augment_heading(Facing::Left), Heading::East);
    assert_eq!(Heading::East.augment_heading(Facing::Left), Heading::North);
    assert_eq!(Heading::North.augment_heading(Facing::Behind), Heading::South);
    assert_eq!(Heading::East.augment_heading(Facing::Behind), Heading::West);
    assert_eq!(Heading::South.augment_heading(Facing::Behind), Heading::North);
    assert_eq!(Heading::West.augment_heading(Facing::Behind), Heading::East);
}

#[test]
fn headings_and_facings_come_from_numbers() {
    assert_eq!(Heading::from(1000), Heading::North);
    assert_eq!(Heading::from(1001), Heading::East);
    assert_eq!(Heading::from(1002), Heading::South);
    assert_eq!(Heading::from(1003), Heading::West);
    assert_eq!(Heading::from(0), Heading::West);
    assert_eq!(Facing::from(0), Facing::Ahead);
    assert_eq!(Facing::from(1), Facing::Right);
    assert_eq!(Facing::from(2), Facing::Behind);
    assert_eq!(Facing::from(3), Facing::Left);
    assert_eq!(Facing::from(-1), Facing::Left);
}

#[test]
fn only_walls_block() {
    assert!(Tile::Wall.is_wall());
    assert!(!Tile::Wall.can_walk());
    assert!(!Tile::Passage.is_wall());
    assert!(Tile::Passage.can_walk());
    assert!(Tile::BeenBefore.can_walk());
    assert_eq!(Tile::default(), Tile::Passage);
}

#[test]
fn statistics_keep_what_is_set() {
    let mut statistics = RobotStatistics::default();
    assert_eq!(statistics.get_steps(), 0);
    assert_eq!(statistics.get_collisions(), 0);
    assert!(!statistics.goal_reached());
    assert_eq!(statistics.get_run_number(), 0);
    statistics.set_steps(12);
    statistics.set_collision(3);
    statistics.set_goal_reached(true);
    statistics.set_run_number(2);
    assert_eq!(statistics.get_steps(), 12);
    assert_eq!(statistics.get_collisions(), 3);
    assert!(statistics.goal_reached());
    assert_eq!(statistics.get_run_number(), 2);
}

#[test]
fn a_step_ahead_stops_at_the_edge_of_the_numbers() {
    assert_eq!(step_ahead(Point(4, 4), Heading::North), Some(Point(4, 3)));
    assert_eq!(step_ahead(Point(4, 4), Heading::East), Some(Point(5, 4)));
    assert_eq!(step_ahead(Point(4, 4), Heading::South), Some(Point(4, 5)));
    assert_eq!(step_ahead(Point(4, 4), Heading::West), Some(Point(3, 4)));
    assert_eq!(step_ahead(Point(4, 0), Heading::North), None);
    assert_eq!(step_ahead(Point(0, 4), Heading::West), None);
    assert_eq!(step_ahead(Point(usize::MAX, 4), Heading::East), None);
    assert_eq!(step_ahead(Point(4, usize::MAX), Heading::South), None);
}

#[test]
fn beyond_the_maze_there_is_wall() {
    let maze = small_maze(Point(0, 0), Point(2, 2), &[Point(1, 0)]);
    assert_eq!(tile_seen(&maze, Point(0, 0), Heading::North), Tile::Wall);
    assert_eq!(tile_seen(&maze, Point(0, 0), Heading::West), Tile::Wall);
    assert_eq!(tile_seen(&maze, Point(0, 0), Heading::East), Tile::Wall);
    assert_eq!(tile_seen(&maze, Point(0, 0), Heading::South), Tile::Passage);
    assert_eq!(tile_seen(&maze, Point(2, 2), Heading::East), Tile::Wall);
    assert_eq!(tile_seen(&maze, Point(2, 2), Heading::South), Tile::Wall);
}

#[test]
fn a_step_marks_the_cell_that_is_left() {
    let mut maze = small_maze(Point(0, 0), Point(2, 2), &[Point(1, 0)]);
    assert_eq!(try_step(&mut maze, Point(0, 0), Heading::South), Some(Point(0, 1)));
    assert_eq!(maze.get_cell(Point(0, 0)), Some(&Tile::BeenBefore));
    assert_eq!(try_step(&mut maze, Point(0, 1), Heading::North), Some(Point(0, 0)));
    assert_eq!(maze.get_cell(Point(0, 1)), Some(&Tile::BeenBefore));
    assert_eq!(try_step(&mut maze, Point(0, 0), Heading::East), None);
    assert_eq!(try_step(&mut maze, Point(0, 0), Heading::West), None);
    assert_eq!(maze.get_cell(Point(1, 0)), Some(&Tile::Wall));
}

#[test]
fn a_robot_without_statistics_reports_none() {
    let mut robot = Weathercock::default();
    robot.face(Facing::Right);
    assert_eq!(robot.get_heading(), Heading::East);
    assert_eq!(robot.get_runs(), 0);
    assert_eq!(robot.get_steps(), 0);
    assert_eq!(robot.get_collisions(), 0);
}

#[test]
fn a_controller_without_a_description_is_a_robot_controller() {
    let controller = Nameless::default();
    assert_eq!(controller.get_name(), "Nameless");
    assert_eq!(controller.get_description(), "A robot controller");
    assert_eq!(controller.get_delay(), 0);
    assert_eq!(controller.get_robot().get_steps(), 0);
}

#[test]
fn the_default_robot_faces_south_at_one_one() {
    let robot = DefaultRobot::default();
    assert_eq!(robot.get_location(), Point(1, 1));
    assert_eq!(robot.get_goal_location(), Point(0, 0));
    assert_eq!(robot.get_heading(), Heading::South);
    assert_eq!(robot.get_steps(), 0);
    assert_eq!(robot.get_collisions(), 0);
    assert_eq!(robot.get_runs(), 0);
    assert_eq!(robot.get_maze().get_width(), 0);
    assert_eq!(robot.get_maze().get_height(), 0);
    assert_eq!(robot.look(Facing::Ahead), Tile::Wall);
}

#[test]
fn the_robot_turns_without_moving() {
    let mut robot = DefaultRobot::default();
    robot.face(Facing::Left);
    assert_eq!(robot.get_heading(), Heading::East);
    robot.face(Facing::Behind);
    assert_eq!(robot.get_heading(), Heading::West);
    robot.set_heading(Heading::North);
    assert_eq!(robot.get_heading(), Heading::North);
    assert_eq!(robot.get_location(), Point(1, 1));
    assert_eq!(robot.get_steps(), 0);
    assert_eq!(robot.get_collisions(), 0);
}

#[test]
fn a_wall_ahead_is_a_collision() {
    let maze = small_maze(Point(1, 1), Point(2, 2), &[Point(1, 2)]);
    let mut wrapper = started(Straight, maze);
    assert_eq!(wrapper.get_robot().get_heading(), Heading::South);
    assert_eq!(wrapper.get_robot().look(Facing::Ahead), Tile::Wall);
    assert_eq!(wrapper.tick(), EngineState::Running);
    let robot = wrapper.get_robot();
    assert_eq!(robot.get_collisions(), 1);
    assert_eq!(robot.get_steps(), 0);
    assert_eq!(robot.get_location(), Point(1, 1));
    assert_eq!(robot.get_heading(), Heading::South);
    assert_eq!(robot.get_maze().get_cell(Point(1, 1)), Some(&Tile::BeenBefore));
    assert_eq!(robot.get_maze().get_cell(Point(1, 2)), Some(&Tile::Wall));
}

#[test]
fn the_edge_of_the_maze_is_a_collision() {
    let maze = small_maze(Point(1, 2), Point(0, 0), &[]);
    let mut wrapper = started(Straight, maze);
    assert_eq!(wrapper.tick(), EngineState::Running);
    let robot = wrapper.get_robot();
    assert_eq!(robot.get_collisions(), 1);
    assert_eq!(robot.get_steps(), 0);
    assert_eq!(robot.get_location(), Point(1, 2));
    assert_eq!(robot.get_maze().get_cell(Point(1, 2)), Some(&Tile::BeenBefore));
}

#[test]
fn the_top_of_the_maze_is_a_collision() {
    let maze = small_maze(Point(0, 0), Point(2, 2), &[]);
    let mut wrapper = started(Script { turns: vec![Facing::Behind, Facing::Left], played: 0 }, maze);
    assert_eq!(wrapper.tick(), EngineState::Running);
    assert_eq!(wrapper.get_robot().get_heading(), Heading::North);
    assert_eq!(wrapper.get_robot().get_collisions(), 1);
    assert_eq!(wrapper.get_robot().get_location(), Point(0, 0));
    assert_eq!(wrapper.tick(), EngineState::Running);
    assert_eq!(wrapper.get_robot().get_heading(), Heading::West);
    assert_eq!(wrapper.get_robot().get_collisions(), 2);
    assert_eq!(wrapper.get_robot().get_steps(), 0);
    assert_eq!(wrapper.get_robot().get_location(), Point(0, 0));
}

#[test]
fn a_free_cell_ahead_is_a_step() {
    let maze = small_maze(Point(1, 0), Point(0, 0), &[]);
    let mut wrapper = started(Straight, maze);
    assert_eq!(wrapper.tick(), EngineState::Running);
    let robot = wrapper.get_robot();
    assert_eq!(robot.get_steps(), 1);
    assert_eq!(robot.get_collisions(), 0);
    assert_eq!(robot.get_location(), Point(1, 1));
    assert_eq!(robot.get_maze().get_cell(Point(1, 0)), Some(&Tile::BeenBefore));
    assert_eq!(robot.get_maze().get_cell(Point(1, 1)), Some(&Tile::Passage));
}

#[test]
fn a_visited_cell_can_be_entered_again() {
    let maze = small_maze(Point(1, 0), Point(0, 0), &[]);
    let mut wrapper = started(TurnAbout, maze);
    wrapper.tick();
    assert_eq!(wrapper.get_robot().get_collisions(), 1);
    assert_eq!(wrapper.get_robot().get_location(), Point(1, 0));
    wrapper.tick();
    assert_eq!(wrapper.get_robot().get_location(), Point(1, 1));
    wrapper.tick();
    assert_eq!(wrapper.get_robot().get_location(), Point(1, 0));
    assert_eq!(wrapper.get_robot().look(Facing::Behind), Tile::BeenBefore);
    wrapper.tick();
    let robot = wrapper.get_robot();
    assert_eq!(robot.get_location(), Point(1, 1));
    assert_eq!(robot.get_steps(), 3);
    assert_eq!(robot.get_collisions(), 1);
    assert_eq!(robot.get_maze().get_cell(Point(1, 0)), Some(&Tile::BeenBefore));
}

#[test]
fn the_robot_looks_round_itself() {
    let maze = small_maze(Point(1, 1), Point(0, 0), &[Point(0, 1), Point(1, 2)]);
    let wrapper = started(Straight, maze);
    let robot = wrapper.get_robot();
    assert_eq!(robot.look(Facing::Ahead), Tile::Wall);
    assert_eq!(robot.look(Facing::Right), Tile::Wall);
    assert_eq!(robot.look(Facing::Left), Tile::Passage);
    assert_eq!(robot.look(Facing::Behind), Tile::Passage);
    assert_eq!(robot.get_heading(), Heading::South);
}

#[test]
fn a_new_controller_is_idle() {
    let mut wrapper: PolledControllerWrapper<DefaultRobot, Straight> = PolledControllerWrapper::new();
    assert_eq!(wrapper.get_state(), EngineState::Idle);
    assert_eq!(wrapper.get_delay(), 0);
    assert_eq!(wrapper.get_name(), "Robot Controller");
    assert_eq!(wrapper.get_description(), "A Polled Robot Controller");
    assert_eq!(wrapper.tick(), EngineState::Idle);
    assert_eq!(wrapper.get_robot().get_steps(), 0);
    assert_eq!(wrapper.get_robot().get_collisions(), 0);
    wrapper.reset();
    assert_eq!(wrapper.get_state(), EngineState::Idle);
    wrapper.set_delay(25);
    assert_eq!(wrapper.get_delay(), 25);
}

#[test]
fn setting_a_maze_puts_the_robot_at_its_start() {
    let mut wrapper: PolledControllerWrapper<DefaultRobot, Straight> = PolledControllerWrapper::new();
    wrapper.set_maze(small_maze(Point(2, 1), Point(0, 2), &[]));
    assert_eq!(wrapper.get_robot().get_location(), Point(2, 1));
    assert_eq!(wrapper.get_robot().get_goal_location(), Point(0, 2));
    assert_eq!(wrapper.get_robot().get_maze().get_width(), 3);
    assert_eq!(wrapper.get_state(), EngineState::Idle);
}

#[test]
fn setting_a_robot_replaces_it() {
    let mut wrapper = started(Straight, small_maze(Point(1, 0), Point(0, 0), &[]));
    wrapper.tick();
    assert_eq!(wrapper.get_robot().get_steps(), 1);
    wrapper.set_robot(DefaultRobot::default());
    assert_eq!(wrapper.get_robot().get_steps(), 0);
    assert_eq!(wrapper.get_robot().get_location(), Point(1, 1));
    assert_eq!(wrapper.get_state(), EngineState::Running);
}

#[test]
fn a_reset_stops_a_running_controller() {
    let mut wrapper = started(Straight, small_maze(Point(1, 0), Point(0, 0), &[]));
    assert_eq!(wrapper.get_state(), EngineState::Running);
    wrapper.tick();
    wrapper.reset();
    assert_eq!(wrapper.get_state(), EngineState::Stopped);
    assert_eq!(wrapper.tick(), EngineState::Stopped);
    assert_eq!(wrapper.get_robot().get_steps(), 1);
    assert_eq!(wrapper.get_robot().get_location(), Point(1, 1));
    wrapper.start();
    assert_eq!(wrapper.tick(), EngineState::Running);
    assert_eq!(wrapper.get_robot().get_steps(), 2);
}

#[test]
fn the_run_finishes_at_the_goal() {
    let mut wrapper = started(Straight, small_maze(Point(1, 0), Point(1, 2), &[]));
    assert_eq!(wrapper.tick(), EngineState::Running);
    assert_eq!(wrapper.tick(), EngineState::Finished);
    assert_eq!(wrapper.get_robot().get_location(), Point(1, 2));
    assert_eq!(wrapper.get_robot().get_steps(), 2);
    assert_eq!(wrapper.tick(), EngineState::Finished);
    assert_eq!(wrapper.get_robot().get_steps(), 2);
    wrapper.reset();
    assert_eq!(wrapper.get_state(), EngineState::Finished);
}

#[test]
fn a_robot_at_its_goal_has_nothing_to_run() {
    let wrapper = started(Straight, small_maze(Point(1, 1), Point(1, 1), &[]));
    assert_eq!(wrapper.get_state(), EngineState::Finished);
}

#[test]
fn a_wall_follower_reaches_the_goal() {
    let mut generator = GappedPrimGenerator::new();
    generator.set_options(GeneratorOptions { width: 6, height: 5 });
    let mut maze = generator.generate_maze();
    maze.set_start(Point(1, 1));
    maze.set_finish(Point(11, 9));
    let mut wrapper = started(RightHand, maze);
    let mut ticks = 0;
    while wrapper.get_state() == EngineState::Running && ticks < 100_000 {
        wrapper.tick();
        ticks += 1;
    }
    assert_eq!(wrapper.get_state(), EngineState::Finished);
    assert_eq!(wrapper.get_robot().get_location(), Point(11, 9));
    assert_eq!(wrapper.get_robot().get_location(), wrapper.get_robot().get_goal_location());
    assert_eq!(wrapper.get_robot().get_collisions(), 0);
    assert_eq!(wrapper.get_robot().get_steps(), ticks);
}

#[test]
fn drawn_numbers_stand_for_turns() {
    assert_eq!(turn_for(0), Facing::Ahead);
    assert_eq!(turn_for(1), Facing::Left);
    assert_eq!(turn_for(2), Facing::Right);
    assert_eq!(turn_for(3), Facing::Behind);
    assert_eq!(turn_for(17), Facing::Behind);
}

#[test]
fn the_random_controller_turns_and_the_robot_advances() {
    let mut wrapper = started(RandomController::default(), small_maze(Point(1, 1), Point(9, 9), &[]));
    for tick in 1..=50 {
        assert_eq!(wrapper.tick(), EngineState::Running);
        let robot = wrapper.get_robot();
        assert_eq!(robot.get_steps() + robot.get_collisions(), tick);
        assert!(robot.get_location().get_x() < 3);
        assert!(robot.get_location().get_y() < 3);
    }
}
