//! A controller that turns the robot at random.

use vstd::prelude::*;
use crate::chance::random_below;
use crate::execution::{Facing, Robot};
use crate::execution::polled_controller::PolledController;

verus! {

/// An example of a controller: on each tick it turns the robot by a turn
/// drawn at random.
pub struct RandomController;

impl Default for RandomController {
    fn default() -> (controller: Self) {
        RandomController {  }
    }
}

/// The turn that stands for a drawn number: 0 is ahead, 1 left, 2 right, and
/// anything else behind.
pub open spec fn drawn_turn(number: usize) -> Facing {
    if number == 0 {
        Facing::Ahead
    } else if number == 1 {
        Facing::Left
    } else if number == 2 {
        Facing::Right
    } else {
        Facing::Behind
    }
}

/// The turn that stands for a drawn number.
pub fn turn_for(number: usize) -> (direction: Facing)
    ensures
        direction == drawn_turn(number),
{
    match number {
        0 => Facing::Ahead,
        1 => Facing::Left,
        2 => Facing::Right,
        _ => Facing::Behind,
    }
}

impl<R: Robot> PolledController<R> for RandomController {
    /// Turns the robot by one of the four turns, drawn from the thread's
    /// random number generator.
    fn control_robot(&mut self, robot: &mut R)
        ensures
            exists|number: usize|
                number < 4 && *final(robot) == old(robot).turned_to(
                    #[trigger] crate::execution::turned(old(robot).heading(), drawn_turn(number)),
                ),
    {
        let mut random_gen = rand::thread_rng();
        let number = random_below(&mut random_gen, 4);
        let direction = turn_for(number);
        proof {
            robot.lemma_turned_to(crate::execution::turned(robot.heading(), direction));
        }
        robot.face(direction);
    }
}

} // verus!
