//! What only a controller wrapper may do to a robot.

use vstd::prelude::*;
use crate::Point;
use crate::generation::Maze;

verus! {

/// Internal methods for a Robot. Implementors must also be
/// of trait Robot.
pub trait Robot: crate::execution::Robot {
    /// Whether the robot's counters leave room for one more advance.
    spec fn roadworthy(&self) -> bool;

    /// Turning the robot does not wear its counters.
    proof fn lemma_turning_keeps_roadworthy(&self, heading: crate::execution::Heading)
        requires
            self.roadworthy(),
        ensures
            self.turned_to(heading).roadworthy(),
    ;

    /// Whether `next` is this robot after one advance.
    spec fn advanced(&self, next: &Self) -> bool;

    /// Whether `next` is this robot after it has been given the maze `maze`:
    /// it stands at the start of the maze and aims for its finish.
    spec fn given(&self, maze: Maze<Self::Tiles>, next: &Self) -> bool;

    /// Set the maze currently being used by the robot
    fn set_maze(&mut self, maze: Box<Maze<Self::Tiles>>)
        ensures
            final(self).roadworthy() == old(self).roadworthy(),
            final(self).location() == maze.start_point(),
            final(self).goal() == maze.finish_point(),
            final(self).heading() == old(self).heading(),
            old(self).given(*maze, final(self)),
    ;

    /// Set the current location of the robot
    fn set_location(&mut self, loc: Point)
        ensures
            final(self).location() == loc,
    ;

    /// Whether the robot can be reset.
    spec fn can_reset(&self) -> bool;

    /// Reset everything
    fn reset(&mut self)
        requires
            old(self).can_reset(),
    ;

    /// Set where the robots target is
    fn set_target_location(&mut self, loc: Point)
        ensures
            final(self).goal() == loc,
    ;

    /// Advance the robot on. Kept out of the public robot trait
    /// to stop an external robot controller calling this at the wrong time.
    fn advance(&mut self)
        requires
            old(self).roadworthy(),
        ensures
            final(self).heading() == old(self).heading(),
            old(self).advanced(final(self)),
    ;
}

} // verus!
