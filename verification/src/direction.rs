//! Relative directions and team-local positions.
//!
//! Every movement the engine decides on is one of four directions
//! relative to the agent's own frame. A position is an `(x, y)` pair in
//! a coordinate system rooted at the agent's start; moving `Front`
//! decreases `y`, moving `Back` increases it, `Right` and `Left` move
//! along `x`.

use vstd::prelude::*;

verus! {

/// A direction relative to the agent's current orientation.
#[derive(Clone, Copy, Debug, PartialEq, Eq, Hash, Structural)]
pub enum RelativeDirection {
    Left,
    Right,
    Front,
    Back,
}

/// The unit step a direction makes along the x axis.
pub open spec fn dx(direction: RelativeDirection) -> int {
    match direction {
        RelativeDirection::Left => -1,
        RelativeDirection::Right => 1,
        RelativeDirection::Front => 0,
        RelativeDirection::Back => 0,
    }
}

/// The unit step a direction makes along the y axis.
pub open spec fn dy(direction: RelativeDirection) -> int {
    match direction {
        RelativeDirection::Left => 0,
        RelativeDirection::Right => 0,
        RelativeDirection::Front => -1,
        RelativeDirection::Back => 1,
    }
}

/// The position one step away from `pos` in the given direction,
/// as unbounded integers.
pub open spec fn stepped(pos: (i32, i32), direction: RelativeDirection) -> (int, int) {
    (pos.0 + dx(direction), pos.1 + dy(direction))
}

/// True when one step from `pos` in the given direction stays inside
/// the `i32` coordinate range, so the move can be computed exactly.
pub open spec fn can_step(pos: (i32, i32), direction: RelativeDirection) -> bool {
    &&& i32::MIN <= pos.0 + dx(direction) <= i32::MAX
    &&& i32::MIN <= pos.1 + dy(direction) <= i32::MAX
}

/// True when every one of the four unit steps from `pos` stays inside
/// the `i32` coordinate range.
pub open spec fn can_step_all(pos: (i32, i32)) -> bool {
    forall|direction: RelativeDirection| can_step(pos, direction)
}

/// An agent's position in its team-local coordinate frame.
#[derive(Clone, Copy, Debug, PartialEq, Eq, Hash, Structural)]
pub struct Position {
    pub x: i32,
    pub y: i32,
}

impl Position {
    /// Moves the position one step in the given direction.
    pub fn update(&mut self, direction: &RelativeDirection)
        requires
            can_step((old(self).x, old(self).y), *direction),
        ensures
            (final(self).x as int, final(self).y as int) == stepped(
                (old(self).x, old(self).y),
                *direction,
            ),
    {
        match direction {
            RelativeDirection::Front => self.y = self.y - 1,
            RelativeDirection::Back => self.y = self.y + 1,
            RelativeDirection::Left => self.x = self.x - 1,
            RelativeDirection::Right => self.x = self.x + 1,
        }
    }
}

} // verus!
