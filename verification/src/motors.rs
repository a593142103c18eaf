//! The fixed set of actions a creature can take.

use vstd::prelude::*;
use crate::error::ConfigError;
use crate::position::Position;

verus! {

/// How many motors there are.
pub const NUM_MOTORS: usize = 4;

/// The action a creature takes in one tick.
#[derive(Clone, Copy, Debug, PartialEq, Eq, Structural)]
pub enum Motor {
    /// Moves the creature up: `y` grows by one.
    Up,
    /// Moves the creature down: `y` shrinks by one.
    Down,
    /// Moves the creature left: `x` shrinks by one.
    Left,
    /// Moves the creature right: `x` grows by one.
    Right,
}

impl Motor {
    /// The motor with the given id, if there is one.
    pub open spec fn with_id(num: int) -> Option<Motor> {
        if num == 0 {
            Some(Motor::Up)
        } else if num == 1 {
            Some(Motor::Down)
        } else if num == 2 {
            Some(Motor::Left)
        } else if num == 3 {
            Some(Motor::Right)
        } else {
            None
        }
    }

    /// The id of this motor: its row in the matrix of motor weights.
    pub open spec fn id(self) -> int {
        match self {
            Motor::Up => 0,
            Motor::Down => 1,
            Motor::Left => 2,
            Motor::Right => 3,
        }
    }

    /// The cell this motor leads to from `pos` in a grid of `x_len` by
    /// `y_len` cells, or `None` where that cell would lie outside the grid.
    pub open spec fn target_of(self, pos: Position, x_len: int, y_len: int) -> Option<Position> {
        match self {
            Motor::Up => if pos.y + 1 < y_len {
                Some(Position { x: pos.x, y: (pos.y + 1) as usize })
            } else {
                None
            },
            Motor::Down => if pos.y >= 1 {
                Some(Position { x: pos.x, y: (pos.y - 1) as usize })
            } else {
                None
            },
            Motor::Left => if pos.x >= 1 {
                Some(Position { x: (pos.x - 1) as usize, y: pos.y })
            } else {
                None
            },
            Motor::Right => if pos.x + 1 < x_len {
                Some(Position { x: (pos.x + 1) as usize, y: pos.y })
            } else {
                None
            },
        }
    }

    /// The motor with id `num`; ids outside the fixed set are refused.
    pub fn new(num: u8) -> (r: Result<Motor, ConfigError>)
        ensures
            r == match Motor::with_id(num as int) {
                Some(m) => Ok::<Motor, ConfigError>(m),
                None => Err(ConfigError::MotorId),
            },
    {
        match num {
            0 => Ok(Motor::Up),
            1 => Ok(Motor::Down),
            2 => Ok(Motor::Left),
            3 => Ok(Motor::Right),
            _ => Err(ConfigError::MotorId),
        }
    }

    /// The id of this motor.
    pub fn get_id(&self) -> (id: usize)
        ensures
            id == self.id(),
            id < NUM_MOTORS,
    {
        match self {
            Motor::Up => 0,
            Motor::Down => 1,
            Motor::Left => 2,
            Motor::Right => 3,
        }
    }

    /// The cell this motor leads to from `pos`, if it lies inside a grid of
    /// `x_len` by `y_len` cells.
    pub fn target(&self, pos: Position, x_len: usize, y_len: usize) -> (t: Option<Position>)
        ensures
            t == self.target_of(pos, x_len as int, y_len as int),
    {
        match self {
            Motor::Up => if pos.y < usize::MAX && pos.y + 1 < y_len {
                Some(Position { x: pos.x, y: pos.y + 1 })
            } else {
                None
            },
            Motor::Down => if pos.y >= 1 {
                Some(Position { x: pos.x, y: pos.y - 1 })
            } else {
                None
            },
            Motor::Left => if pos.x >= 1 {
                Some(Position { x: pos.x - 1, y: pos.y })
            } else {
                None
            },
            Motor::Right => if pos.x < usize::MAX && pos.x + 1 < x_len {
                Some(Position { x: pos.x + 1, y: pos.y })
            } else {
                None
            },
        }
    }
}

/// Every motor is the one that its own id names, and every id below
/// `NUM_MOTORS` names a motor with that id.
pub proof fn motor_ids_round_trip(m: Motor, num: int)
    ensures
        Motor::with_id(m.id()) == Some(m),
        0 <= num < NUM_MOTORS ==> Motor::with_id(num) is Some && Motor::with_id(num).unwrap().id()
            == num,
        !(0 <= num < NUM_MOTORS) ==> Motor::with_id(num) is None,
{
}

} // verus!
