//! The fixed set of senses a creature has.

use vstd::prelude::*;
use crate::error::ConfigError;
use crate::motors::Motor;
use crate::position::Position;
use crate::world::{World, WorldView};

verus! {

/// How many sensors there are.
pub const NUM_SENSORS: usize = 4;

/// A sense: whether the neighbouring cell in one direction is occupied.
#[derive(Clone, Copy, Debug, PartialEq, Eq, Structural)]
pub enum Sensor {
    /// Detects another creature in the up direction.
    Up,
    /// Detects another creature in the down direction.
    Down,
    /// Detects another creature in the left direction.
    Left,
    /// Detects another creature in the right direction.
    Right,
}

impl Sensor {
    /// The sensor with the given id, if there is one.
    pub open spec fn with_id(num: int) -> Option<Sensor> {
        if num == 0 {
            Some(Sensor::Up)
        } else if num == 1 {
            Some(Sensor::Down)
        } else if num == 2 {
            Some(Sensor::Left)
        } else if num == 3 {
            Some(Sensor::Right)
        } else {
            None
        }
    }

    /// The id of this sensor: its column in the matrix of sensor weights.
    pub open spec fn id(self) -> int {
        match self {
            Sensor::Up => 0,
            Sensor::Down => 1,
            Sensor::Left => 2,
            Sensor::Right => 3,
        }
    }

    /// The motor that moves a creature the way this sensor looks.
    pub open spec fn direction(self) -> Motor {
        match self {
            Sensor::Up => Motor::Up,
            Sensor::Down => Motor::Down,
            Sensor::Left => Motor::Left,
            Sensor::Right => Motor::Right,
        }
    }

    /// What this sensor reads at `pos`: 1 where the neighbouring cell in its
    /// direction lies inside the grid and is occupied, else 0.
    pub open spec fn reading(self, world: WorldView, pos: Position) -> int {
        match self.direction().target_of(pos, world.x_len as int, world.y_len as int) {
            Some(neighbour) => if world.occupied(neighbour) {
                1
            } else {
                0
            },
            None => 0,
        }
    }

    /// The sensor with id `num`; ids outside the fixed set are refused.
    pub fn new(num: u8) -> (r: Result<Sensor, ConfigError>)
        ensures
            r == match Sensor::with_id(num as int) {
                Some(s) => Ok::<Sensor, ConfigError>(s),
                None => Err(ConfigError::SensorId),
            },
    {
        match num {
            0 => Ok(Sensor::Up),
            1 => Ok(Sensor::Down),
            2 => Ok(Sensor::Left),
            3 => Ok(Sensor::Right),
            _ => Err(ConfigError::SensorId),
        }
    }

    /// The id of this sensor.
    pub fn get_id(&self) -> (id: usize)
        ensures
            id == self.id(),
            id < NUM_SENSORS,
    {
        match self {
            Sensor::Up => 0,
            Sensor::Down => 1,
            Sensor::Left => 2,
            Sensor::Right => 3,
        }
    }
}

impl Sensor {
    /// The motor that moves a creature the way this sensor looks.
    pub fn facing(&self) -> (motor: Motor)
        ensures
            motor == self.direction(),
    {
        match self {
            Sensor::Up => Motor::Up,
            Sensor::Down => Motor::Down,
            Sensor::Left => Motor::Left,
            Sensor::Right => Motor::Right,
        }
    }

    /// The function that gives what this sensor reads: it takes a world
    /// that is a grid and a cell of it.
    pub fn get_fun(&self) -> (fun: impl Fn(&World, Position) -> u8)
        ensures
            forall|world: &World, pos: Position|
                world.is_grid() && pos.within(world.x_len as int, world.y_len as int)
                    ==> call_requires(fun, (world, pos)),
            forall|world: &World, pos: Position, a: u8|
                call_ensures(fun, (world, pos), a) ==> a == self.reading(world@, pos),
    {
        let sensor = *self;
        move |world: &World, pos: Position| -> (a: u8)
            requires
                world.is_grid(),
                pos.within(world.x_len as int, world.y_len as int),
            ensures
                a == sensor.reading(world@, pos),
            { sensor.activation(world, pos) }
    }

    /// What this sensor reads at `pos`.
    pub fn activation(&self, world: &World, pos: Position) -> (a: u8)
        requires
            world.is_grid(),
            pos.within(world.x_len as int, world.y_len as int),
        ensures
            a == self.reading(world@, pos),
    {
        match self {
            Sensor::Up => up_activation(world, pos),
            Sensor::Down => down_activation(world, pos),
            Sensor::Left => left_activation(world, pos),
            Sensor::Right => right_activation(world, pos),
        }
    }
}

/// What all sensors read at `pos`, by sensor id.
pub open spec fn readings(world: WorldView, pos: Position) -> Seq<int> {
    Seq::new(
        NUM_SENSORS as nat,
        |id: int|
            match Sensor::with_id(id) {
                Some(sensor) => sensor.reading(world, pos),
                None => 0,
            },
    )
}

/// 1 where the cell above `pos` is occupied; 0 where it is empty or `pos`
/// is in the top row.
pub fn up_activation(world: &World, pos: Position) -> (a: u8)
    requires
        world.is_grid(),
        pos.within(world.x_len as int, world.y_len as int),
    ensures
        a == Sensor::Up.reading(world@, pos),
        a == 1 <==> pos.y + 1 < world.y_len && world@.occupied(
            Position { x: pos.x, y: (pos.y + 1) as usize },
        ),
        a == 0 || a == 1,
{
    if pos.y == world.y_len - 1 {
        return 0;
    }
    if world.locs[pos.x][pos.y + 1].is_none() {
        0
    } else {
        1
    }
}

/// 1 where the cell below `pos` is occupied; 0 where it is empty or `pos`
/// is in the bottom row.
pub fn down_activation(world: &World, pos: Position) -> (a: u8)
    requires
        world.is_grid(),
        pos.within(world.x_len as int, world.y_len as int),
    ensures
        a == Sensor::Down.reading(world@, pos),
        a == 1 <==> pos.y >= 1 && world@.occupied(Position { x: pos.x, y: (pos.y - 1) as usize }),
        a == 0 || a == 1,
{
    if pos.y == 0 {
        return 0;
    }
    if world.locs[pos.x][pos.y - 1].is_none() {
        0
    } else {
        1
    }
}

/// 1 where the cell to the left of `pos` is occupied; 0 where it is empty
/// or `pos` is in the leftmost column.
pub fn left_activation(world: &World, pos: Position) -> (a: u8)
    requires
        world.is_grid(),
        pos.within(world.x_len as int, world.y_len as int),
    ensures
        a == Sensor::Left.reading(world@, pos),
        a == 1 <==> pos.x >= 1 && world@.occupied(Position { x: (pos.x - 1) as usize, y: pos.y }),
        a == 0 || a == 1,
{
    if pos.x == 0 {
        return 0;
    }
    if world.locs[pos.x - 1][pos.y].is_none() {
        0
    } else {
        1
    }
}

/// 1 where the cell to the right of `pos` is occupied; 0 where it is empty
/// or `pos` is in the rightmost column.
pub fn right_activation(world: &World, pos: Position) -> (a: u8)
    requires
        world.is_grid(),
        pos.within(world.x_len as int, world.y_len as int),
    ensures
        a == Sensor::Right.reading(world@, pos),
        a == 1 <==> pos.x + 1 < world.x_len && world@.occupied(
            Position { x: (pos.x + 1) as usize, y: pos.y },
        ),
        a == 0 || a == 1,
{
    if pos.x == world.x_len - 1 {
        return 0;
    }
    if world.locs[pos.x + 1][pos.y].is_none() {
        0
    } else {
        1
    }
}

/// At the edge of the grid a sensor that looks outward reads 0, whoever
/// lives elsewhere.
pub proof fn edge_sensors_read_zero(world: WorldView, pos: Position)
    requires
        pos.within(world.x_len as int, world.y_len as int),
    ensures
        pos.x == 0 ==> Sensor::Left.reading(world, pos) == 0,
        pos.y == 0 ==> Sensor::Down.reading(world, pos) == 0,
        pos.x == world.x_len - 1 ==> Sensor::Right.reading(world, pos) == 0,
        pos.y == world.y_len - 1 ==> Sensor::Up.reading(world, pos) == 0,
{
}

/// Every sensor is the one that its own id names, and every id below
/// `NUM_SENSORS` names a sensor with that id.
pub proof fn sensor_ids_round_trip(s: Sensor, num: int)
    ensures
        Sensor::with_id(s.id()) == Some(s),
        0 <= num < NUM_SENSORS ==> Sensor::with_id(num) is Some && Sensor::with_id(num).unwrap().id()
            == num,
        !(0 <= num < NUM_SENSORS) ==> Sensor::with_id(num) is None,
{
}

} // verus!
