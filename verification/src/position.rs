//! Cells of the grid.

use vstd::prelude::*;
use rand::rngs::StdRng;
use crate::random::draw_below;

verus! {

/// A cell of the grid: column `x` and height `y`.
#[derive(Clone, Copy, Debug, PartialEq, Eq, Structural)]
pub struct Position {
    pub x: usize,
    pub y: usize,
}

impl Position {
    /// Whether this cell lies in a grid of `x_len` by `y_len` cells.
    pub open spec fn within(self, x_len: int, y_len: int) -> bool {
        self.x < x_len && self.y < y_len
    }

    /// A cell drawn from a grid of `x_max` by `y_max` cells.
    pub fn gen_new(rng: &mut StdRng, x_max: usize, y_max: usize) -> (pos: Position)
        requires
            x_max > 0,
            y_max > 0,
        ensures
            pos.within(x_max as int, y_max as int),
    {
        let x: usize = draw_below(rng, x_max);
        let y: usize = draw_below(rng, y_max);
        Position { x, y }
    }
}

} // verus!
