//! Counting the cells of a grid in scan order.
//!
//! The scan visits the columns from left to right and each column from the
//! bottom up: the cell in column `x` at height `y` comes before every cell
//! of a later column, and before the cells above it in its own column.

use vstd::prelude::*;
use vstd::set_lib::lemma_len_subset;
use crate::position::Position;

verus! {

/// All cells of a grid of `x_len` by `y_len` cells.
pub open spec fn grid_cells(x_len: nat, y_len: nat) -> Set<Position> {
    Set::new(|p: Position| p.within(x_len as int, y_len as int))
}

/// Whether `p` comes before column `x`, height `y` in scan order.
pub open spec fn comes_before(p: Position, x: nat, y: nat) -> bool {
    p.x < x || (p.x == x && p.y < y)
}

/// The cells of the grid that come before column `x`, height `y` in scan
/// order.
pub open spec fn cells_before(x_len: nat, y_len: nat, x: nat, y: nat) -> Set<Position> {
    Set::new(|p: Position| p.within(x_len as int, y_len as int) && comes_before(p, x, y))
}

/// Whole columns hold `y_len` cells each.
proof fn one_more_column(x: nat, y_len: nat)
    by (nonlinear_arith)
    requires
        x > 0,
    ensures
        (x - 1) * y_len + y_len == x * y_len,
{
}

/// Before column `x`, height `y` come `x` whole columns and `y` cells more.
pub proof fn cells_before_count(x_len: nat, y_len: nat, x: nat, y: nat)
    requires
        x_len <= usize::MAX,
        y_len <= usize::MAX,
        x <= x_len,
        y <= y_len,
        y > 0 ==> x < x_len,
    ensures
        cells_before(x_len, y_len, x, y).finite(),
        cells_before(x_len, y_len, x, y).len() == x * y_len + y,
    decreases x, y,
{
    let cells = cells_before(x_len, y_len, x, y);
    if y > 0 {
        let earlier = cells_before(x_len, y_len, x, (y - 1) as nat);
        cells_before_count(x_len, y_len, x, (y - 1) as nat);
        let last = Position { x: x as usize, y: (y - 1) as usize };
        assert(cells =~= earlier.insert(last));
        assert(!earlier.contains(last));
    } else if x > 0 {
        cells_before_count(x_len, y_len, (x - 1) as nat, y_len);
        if y_len > 0 {
            assert(cells =~= cells_before(x_len, y_len, (x - 1) as nat, y_len));
        } else {
            assert(cells =~= Set::<Position>::empty());
            assert(cells_before(x_len, y_len, (x - 1) as nat, y_len) =~= Set::<Position>::empty());
        }
        one_more_column(x, y_len);
    } else {
        assert(cells =~= Set::<Position>::empty());
    }
}

/// A grid of `x_len` by `y_len` cells has `x_len * y_len` cells.
pub proof fn grid_cells_count(x_len: nat, y_len: nat)
    requires
        x_len <= usize::MAX,
        y_len <= usize::MAX,
    ensures
        grid_cells(x_len, y_len).finite(),
        grid_cells(x_len, y_len).len() == x_len * y_len,
{
    cells_before_count(x_len, y_len, x_len, 0);
    assert(grid_cells(x_len, y_len) =~= cells_before(x_len, y_len, x_len, 0));
}

/// Cells that all lie in the grid are finitely many, at most as many as the
/// grid has; and if they are all of the grid, exactly as many.
pub proof fn cells_in_grid_count(cells: Set<Position>, x_len: nat, y_len: nat)
    requires
        x_len <= usize::MAX,
        y_len <= usize::MAX,
        cells.subset_of(grid_cells(x_len, y_len)),
    ensures
        cells.finite(),
        cells.len() <= x_len * y_len,
        grid_cells(x_len, y_len).subset_of(cells) ==> cells.len() == x_len * y_len,
{
    grid_cells_count(x_len, y_len);
    lemma_len_subset(cells, grid_cells(x_len, y_len));
    if grid_cells(x_len, y_len).subset_of(cells) {
        assert(cells =~= grid_cells(x_len, y_len));
    }
}

} // verus!
