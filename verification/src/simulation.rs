//! One step of the simulation.
//!
//! The cells of the old world are visited in the order in which `locs`
//! holds them: `locs[0][0]`, `locs[0][1]` and so on to the end of
//! `locs[0]`, then `locs[1]` in the same way, and so on; that is, column by
//! column, each column from the bottom up. Every creature decides on a motor from what it
//! senses in the old world, and claims a cell of the new world: the cell
//! its motor leads to, if that cell lies inside the grid, was empty in the
//! old world and has not been claimed yet in this step; its own cell
//! otherwise. A claim is never taken back, so who comes first in the scan
//! wins a contested cell.

use vstd::prelude::*;
use vstd::set_lib::lemma_len_subset;
use crate::creatures::CreatureView;
use crate::grid::{cells_before, cells_before_count, comes_before};
use crate::motors::Motor;
use crate::position::Position;
use crate::sensors::readings;
use crate::world::{World, WorldView};

verus! {

impl WorldView {
    /// The motor that the creature at `pos` picks.
    pub open spec fn decision_at(self, pos: Position) -> Motor {
        self.cells[pos].brain.decision(readings(self, pos))
    }

    /// The cell that a creature at `pos` claims with `motor` when `claimed`
    /// holds the claims made before.
    pub open spec fn destination(
        self,
        claimed: Map<Position, CreatureView>,
        pos: Position,
        motor: Motor,
    ) -> Position {
        match motor.target_of(pos, self.x_len as int, self.y_len as int) {
            Some(target) => if !self.occupied(target) && !claimed.contains_key(target) {
                target
            } else {
                pos
            },
            None => pos,
        }
    }

    /// The claims after the cell `pos` has had its turn.
    pub open spec fn step(self, claimed: Map<Position, CreatureView>, pos: Position) -> Map<
        Position,
        CreatureView,
    > {
        if self.occupied(pos) {
            claimed.insert(self.destination(claimed, pos, self.decision_at(pos)), self.cells[pos])
        } else {
            claimed
        }
    }

    /// The claims after every cell that comes before column `x`, height
    /// `y` in scan order has had its turn.
    pub open spec fn scan(self, x: nat, y: nat) -> Map<Position, CreatureView>
        decreases x, y,
    {
        if y > 0 {
            self.step(self.scan(x, (y - 1) as nat), Position { x: x as usize, y: (y - 1) as usize })
        } else if x > 0 {
            self.scan((x - 1) as nat, self.y_len)
        } else {
            Map::empty()
        }
    }

    /// The world after one step.
    pub open spec fn next(self) -> WorldView {
        WorldView { x_len: self.x_len, y_len: self.y_len, cells: self.scan(self.x_len, 0) }
    }

    /// The cell that the creature at `pos` claims in one step.
    pub open spec fn claim_of(self, pos: Position) -> Position {
        self.destination(self.scan(pos.x as nat, pos.y as nat), pos, self.decision_at(pos))
    }

    /// Whether a creature that has its turn before column `x`, height `y`
    /// claims `cell`.
    pub open spec fn claimed_before(self, cell: Position, x: nat, y: nat) -> bool {
        exists|q: Position| #[trigger] self.lives_before(q, x, y) && self.claim_of(q) == cell
    }

    /// Whether the world is a grid that can be held, with every creature
    /// inside it.
    pub open spec fn in_grid(self) -> bool {
        &&& self.x_len <= usize::MAX
        &&& self.y_len <= usize::MAX
        &&& forall|p: Position| #[trigger]
            self.cells.contains_key(p) ==> p.within(self.x_len as int, self.y_len as int)
    }
}

/// A cell that was claimed before one turn was claimed before every
/// later turn.
proof fn claim_stays(w: WorldView, cell: Position, x0: nat, y0: nat, x: nat, y: nat)
    requires
        w.claimed_before(cell, x0, y0),
        forall|q: Position| #[trigger] w.lives_before(q, x0, y0) ==> w.lives_before(q, x, y),
    ensures
        w.claimed_before(cell, x, y),
{
    let q = choose|q: Position| #[trigger] w.lives_before(q, x0, y0) && w.claim_of(q) == cell;
    assert(w.lives_before(q, x, y) && w.claim_of(q) == cell);
}

/// What holds of the claims made before column `x`, height `y`: every
/// claimed cell lies in the grid and is the home of a creature that had its
/// turn or was empty in the old world; every creature that had its turn
/// holds the cell it claimed; every claimed cell was claimed by such a
/// creature; and there are as many claims as creatures that had their turn.
proof fn claims_before(w: WorldView, x: nat, y: nat)
    requires
        w.in_grid(),
        x <= w.x_len,
        y <= w.y_len,
        y > 0 ==> x < w.x_len,
    ensures
        forall|p: Position| #[trigger]
            w.scan(x, y).contains_key(p) ==> {
                &&& p.within(w.x_len as int, w.y_len as int)
                &&& !w.occupied(p) || comes_before(p, x, y)
                &&& w.claimed_before(p, x, y)
            },
        forall|q: Position| #[trigger]
            w.lives_before(q, x, y) ==> {
                &&& w.scan(x, y).contains_key(w.claim_of(q))
                &&& w.scan(x, y)[w.claim_of(q)] == w.cells[q]
            },
        w.occupants_before(x, y).finite(),
        w.scan(x, y).dom().finite(),
        w.scan(x, y).dom().len() == w.occupants_before(x, y).len(),
    decreases x, y,
{
    let now = w.scan(x, y);
    if y > 0 {
        let earlier = (y - 1) as nat;
        let before = w.scan(x, earlier);
        let pos = Position { x: x as usize, y: earlier as usize };
        claims_before(w, x, earlier);
        cells_before_count(w.x_len, w.y_len, x, y);
        assert(w.occupants_before(x, y).subset_of(cells_before(w.x_len, w.y_len, x, y)));
        lemma_len_subset(w.occupants_before(x, y), cells_before(w.x_len, w.y_len, x, y));
        assert forall|q: Position| #[trigger] w.lives_before(q, x, y) implies q == pos
            || w.lives_before(q, x, earlier) by {}
        if w.occupied(pos) {
            let dest = w.claim_of(pos);
            assert(now == before.insert(dest, w.cells[pos]));
            assert(!before.contains_key(dest));
            assert(w.lives_before(pos, x, y));
            assert(w.occupants_before(x, y) =~= w.occupants_before(x, earlier).insert(pos));
            assert(now.dom() =~= before.dom().insert(dest));
            assert forall|q: Position| #[trigger] w.lives_before(q, x, y) implies now.contains_key(
                w.claim_of(q),
            ) && now[w.claim_of(q)] == w.cells[q] by {
                if q != pos {
                    assert(w.lives_before(q, x, earlier));
                }
            }
            assert forall|p: Position| #[trigger] now.contains_key(p) implies w.claimed_before(
                p,
                x,
                y,
            ) by {
                if p != dest {
                    claim_stays(w, p, x, earlier, x, y);
                }
            }
        } else {
            assert(now == before);
            assert(w.occupants_before(x, y) =~= w.occupants_before(x, earlier));
            assert forall|p: Position| #[trigger] now.contains_key(p) implies w.claimed_before(
                p,
                x,
                y,
            ) by {
                claim_stays(w, p, x, earlier, x, y);
            }
        }
    } else if x > 0 {
        let left = (x - 1) as nat;
        claims_before(w, left, w.y_len);
        assert(now == w.scan(left, w.y_len));
        assert forall|q: Position| #[trigger] w.lives_before(q, x, y) == w.lives_before(
            q,
            left,
            w.y_len,
        ) by {}
        assert(w.occupants_before(x, y) =~= w.occupants_before(left, w.y_len));
        assert forall|p: Position| #[trigger] now.contains_key(p) implies w.claimed_before(
            p,
            x,
            y,
        ) by {
            claim_stays(w, p, left, w.y_len, x, y);
        }
    } else {
        assert(w.occupants_before(x, y) =~= Set::<Position>::empty());
        assert(now.dom() =~= Set::<Position>::empty());
    }
}

/// Every creature is in the next world, in the cell it claimed: its own
/// cell, or the cell its motor leads to, which was empty before.
pub proof fn tick_keeps_every_creature(w: WorldView, pos: Position)
    requires
        w.in_grid(),
        w.occupied(pos),
    ensures
        w.next().cells.contains_key(w.claim_of(pos)),
        w.next().cells[w.claim_of(pos)] == w.cells[pos],
        w.claim_of(pos) == pos || (Some(w.claim_of(pos)) == w.decision_at(pos).target_of(
            pos,
            w.x_len as int,
            w.y_len as int,
        ) && !w.occupied(w.claim_of(pos))),
{
    claims_before(w, w.x_len, 0);
    assert(w.lives_before(pos, w.x_len, 0));
}

/// No two creatures claim the same cell.
pub proof fn tick_claims_are_distinct(w: WorldView, first: Position, second: Position)
    requires
        w.in_grid(),
        w.occupied(first),
        w.occupied(second),
        first != second,
    ensures
        w.claim_of(first) != w.claim_of(second),
{
    if comes_before(first, second.x as nat, second.y as nat) {
        claims_before(w, second.x as nat, second.y as nat);
        assert(w.lives_before(first, second.x as nat, second.y as nat));
    } else {
        claims_before(w, first.x as nat, first.y as nat);
        assert(w.lives_before(second, first.x as nat, first.y as nat));
    }
}

/// Where two creatures pick motors that lead to the same cell, which was
/// empty and which nobody has claimed before the first of them has its
/// turn, the one that comes first in scan order moves there and the other
/// stays where it is.
pub proof fn earlier_claim_wins(w: WorldView, first: Position, second: Position, target: Position)
    requires
        w.in_grid(),
        w.occupied(first),
        w.occupied(second),
        comes_before(first, second.x as nat, second.y as nat),
        w.decision_at(first).target_of(first, w.x_len as int, w.y_len as int) == Some(target),
        w.decision_at(second).target_of(second, w.x_len as int, w.y_len as int) == Some(target),
        !w.occupied(target),
        !w.scan(first.x as nat, first.y as nat).contains_key(target),
    ensures
        w.claim_of(first) == target,
        w.claim_of(second) == second,
        w.next().cells.contains_key(target),
        w.next().cells[target] == w.cells[first],
        w.next().cells.contains_key(second),
        w.next().cells[second] == w.cells[second],
{
    claims_before(w, second.x as nat, second.y as nat);
    assert(w.lives_before(first, second.x as nat, second.y as nat));
    tick_keeps_every_creature(w, first);
    tick_keeps_every_creature(w, second);
}

/// Equal worlds have equal next worlds, and in equal worlds the creatures
/// in the same cell pick the same motor.
pub proof fn tick_is_deterministic(first: World, second: World, pos: Position)
    requires
        first@ == second@,
    ensures
        first@.next() == second@.next(),
        first@.decision_at(pos) == second@.decision_at(pos),
{
}

/// Whoever is in the next world was in the old one.
pub proof fn tick_adds_no_creature(w: WorldView, pos: Position)
    requires
        w.in_grid(),
        w.next().occupied(pos),
    ensures
        exists|from: Position| #[trigger]
            w.occupied(from) && w.claim_of(from) == pos && w.cells[from] == w.next().cells[pos],
{
    claims_before(w, w.x_len, 0);
    assert(w.claimed_before(pos, w.x_len, 0));
    let from = choose|q: Position| #[trigger] w.lives_before(q, w.x_len, 0) && w.claim_of(q) == pos;
    assert(w.occupied(from) && w.claim_of(from) == pos && w.cells[from] == w.next().cells[pos]);
}

/// A step neither adds nor loses a creature, and leaves every creature
/// inside the grid.
pub proof fn tick_preserves_population(w: WorldView)
    requires
        w.in_grid(),
    ensures
        w.next().in_grid(),
        w.cells.dom().finite(),
        w.next().cells.dom().finite(),
        w.next().population() == w.population(),
{
    claims_before(w, w.x_len, 0);
    assert(w.occupants_before(w.x_len, 0) =~= w.cells.dom());
}

/// The cell that a creature at `pos` in `from` claims in `to` with `motor`:
/// the cell the motor leads to where that lies inside the grid, is empty in
/// `from` and is still empty in `to`; else `pos`.
pub fn resolve(from: &World, to: &World, pos: Position, motor: Motor) -> (dest: Position)
    requires
        from.is_grid(),
        to.is_grid(),
        to.x_len == from.x_len,
        to.y_len == from.y_len,
        pos.within(from.x_len as int, from.y_len as int),
    ensures
        dest == from@.destination(to@.cells, pos, motor),
        dest.within(from.x_len as int, from.y_len as int),
{
    match motor.target(pos, from.x_len, from.y_len) {
        Some(target) => {
            if from.locs[target.x][target.y].is_none() && to.locs[target.x][target.y].is_none() {
                target
            } else {
                pos
            }
        },
        None => pos,
    }
}

/// Advances the world by one step. The old world is only read: it is the
/// same after the call as before. The next world holds the same creatures,
/// each in the cell it claimed.
pub fn tick(world: &World) -> (next: World)
    requires
        world.wf(),
    ensures
        next.wf(),
        next@ == world@.next(),
        next@.cells.dom().finite(),
        next@.population() == world@.population(),
{
    let mut new_world = World::blank(world.x_len, world.y_len);
    let mut x: usize = 0;
    while x < world.x_len
        invariant
            0 <= x <= world.x_len,
            world.wf(),
            new_world.wf(),
            new_world.x_len == world.x_len,
            new_world.y_len == world.y_len,
            new_world@.cells == world@.scan(x as nat, 0),
        decreases world.x_len - x,
    {
        let mut y: usize = 0;
        while y < world.y_len
            invariant
                0 <= x < world.x_len,
                0 <= y <= world.y_len,
                world.wf(),
                new_world.wf(),
                new_world.x_len == world.x_len,
                new_world.y_len == world.y_len,
                new_world@.cells == world@.scan(x as nat, y as nat),
            decreases world.y_len - y,
        {
            let pos = Position { x, y };
            match &world.locs[x][y] {
                Some(creature) => {
                    assert(world@.cells.contains_key(pos));
                    assert(world@.cells[pos] == creature@);
                    let action = creature.calculate_activity(world, pos);
                    let dest = resolve(world, &new_world, pos, action);
                    new_world.put(dest, creature.clone());
                },
                None => {
                    assert(!world@.cells.contains_key(pos));
                },
            }
            y += 1;
        }
        x += 1;
    }
    assert(new_world@ == world@.next());
    proof {
        tick_preserves_population(world@);
    }
    new_world
}

} // verus!
