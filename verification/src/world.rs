//! The grid and who lives where on it.

use vstd::prelude::*;
use vstd::set_lib::lemma_len_subset;
use vstd::string::*;
use rand::rngs::StdRng;
use crate::creatures::{Creature, CreatureView};
use crate::error::ConfigError;
use crate::gene::{Genome, MAX_INTERNAL};
use crate::grid::{cells_before, cells_before_count, cells_in_grid_count, comes_before, grid_cells};
use crate::position::Position;
use crate::text::{append_radix, radix_text};

verus! {

/// A grid of `x_len` by `y_len` cells, each empty or the home of one
/// creature. `locs[x][y]` is the cell in column `x` at height `y`.
#[derive(Debug, PartialEq, Eq)]
pub struct World {
    pub x_len: usize,
    pub y_len: usize,
    pub locs: Vec<Vec<Option<Creature>>>,
}

/// A world as a mathematical value: its size, and the creature in each
/// occupied cell.
pub struct WorldView {
    pub x_len: nat,
    pub y_len: nat,
    pub cells: Map<Position, CreatureView>,
}

impl WorldView {
    /// Whether every occupied cell lies inside the grid and holds a
    /// well-formed creature.
    pub open spec fn wf(self) -> bool {
        forall|p: Position| #[trigger]
            self.cells.contains_key(p) ==> p.within(self.x_len as int, self.y_len as int)
                && self.cells[p].wf()
    }

    /// Whether the cell is occupied.
    pub open spec fn occupied(self, p: Position) -> bool {
        self.cells.contains_key(p)
    }

    /// How many creatures there are.
    pub open spec fn population(self) -> nat {
        self.cells.dom().len()
    }

    /// Whether `pos` is an occupied cell of the grid that comes before
    /// column `x`, height `y` in scan order.
    pub open spec fn lives_before(self, pos: Position, x: nat, y: nat) -> bool {
        self.occupied(pos) && pos.within(self.x_len as int, self.y_len as int) && comes_before(
            pos,
            x,
            y,
        )
    }

    /// The occupied cells of the grid that come before column `x`, height
    /// `y` in scan order.
    pub open spec fn occupants_before(self, x: nat, y: nat) -> Set<Position> {
        Set::new(|p: Position| self.lives_before(p, x, y))
    }

    /// The line that reports the creature at `pos`.
    pub open spec fn line(self, pos: Position) -> Seq<char> {
        "Creature ID "@ + self.cells[pos].id + ", with Genome "@ + Genome::hex(
            self.cells[pos].genome,
        ) + ", at "@ + radix_text(pos.x as nat, 10) + "X"@ + radix_text(pos.y as nat, 10) + "\n"@
    }

    /// The lines that report the creatures in the cells before column `x`,
    /// height `y`, in scan order.
    pub open spec fn lines_before(self, x: nat, y: nat) -> Seq<char>
        decreases x, y,
    {
        if y > 0 {
            let pos = Position { x: x as usize, y: (y - 1) as usize };
            if self.occupied(pos) {
                self.lines_before(x, (y - 1) as nat) + self.line(pos)
            } else {
                self.lines_before(x, (y - 1) as nat)
            }
        } else if x > 0 {
            self.lines_before((x - 1) as nat, self.y_len)
        } else {
            Seq::empty()
        }
    }

    /// The report of the world: a line with its size, then a line for each
    /// creature, in scan order.
    pub open spec fn report(self) -> Seq<char> {
        "World size "@ + radix_text(self.x_len, 10) + "X"@ + radix_text(self.y_len, 10) + "\n"@
            + self.lines_before(self.x_len, 0)
    }

    /// Whether every creature has the text of a version 4 UUID for its id,
    /// a genome of `genome_length` genes and the brain with `num_internal`
    /// internal neurons compiled from that genome.
    pub open spec fn populated_with(self, genome_length: nat, num_internal: nat) -> bool {
        forall|p: Position| #[trigger]
            self.cells.contains_key(p) ==> {
                &&& self.cells[p].has_uuid()
                &&& self.cells[p].genome.len() == genome_length
                &&& self.cells[p].compiled_for(num_internal)
            }
    }
}

/// The cell at column `x`, height `y` adds itself to the occupied cells
/// before it if it is occupied, and nothing if it is not.
proof fn occupants_before_next(w: WorldView, x: nat, y: nat)
    requires
        x < w.x_len <= usize::MAX,
        y < w.y_len <= usize::MAX,
    ensures
        w.occupants_before(x, y).finite(),
        w.occupants_before(x, y).len() <= x * w.y_len + y,
        !w.occupants_before(x, y).contains(Position { x: x as usize, y: y as usize }),
        w.occupants_before(x, y + 1) == if w.occupied(Position { x: x as usize, y: y as usize }) {
            w.occupants_before(x, y).insert(Position { x: x as usize, y: y as usize })
        } else {
            w.occupants_before(x, y)
        },
{
    let pos = Position { x: x as usize, y: y as usize };
    cells_before_count(w.x_len, w.y_len, x, y);
    assert(w.occupants_before(x, y).subset_of(cells_before(w.x_len, w.y_len, x, y)));
    lemma_len_subset(w.occupants_before(x, y), cells_before(w.x_len, w.y_len, x, y));
    if w.occupied(pos) {
        assert(w.occupants_before(x, y + 1) =~= w.occupants_before(x, y).insert(pos));
    } else {
        assert(w.occupants_before(x, y + 1) =~= w.occupants_before(x, y));
    }
}

/// Before the bottom of a column come the cells of all columns to its
/// left, and no others.
proof fn occupants_before_column(w: WorldView, x: nat)
    requires
        0 < x <= w.x_len,
    ensures
        w.occupants_before(x, 0) == w.occupants_before((x - 1) as nat, w.y_len),
{
    assert(w.occupants_before(x, 0) =~= w.occupants_before((x - 1) as nat, w.y_len));
}

/// How often a cell is drawn for one creature before the first empty cell
/// in scan order is taken instead.
pub const MAX_PLACEMENT_DRAWS: u64 = 0xffff_ffff_ffff_ffff;

/// The creatures of a grid are finitely many, at most one for each cell;
/// and if every cell is occupied, exactly one for each cell.
pub proof fn population_is_bounded(world: World)
    requires
        world.is_grid(),
    ensures
        world@.cells.dom().finite(),
        world@.population() <= world.x_len * world.y_len,
        (forall|p: Position|
            p.within(world.x_len as int, world.y_len as int) ==> world@.occupied(p))
            ==> world@.population() == world.x_len * world.y_len,
{
    let grid = grid_cells(world.x_len as nat, world.y_len as nat);
    assert(world@.cells.dom().subset_of(grid)) by {
        assert forall|p: Position| world@.cells.dom().contains(p) implies grid.contains(p) by {
            assert(world.locs[p.x as int].len() == world.y_len);
        }
    }
    cells_in_grid_count(world@.cells.dom(), world.x_len as nat, world.y_len as nat);
    if forall|p: Position|
        p.within(world.x_len as int, world.y_len as int) ==> world@.occupied(p) {
        assert forall|p: Position| grid.contains(p) implies world@.cells.dom().contains(p) by {
            assert(world@.occupied(p));
        }
        assert(grid.subset_of(world@.cells.dom()));
    }
}

impl View for World {
    type V = WorldView;

    open spec fn view(&self) -> WorldView {
        WorldView {
            x_len: self.x_len as nat,
            y_len: self.y_len as nat,
            cells: Map::new(
                |p: Position|
                    p.x < self.locs.len() && p.y < self.locs[p.x as int].len()
                        && self.locs[p.x as int][p.y as int] is Some,
                |p: Position| self.locs[p.x as int][p.y as int].unwrap()@,
            ),
        }
    }
}

impl World {
    /// Whether `locs` has `x_len` columns of `y_len` cells each.
    pub open spec fn is_grid(&self) -> bool {
        &&& self.locs.len() == self.x_len
        &&& forall|x: int| 0 <= x < self.locs.len() ==> (#[trigger] self.locs[x]).len() == self.y_len
    }

    /// Whether the world is a grid whose creatures are all well formed.
    pub open spec fn wf(&self) -> bool {
        self.is_grid() && self@.wf()
    }

    /// A world of the given size without creatures.
    pub fn blank(x_max: usize, y_max: usize) -> (world: World)
        ensures
            world.wf(),
            world.x_len == x_max,
            world.y_len == y_max,
            world@.cells == Map::<Position, CreatureView>::empty(),
    {
        let mut locs: Vec<Vec<Option<Creature>>> = Vec::new();
        let mut x: usize = 0;
        while x < x_max
            invariant
                0 <= x <= x_max,
                locs.len() == x,
                forall|i: int| 0 <= i < x ==> (#[trigger] locs[i]).len() == y_max,
                forall|i: int, j: int| 0 <= i < x && 0 <= j < y_max ==> locs[i][j] is None,
            decreases x_max - x,
        {
            let mut column: Vec<Option<Creature>> = Vec::new();
            let mut y: usize = 0;
            while y < y_max
                invariant
                    0 <= y <= y_max,
                    column.len() == y,
                    forall|j: int| 0 <= j < y ==> column[j] is None,
                decreases y_max - y,
            {
                column.push(None);
                y += 1;
            }
            locs.push(column);
            x += 1;
        }
        let world = World { x_len: x_max, y_len: y_max, locs };
        assert(world@.cells =~= Map::<Position, CreatureView>::empty());
        world
    }

    /// The creature in the cell, if there is one.
    pub fn occupant(&self, pos: Position) -> (found: Option<&Creature>)
        requires
            self.is_grid(),
        ensures
            match found {
                Some(creature) => self@.cells.contains_key(pos) && self@.cells[pos] == creature@,
                None => !self@.cells.contains_key(pos),
            },
    {
        if pos.x < self.locs.len() && pos.y < self.locs[pos.x].len() {
            self.locs[pos.x][pos.y].as_ref()
        } else {
            None
        }
    }

    /// Whether the cell holds a creature. No cell outside the grid does.
    pub fn is_occupied(&self, pos: Position) -> (b: bool)
        requires
            self.is_grid(),
        ensures
            b == self@.occupied(pos),
    {
        self.occupant(pos).is_some()
    }

    /// Whether the world is a grid whose creatures are all well formed.
    pub fn is_well_formed(&self) -> (b: bool)
        ensures
            b == self.wf(),
    {
        if self.locs.len() != self.x_len {
            return false;
        }
        let mut x: usize = 0;
        while x < self.x_len
            invariant
                0 <= x <= self.x_len,
                self.locs.len() == self.x_len,
                forall|i: int| 0 <= i < x ==> (#[trigger] self.locs[i]).len() == self.y_len,
                forall|p: Position|
                    p.x < x && p.y < self.y_len && self.locs[p.x as int][p.y as int] is Some
                        ==> (#[trigger] self.locs[p.x as int][p.y as int]).unwrap()@.wf(),
            decreases self.x_len - x,
        {
            if self.locs[x].len() != self.y_len {
                return false;
            }
            let mut y: usize = 0;
            while y < self.y_len
                invariant
                    0 <= x < self.x_len,
                    0 <= y <= self.y_len,
                    self.locs.len() == self.x_len,
                    self.locs[x as int].len() == self.y_len,
                    forall|j: int|
                        0 <= j < y && self.locs[x as int][j] is Some ==> (
                        #[trigger] self.locs[x as int][j]).unwrap()@.wf(),
                decreases self.y_len - y,
            {
                match &self.locs[x][y] {
                    Some(creature) => {
                        if !creature.is_well_formed() {
                            proof {
                                let pos = Position { x, y };
                                assert(self@.cells.contains_key(pos));
                                assert(self@.cells[pos] == creature@);
                            }
                            return false;
                        }
                    },
                    None => {},
                }
                y += 1;
            }
            x += 1;
        }
        proof {
            assert forall|p: Position| #[trigger] self@.cells.contains_key(p) implies p.within(
                self.x_len as int,
                self.y_len as int,
            ) && self@.cells[p].wf() by {
                assert(self.locs[p.x as int].len() == self.y_len);
                assert(self.locs[p.x as int][p.y as int].unwrap()@.wf());
            }
        }
        true
    }

    /// How many creatures there are.
    pub fn population(&self) -> (count: usize)
        requires
            self.is_grid(),
            self.x_len * self.y_len <= usize::MAX,
        ensures
            count == self@.population(),
    {
        let mut count: usize = 0;
        let mut x: usize = 0;
        proof {
            assert(self@.occupants_before(0, 0) =~= Set::<Position>::empty());
        }
        while x < self.x_len
            invariant
                0 <= x <= self.x_len,
                self.is_grid(),
                self.x_len * self.y_len <= usize::MAX,
                self@.occupants_before(x as nat, 0).finite(),
                count == self@.occupants_before(x as nat, 0).len(),
            decreases self.x_len - x,
        {
            let mut y: usize = 0;
            while y < self.y_len
                invariant
                    0 <= x < self.x_len,
                    0 <= y <= self.y_len,
                    self.is_grid(),
                    self.x_len * self.y_len <= usize::MAX,
                    self@.occupants_before(x as nat, y as nat).finite(),
                    count == self@.occupants_before(x as nat, y as nat).len(),
                decreases self.y_len - y,
            {
                proof {
                    occupants_before_next(self@, x as nat, y as nat);
                    assert(x * self.y_len + y < self.x_len * self.y_len) by (nonlinear_arith)
                        requires
                            0 <= x < self.x_len,
                            0 <= y < self.y_len,
                    ;
                    assert(self@.occupied(Position { x, y }) == (self.locs[x as int][y as int]
                         is Some));
                }
                if self.locs[x][y].is_some() {
                    count += 1;
                }
                y += 1;
            }
            proof {
                occupants_before_column(self@, (x + 1) as nat);
            }
            x += 1;
        }
        proof {
            assert(self@.occupants_before(self.x_len as nat, 0) =~= self@.cells.dom()) by {
                assert forall|p: Position| self@.cells.dom().contains(p) implies p.within(
                    self.x_len as int,
                    self.y_len as int,
                ) by {
                    assert(self.locs[p.x as int].len() == self.y_len);
                }
            }
        }
        count
    }

    /// The report of the world: a line with its size, then a line for each
    /// creature with its id, its genome and its cell, in scan order.
    pub fn to_text(&self) -> (text: String)
        requires
            self.wf(),
        ensures
            text@ == self@.report(),
    {
        let mut text = String::new();
        text.append("World size ");
        append_radix(&mut text, self.x_len as u64, 10);
        text.append("X");
        append_radix(&mut text, self.y_len as u64, 10);
        text.append("\n");
        let ghost header = text@;
        assert(header =~= "World size "@ + radix_text(self@.x_len, 10) + "X"@ + radix_text(
            self@.y_len,
            10,
        ) + "\n"@);
        let mut x: usize = 0;
        assert(text@ =~= header + self@.lines_before(0, 0));
        while x < self.x_len
            invariant
                0 <= x <= self.x_len,
                self.wf(),
                text@ == header + self@.lines_before(x as nat, 0),
            decreases self.x_len - x,
        {
            let mut y: usize = 0;
            while y < self.y_len
                invariant
                    0 <= x < self.x_len,
                    0 <= y <= self.y_len,
                    self.wf(),
                    text@ == header + self@.lines_before(x as nat, y as nat),
                decreases self.y_len - y,
            {
                let ghost so_far = self@.lines_before(x as nat, y as nat);
                match &self.locs[x][y] {
                    Some(creature) => {
                        let ghost pos = Position { x, y };
                        assert(self@.cells.contains_key(pos));
                        assert(self@.cells[pos] == creature@);
                        text.append("Creature ID ");
                        text.append(creature.id.as_str());
                        text.append(", with Genome ");
                        let genome = creature.genome.to_text();
                        text.append(genome.as_str());
                        text.append(", at ");
                        append_radix(&mut text, x as u64, 10);
                        text.append("X");
                        append_radix(&mut text, y as u64, 10);
                        text.append("\n");
                        assert(text@ =~= header + (so_far + self@.line(pos)));
                    },
                    None => {
                        assert(!self@.cells.contains_key(Position { x, y }));
                    },
                }
                y += 1;
            }
            x += 1;
        }
        text
    }

    /// The first empty cell in scan order, if there is one.
    pub fn first_empty(&self) -> (found: Option<Position>)
        requires
            self.is_grid(),
        ensures
            match found {
                Some(pos) => {
                    &&& pos.within(self.x_len as int, self.y_len as int)
                    &&& !self@.occupied(pos)
                    &&& forall|p: Position|
                        p.within(self.x_len as int, self.y_len as int) && comes_before(
                            p,
                            pos.x as nat,
                            pos.y as nat,
                        ) ==> self@.occupied(p)
                },
                None => forall|p: Position|
                    p.within(self.x_len as int, self.y_len as int) ==> self@.occupied(p),
            },
    {
        let mut x: usize = 0;
        while x < self.x_len
            invariant
                0 <= x <= self.x_len,
                self.is_grid(),
                forall|p: Position|
                    p.within(self.x_len as int, self.y_len as int) && comes_before(p, x as nat, 0)
                        ==> self@.occupied(p),
            decreases self.x_len - x,
        {
            let mut y: usize = 0;
            while y < self.y_len
                invariant
                    0 <= x < self.x_len,
                    0 <= y <= self.y_len,
                    self.is_grid(),
                    forall|p: Position|
                        p.within(self.x_len as int, self.y_len as int) && comes_before(
                            p,
                            x as nat,
                            y as nat,
                        ) ==> self@.occupied(p),
                decreases self.y_len - y,
            {
                if self.locs[x][y].is_none() {
                    return Some(Position { x, y });
                }
                y += 1;
            }
            x += 1;
        }
        None
    }

    /// An empty cell for one more creature. `first` is tried first, then
    /// cells drawn from `rng`, one after another, until one is empty. After
    /// `MAX_PLACEMENT_DRAWS` draws the first empty cell in scan order is
    /// taken, so that the search ends whatever is drawn.
    pub fn free_cell(&self, rng: &mut StdRng, first: Position) -> (pos: Position)
        requires
            self.is_grid(),
            first.within(self.x_len as int, self.y_len as int),
            self@.population() < self.x_len * self.y_len,
        ensures
            pos.within(self.x_len as int, self.y_len as int),
            !self@.occupied(pos),
            !self@.occupied(first) ==> pos == first,
    {
        let mut pos = first;
        let mut draws_left: u64 = MAX_PLACEMENT_DRAWS;
        while draws_left > 0 && self.is_occupied(pos)
            invariant
                self.is_grid(),
                self.x_len > 0,
                self.y_len > 0,
                pos.within(self.x_len as int, self.y_len as int),
                !self@.occupied(first) ==> pos == first,
            decreases draws_left,
        {
            pos = Position::gen_new(rng, self.x_len, self.y_len);
            draws_left -= 1;
        }
        if self.is_occupied(pos) {
            proof {
                population_is_bounded(*self);
            }
            match self.first_empty() {
                Some(empty) => empty,
                None => pos,
            }
        } else {
            pos
        }
    }

    /// A world of `x_len` by `y_len` cells with `creature_count` creatures,
    /// each in a cell of its own, each with a genome of `genome_length`
    /// genes and a brain with `internal_neuron_count` internal neurons.
    ///
    /// The grid must have more cells than there are creatures, and the
    /// number of internal neurons must be at least 1 and at most
    /// `MAX_INTERNAL`; the size of the grid is looked at first.
    pub fn new(
        rng: &mut StdRng,
        x_len: usize,
        y_len: usize,
        creature_count: usize,
        genome_length: usize,
        internal_neuron_count: u8,
    ) -> (r: Result<World, ConfigError>)
        ensures
            match r {
                Ok(world) => {
                    &&& x_len * y_len > creature_count
                    &&& 0 < internal_neuron_count <= MAX_INTERNAL
                    &&& world.wf()
                    &&& world.x_len == x_len
                    &&& world.y_len == y_len
                    &&& world@.cells.dom().finite()
                    &&& world@.population() == creature_count
                    &&& world@.populated_with(genome_length as nat, internal_neuron_count as nat)
                },
                Err(e) => if x_len * y_len <= creature_count {
                    e == ConfigError::GridTooSmall
                } else {
                    e == ConfigError::InternalCount && !(0 < internal_neuron_count
                        <= MAX_INTERNAL)
                },
            },
    {
        assert(x_len * y_len <= 0xffff_ffff_ffff_ffff * 0xffff_ffff_ffff_ffff) by (nonlinear_arith)
            requires
                0 <= x_len <= 0xffff_ffff_ffff_ffff,
                0 <= y_len <= 0xffff_ffff_ffff_ffff,
        ;
        if (x_len as u128) * (y_len as u128) <= creature_count as u128 {
            return Err(ConfigError::GridTooSmall);
        }
        if internal_neuron_count == 0 || internal_neuron_count > MAX_INTERNAL {
            return Err(ConfigError::InternalCount);
        }
        assert(x_len > 0 && y_len > 0) by (nonlinear_arith)
            requires
                x_len * y_len > creature_count,
        ;
        let mut world = World::blank(x_len, y_len);
        let mut placed: usize = 0;
        while placed < creature_count
            invariant
                0 <= placed <= creature_count,
                x_len > 0,
                y_len > 0,
                x_len * y_len > creature_count,
                0 < internal_neuron_count <= MAX_INTERNAL,
                world.wf(),
                world.x_len == x_len,
                world.y_len == y_len,
                world@.cells.dom().finite(),
                world@.population() == placed,
                world@.populated_with(genome_length as nat, internal_neuron_count as nat),
            decreases creature_count - placed,
        {
            let (creature, first) = Creature::new(
                rng,
                x_len,
                y_len,
                genome_length,
                internal_neuron_count,
            );
            let pos = world.free_cell(rng, first);
            world.put(pos, creature);
            placed += 1;
        }
        Ok(world)
    }

    /// Puts the creature into the cell, in place of whoever was there.
    pub fn put(&mut self, pos: Position, creature: Creature)
        requires
            old(self).is_grid(),
            pos.within(old(self).x_len as int, old(self).y_len as int),
        ensures
            final(self).is_grid(),
            final(self).x_len == old(self).x_len,
            final(self).y_len == old(self).y_len,
            final(self)@.cells == old(self)@.cells.insert(pos, creature@),
    {
        let ghost before = *self;
        self.locs[pos.x][pos.y] = Some(creature);
        assert(self@.cells =~= before@.cells.insert(pos, creature@));
    }
}

} // verus!
