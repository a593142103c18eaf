//! Creatures: an identity, a genome and the brain compiled from it.

use vstd::prelude::*;
use rand::rngs::StdRng;
use crate::brain::{first_fault, wired_genes_have_no_fault, Brain, BrainView};
use crate::error::ConfigError;
use crate::gene::{wired_gene_fits, Gene, Genome, MAX_INTERNAL};
use crate::motors::Motor;
use crate::position::Position;
use crate::random::{draw_bytes, uuid_text, uuid_v4_text};
use crate::sensors::readings;
use crate::world::World;

verus! {

/// One inhabitant of the grid.
#[derive(Debug, PartialEq, Eq)]
pub struct Creature {
    /// What tells this creature from every other.
    pub id: String,
    /// What the creature inherited.
    pub genome: Genome,
    /// The decision function compiled from the genome.
    pub brain: Brain,
}

/// A creature as a mathematical value.
pub struct CreatureView {
    pub id: Seq<char>,
    pub genome: Seq<Gene>,
    pub brain: BrainView,
}

impl View for Creature {
    type V = CreatureView;

    open spec fn view(&self) -> CreatureView {
        CreatureView { id: self.id@, genome: self.genome@, brain: self.brain@ }
    }
}

impl CreatureView {
    /// Whether the brain is well formed and the fields of every gene fit
    /// their widths.
    pub open spec fn wf(self) -> bool {
        self.brain.wf() && Genome::fits(self.genome)
    }

    /// Whether the brain is the one that the genome compiles into with
    /// `num_internal` internal neurons.
    pub open spec fn compiled_for(self, num_internal: nat) -> bool {
        &&& first_fault(self.genome, num_internal as int) is None
        &&& self.brain == BrainView::compile(self.genome, num_internal)
    }

    /// Whether the id is the text of a version 4 UUID.
    pub open spec fn has_uuid(self) -> bool {
        exists|bytes: Seq<u8>| bytes.len() == 16 && self.id == uuid_v4_text(bytes)
    }
}

impl Creature {
    /// A creature with a random UUID for its id, a genome of `num_genes`
    /// genes drawn for `num_internal` internal neurons and the brain
    /// compiled from it, together with a cell drawn from a grid of `x_max`
    /// by `y_max` cells.
    pub fn new(
        rng: &mut StdRng,
        x_max: usize,
        y_max: usize,
        num_genes: usize,
        num_internal: u8,
    ) -> (made: (Creature, Position))
        requires
            x_max > 0,
            y_max > 0,
            0 < num_internal <= MAX_INTERNAL,
        ensures
            made.1.within(x_max as int, y_max as int),
            made.0@.has_uuid(),
            made.0@.genome.len() == num_genes,
            Genome::wired_for(made.0@.genome, num_internal as int),
            made.0@.compiled_for(num_internal as nat),
            made.0@.wf(),
    {
        let bytes = draw_bytes(rng);
        let id = uuid_text(bytes);
        let position = Position::gen_new(rng, x_max, y_max);
        let genome = Genome::new(rng, num_genes, num_internal);
        proof {
            wired_genes_have_no_fault(genome@, num_internal as int);
            assert forall|i: int| 0 <= i < genome@.len() implies (#[trigger] genome@[i]).fits() by {
                wired_gene_fits(genome@[i], num_internal as int);
            }
        }
        match Brain::new(&genome, num_internal as usize) {
            Ok(brain) => (Creature { id, genome, brain }, position),
            Err(_) => unreached(),
        }
    }

    /// The creature with the given id and genome, and the brain with
    /// `num_internal` internal neurons compiled from that genome. The
    /// genome is refused where the brain compiler refuses one of its genes.
    pub fn with_genome(id: String, genome: Genome, num_internal: usize) -> (r: Result<
        Creature,
        ConfigError,
    >)
        ensures
            match r {
                Ok(creature) => {
                    &&& creature@.id == id@
                    &&& creature@.genome == genome@
                    &&& creature@.compiled_for(num_internal as nat)
                    &&& creature@.brain.wf()
                },
                Err(e) => first_fault(genome@, num_internal as int) == Some(e),
            },
    {
        match Brain::new(&genome, num_internal) {
            Ok(brain) => Ok(Creature { id, genome, brain }),
            Err(e) => Err(e),
        }
    }

    /// Whether the brain is well formed and the fields of every gene fit
    /// their widths.
    pub fn is_well_formed(&self) -> (b: bool)
        ensures
            b == self@.wf(),
    {
        self.brain.is_well_formed() && self.genome.is_packable()
    }

    /// The motor that this creature picks at `position`.
    pub fn calculate_activity(&self, world: &World, position: Position) -> (motor: Motor)
        requires
            self@.brain.wf(),
            world.is_grid(),
            position.within(world.x_len as int, world.y_len as int),
        ensures
            motor == self@.brain.decision(readings(world@, position)),
    {
        self.brain.calculate_activity(world, position)
    }
}

impl Clone for Creature {
    fn clone(&self) -> (copy: Self)
        ensures
            copy@ == self@,
    {
        Creature { id: self.id.clone(), genome: self.genome.clone(), brain: self.brain.clone() }
    }
}

} // verus!
