//! Brains: two dense weight matrices compiled from a genome.
//!
//! A gene's 16-bit weight field `raw` stands for the weight
//! `(raw - raw / 2) / 10000`, taken in the reals: that is `raw / 20000`,
//! never negative. The matrices hold `raw`, the numerator over the
//! denominator 20000 that all weights share, so that activations are exact
//! integers. The largest activation is the same with or without the common
//! denominator.

use vstd::prelude::*;
use crate::error::ConfigError;
use crate::gene::{Gene, Genome, Wiring};
use crate::motors::NUM_MOTORS;
use crate::sensors::{Sensor, NUM_SENSORS};

verus! {

/// The denominator that all weights share.
pub const WEIGHT_DENOMINATOR: u32 = 20_000;

/// The decision function of a creature.
#[derive(Debug, PartialEq, Eq)]
pub struct Brain {
    /// Weights from the sensors to the internal neurons: one row for each
    /// internal neuron, one column for each sensor.
    pub weights_sensor: Vec<Vec<u16>>,
    /// Weights from the internal neurons to the motors: one row for each
    /// motor, one column for each internal neuron.
    pub weights_internal: Vec<Vec<u16>>,
    /// The sensors that some gene wires, each once, in the order in which
    /// the genome first names them.
    pub sensors: Vec<Sensor>,
}

/// A brain as a mathematical value.
pub struct BrainView {
    pub weights_sensor: Seq<Seq<u16>>,
    pub weights_internal: Seq<Seq<u16>>,
    pub sensors: Seq<Sensor>,
}

/// The rows of a matrix.
pub open spec fn rows_of(m: Vec<Vec<u16>>) -> Seq<Seq<u16>> {
    Seq::new(m.len() as nat, |r: int| m[r]@)
}

impl View for Brain {
    type V = BrainView;

    open spec fn view(&self) -> BrainView {
        BrainView {
            weights_sensor: rows_of(self.weights_sensor),
            weights_internal: rows_of(self.weights_internal),
            sensors: self.sensors@,
        }
    }
}

/// Whether the sensor with this id is among `sensors`.
pub open spec fn names(sensors: Seq<Sensor>, id: int) -> bool {
    exists|k: int| 0 <= k < sensors.len() && (#[trigger] sensors[k]).id() == id
}

/// Why a brain with `num_internal` internal neurons refuses the genes: the
/// fault of the first gene that has one, or `None` where every gene is
/// accepted.
pub open spec fn first_fault(genes: Seq<Gene>, num_internal: int) -> Option<ConfigError>
    decreases genes.len(),
{
    if genes.len() == 0 {
        None
    } else {
        match first_fault(genes.drop_last(), num_internal) {
            Some(e) => Some(e),
            None => genes.last().fault(num_internal),
        }
    }
}

impl BrainView {
    /// The number of internal neurons.
    pub open spec fn num_internal(self) -> nat {
        self.weights_sensor.len()
    }

    /// Whether the two matrices have the shapes that belong together.
    pub open spec fn wf(self) -> bool {
        &&& forall|n: int|
            0 <= n < self.weights_sensor.len() ==> (#[trigger] self.weights_sensor[n]).len()
                == NUM_SENSORS
        &&& self.weights_internal.len() == NUM_MOTORS
        &&& forall|m: int|
            0 <= m < self.weights_internal.len() ==> (#[trigger] self.weights_internal[m]).len()
                == self.weights_sensor.len()
    }

    /// The brain with `num_internal` internal neurons and no synapses: every
    /// weight is 0 and no sensor is wired.
    pub open spec fn blank(num_internal: nat) -> BrainView {
        BrainView {
            weights_sensor: Seq::new(num_internal, |n: int| Seq::new(NUM_SENSORS as nat, |s: int| 0u16)),
            weights_internal: Seq::new(
                NUM_MOTORS as nat,
                |m: int| Seq::new(num_internal, |n: int| 0u16),
            ),
            sensors: Seq::empty(),
        }
    }

    /// The brain with one more gene applied. The gene's weight goes into
    /// the row of its sink and the column of its source, in place of what
    /// an earlier gene may have put there. A gene that starts at a sensor
    /// also adds that sensor to those in use, unless it is among them. A
    /// gene that joins two layers without synapses changes nothing.
    pub open spec fn wire(self, gene: Gene) -> BrainView {
        let row = gene.sink_id as int;
        let column = gene.source_id as int;
        match gene.wiring() {
            Wiring::SensorToInternal => BrainView {
                weights_sensor: self.weights_sensor.update(
                    row,
                    self.weights_sensor[row].update(column, gene.weight),
                ),
                weights_internal: self.weights_internal,
                sensors: if names(self.sensors, column) {
                    self.sensors
                } else {
                    self.sensors.push(Sensor::with_id(column).unwrap())
                },
            },
            Wiring::InternalToMotor => BrainView {
                weights_sensor: self.weights_sensor,
                weights_internal: self.weights_internal.update(
                    row,
                    self.weights_internal[row].update(column, gene.weight),
                ),
                sensors: self.sensors,
            },
            Wiring::Unmapped => self,
        }
    }

    /// The brain with `num_internal` internal neurons that the genes wire,
    /// applied in their order: where several genes name one synapse, the
    /// last one sets its weight.
    pub open spec fn compile(genes: Seq<Gene>, num_internal: nat) -> BrainView
        decreases genes.len(),
    {
        if genes.len() == 0 {
            BrainView::blank(num_internal)
        } else {
            BrainView::compile(genes.drop_last(), num_internal).wire(genes.last())
        }
    }
}

/// Genes that all wire a synapse of a brain have no fault for that brain.
pub proof fn wired_genes_have_no_fault(genes: Seq<Gene>, num_internal: int)
    requires
        Genome::wired_for(genes, num_internal),
    ensures
        first_fault(genes, num_internal) is None,
    decreases genes.len(),
{
    if genes.len() > 0 {
        let init = genes.drop_last();
        assert forall|i: int| 0 <= i < init.len() implies (#[trigger] init[i]).wired_for(
            num_internal,
        ) by {
            assert(init[i] == genes[i]);
        }
        wired_genes_have_no_fault(init, num_internal);
        assert(genes.last() == genes[genes.len() - 1]);
    }
}

/// A gene that a brain accepts leaves the shapes of its matrices as they
/// are.
pub proof fn wire_keeps_shape(brain: BrainView, gene: Gene)
    requires
        brain.wf(),
        gene.fault(brain.num_internal() as int) is None,
        gene.source <= 1,
        gene.sink <= 1,
    ensures
        brain.wire(gene).wf(),
        brain.wire(gene).num_internal() == brain.num_internal(),
{
}

/// Genes that a brain accepts compile into a well-formed brain with the
/// number of internal neurons asked for.
pub proof fn compile_is_well_formed(genes: Seq<Gene>, num_internal: nat)
    requires
        first_fault(genes, num_internal as int) is None,
    ensures
        BrainView::compile(genes, num_internal).wf(),
        BrainView::compile(genes, num_internal).num_internal() == num_internal,
    decreases genes.len(),
{
    if genes.len() > 0 {
        compile_is_well_formed(genes.drop_last(), num_internal);
        wire_keeps_shape(BrainView::compile(genes.drop_last(), num_internal), genes.last());
    }
}

/// Compiling the same genes for the same number of internal neurons gives
/// the same brain: two brains compiled from equal genomes hold equal
/// weights in every cell of both matrices, and use the same sensors.
pub proof fn compilation_is_deterministic(
    first: Brain,
    second: Brain,
    first_genome: Genome,
    second_genome: Genome,
    num_internal: nat,
)
    requires
        first_genome@ == second_genome@,
        first@ == BrainView::compile(first_genome@, num_internal),
        second@ == BrainView::compile(second_genome@, num_internal),
    ensures
        first@ == second@,
        first@.weights_sensor == second@.weights_sensor,
        first@.weights_internal == second@.weights_internal,
        first@.sensors == second@.sensors,
{
}

/// Where the genes before place `i` have no fault and the gene at `i` has
/// one, that is the first fault of the whole sequence.
proof fn fault_stays_first(genes: Seq<Gene>, i: int, num_internal: int)
    requires
        0 <= i < genes.len(),
        first_fault(genes.take(i), num_internal) is None,
        genes[i].fault(num_internal) is Some,
    ensures
        first_fault(genes, num_internal) == genes[i].fault(num_internal),
    decreases genes.len() - i,
{
    assert(genes.take(i + 1).drop_last() == genes.take(i));
    assert(genes.take(i + 1).last() == genes[i]);
    fault_is_kept(genes, i + 1, num_internal);
}

/// A fault among the first `k` genes is the first fault of the whole
/// sequence.
proof fn fault_is_kept(genes: Seq<Gene>, k: int, num_internal: int)
    requires
        0 <= k <= genes.len(),
        first_fault(genes.take(k), num_internal) is Some,
    ensures
        first_fault(genes, num_internal) == first_fault(genes.take(k), num_internal),
    decreases genes.len() - k,
{
    if k < genes.len() {
        assert(genes.take(k + 1).drop_last() == genes.take(k));
        fault_is_kept(genes, k + 1, num_internal);
    } else {
        assert(genes.take(k) == genes);
    }
}

/// A matrix of the given shape that holds 0 everywhere.
fn zeros(rows: usize, columns: usize) -> (m: Vec<Vec<u16>>)
    ensures
        rows_of(m) == Seq::new(rows as nat, |r: int| Seq::new(columns as nat, |c: int| 0u16)),
{
    let mut m: Vec<Vec<u16>> = Vec::new();
    let mut r: usize = 0;
    while r < rows
        invariant
            0 <= r <= rows,
            m.len() == r,
            forall|k: int| 0 <= k < r ==> (#[trigger] m[k])@ == Seq::new(columns as nat, |c: int| 0u16),
        decreases rows - r,
    {
        let mut row: Vec<u16> = Vec::new();
        let mut c: usize = 0;
        while c < columns
            invariant
                0 <= c <= columns,
                row@ == Seq::new(c as nat, |k: int| 0u16),
            decreases columns - c,
        {
            row.push(0);
            assert(row@ == Seq::new((c + 1) as nat, |k: int| 0u16));
            c += 1;
        }
        m.push(row);
        r += 1;
    }
    assert(rows_of(m) =~= Seq::new(rows as nat, |r: int| Seq::new(columns as nat, |c: int| 0u16)));
    m
}

/// Puts a weight into one cell of a matrix.
fn set_weight(m: &mut Vec<Vec<u16>>, row: usize, column: usize, weight: u16)
    requires
        row < old(m).len(),
        column < old(m)[row as int].len(),
    ensures
        rows_of(*final(m)) == rows_of(*old(m)).update(
            row as int,
            rows_of(*old(m))[row as int].update(column as int, weight),
        ),
{
    let ghost before = *m;
    m[row][column] = weight;
    assert(rows_of(*m) =~~= rows_of(before).update(
        row as int,
        rows_of(before)[row as int].update(column as int, weight),
    ));
}

/// Whether the sensor with this id is among `sensors`.
fn is_named(sensors: &Vec<Sensor>, id: usize) -> (b: bool)
    ensures
        b == names(sensors@, id as int),
{
    let mut i: usize = 0;
    while i < sensors.len()
        invariant
            0 <= i <= sensors.len(),
            forall|k: int| 0 <= k < i ==> (#[trigger] sensors[k]).id() != id,
        decreases sensors.len() - i,
    {
        if sensors[i].get_id() == id {
            return true;
        }
        i += 1;
    }
    false
}

/// Whether the matrix has `rows` rows of `columns` entries each.
fn has_shape(m: &Vec<Vec<u16>>, rows: usize, columns: usize) -> (b: bool)
    ensures
        b == (rows_of(*m).len() == rows && forall|r: int|
            0 <= r < rows_of(*m).len() ==> (#[trigger] rows_of(*m)[r]).len() == columns),
{
    if m.len() != rows {
        return false;
    }
    let mut r: usize = 0;
    while r < m.len()
        invariant
            0 <= r <= m.len(),
            m.len() == rows,
            forall|k: int| 0 <= k < r ==> (#[trigger] rows_of(*m)[k]).len() == columns,
        decreases m.len() - r,
    {
        if m[r].len() != columns {
            assert(rows_of(*m)[r as int].len() != columns);
            return false;
        }
        r += 1;
    }
    true
}

/// A copy of a matrix.
fn copy_rows(m: &Vec<Vec<u16>>) -> (copy: Vec<Vec<u16>>)
    ensures
        rows_of(copy) == rows_of(*m),
{
    let mut copy: Vec<Vec<u16>> = Vec::new();
    let mut r: usize = 0;
    while r < m.len()
        invariant
            0 <= r <= m.len(),
            copy.len() == r,
            forall|k: int| 0 <= k < r ==> (#[trigger] copy[k])@ == m[k]@,
        decreases m.len() - r,
    {
        let mut row: Vec<u16> = Vec::new();
        let mut c: usize = 0;
        while c < m[r].len()
            invariant
                0 <= r < m.len(),
                0 <= c <= m[r as int].len(),
                row@ == m[r as int]@.take(c as int),
            decreases m[r as int].len() - c,
        {
            row.push(m[r][c]);
            assert(m[r as int]@.take(c + 1) == m[r as int]@.take(c as int).push(
                m[r as int][c as int],
            ));
            c += 1;
        }
        assert(m[r as int]@.take(m[r as int].len() as int) == m[r as int]@);
        copy.push(row);
        r += 1;
    }
    assert(rows_of(copy) =~= rows_of(*m));
    copy
}

impl Brain {
    /// Compiles a genome into a brain with `num_internal` internal neurons.
    /// The genes are applied in their order. The first gene whose source or
    /// sink type is neither 0 nor 1, or that names a neuron that does not
    /// exist, has the genome refused.
    pub fn new(genome: &Genome, num_internal: usize) -> (r: Result<Brain, ConfigError>)
        ensures
            match r {
                Ok(brain) => {
                    &&& first_fault(genome@, num_internal as int) is None
                    &&& brain@ == BrainView::compile(genome@, num_internal as nat)
                    &&& brain@.wf()
                    &&& brain@.num_internal() == num_internal
                },
                Err(e) => first_fault(genome@, num_internal as int) == Some(e),
            },
    {
        let mut brain = Brain {
            weights_sensor: zeros(num_internal, NUM_SENSORS),
            weights_internal: zeros(NUM_MOTORS, num_internal),
            sensors: Vec::new(),
        };
        assert(brain@ =~~= BrainView::blank(num_internal as nat));
        assert(genome@.take(0) == Seq::<Gene>::empty());
        let mut i: usize = 0;
        while i < genome.genome.len()
            invariant
                0 <= i <= genome.genome.len(),
                first_fault(genome@.take(i as int), num_internal as int) is None,
                brain@ == BrainView::compile(genome@.take(i as int), num_internal as nat),
                brain@.wf(),
                brain@.num_internal() == num_internal,
            decreases genome.genome.len() - i,
        {
            let gene = genome.genome[i];
            let ghost before = brain@;
            proof {
                assert(genome@.take(i + 1).drop_last() == genome@.take(i as int));
                assert(genome@.take(i + 1).last() == gene);
            }
            match gene.check(num_internal) {
                Err(e) => {
                    proof {
                        fault_stays_first(genome@, i as int, num_internal as int);
                    }
                    return Err(e);
                },
                Ok(Wiring::SensorToInternal) => {
                    let row: usize = gene.sink_id as usize;
                    let column: usize = gene.source_id as usize;
                    assert(before.weights_sensor[row as int].len() == NUM_SENSORS);
                    set_weight(&mut brain.weights_sensor, row, column, gene.weight);
                    if !is_named(&brain.sensors, column) {
                        match Sensor::new(gene.source_id) {
                            Ok(sensor) => brain.sensors.push(sensor),
                            Err(_) => {},
                        }
                    }
                    assert(brain@.weights_sensor == before.wire(gene).weights_sensor);
                    assert(brain@.sensors == before.wire(gene).sensors);
                    assert(brain@.weights_internal == before.wire(gene).weights_internal);
                },
                Ok(Wiring::InternalToMotor) => {
                    let row: usize = gene.sink_id as usize;
                    let column: usize = gene.source_id as usize;
                    assert(before.weights_internal[row as int].len() == num_internal);
                    set_weight(&mut brain.weights_internal, row, column, gene.weight);
                    assert(brain@.weights_internal == before.wire(gene).weights_internal);
                    assert(brain@.sensors == before.wire(gene).sensors);
                    assert(brain@.weights_sensor == before.wire(gene).weights_sensor);
                },
                Ok(Wiring::Unmapped) => {},
            }
            proof {
                wire_keeps_shape(before, gene);
            }
            i += 1;
        }
        assert(genome@.take(genome.genome.len() as int) == genome@);
        Ok(brain)
    }

    /// Whether the two matrices have the shapes that belong together.
    pub fn is_well_formed(&self) -> (b: bool)
        ensures
            b == self@.wf(),
    {
        let num_internal: usize = self.weights_sensor.len();
        let sensor_side = has_shape(&self.weights_sensor, num_internal, NUM_SENSORS);
        let motor_side = has_shape(&self.weights_internal, NUM_MOTORS, num_internal);
        proof {
            assert(self@.weights_sensor == rows_of(self.weights_sensor));
            assert(self@.weights_internal == rows_of(self.weights_internal));
            if sensor_side && motor_side {
                assert(self@.wf());
            }
            if self@.wf() {
                assert forall|r: int| 0 <= r < rows_of(self.weights_sensor).len() implies (
                #[trigger] rows_of(self.weights_sensor)[r]).len() == NUM_SENSORS by {
                    assert(self@.weights_sensor[r].len() == NUM_SENSORS);
                }
                assert forall|r: int| 0 <= r < rows_of(self.weights_internal).len() implies (
                #[trigger] rows_of(self.weights_internal)[r]).len() == num_internal by {
                    assert(self@.weights_internal[r].len() == num_internal);
                }
            }
        }
        sensor_side && motor_side
    }
}

impl Clone for Brain {
    fn clone(&self) -> (copy: Self)
        ensures
            copy@ == self@,
    {
        let mut sensors: Vec<Sensor> = Vec::new();
        let mut i: usize = 0;
        while i < self.sensors.len()
            invariant
                0 <= i <= self.sensors.len(),
                sensors@ == self.sensors@.take(i as int),
            decreases self.sensors.len() - i,
        {
            sensors.push(self.sensors[i]);
            assert(self.sensors@.take(i + 1) == self.sensors@.take(i as int).push(
                self.sensors[i as int],
            ));
            i += 1;
        }
        assert(self.sensors@.take(self.sensors.len() as int) == self.sensors@);
        Brain {
            weights_sensor: copy_rows(&self.weights_sensor),
            weights_internal: copy_rows(&self.weights_internal),
            sensors,
        }
    }
}

} // verus!
