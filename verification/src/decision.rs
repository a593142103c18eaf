//! Decisions: from what the sensors read, through both weight matrices, to
//! the motor with the largest activation.

use vstd::prelude::*;
use crate::brain::{names, Brain, BrainView};
use crate::motors::{Motor, NUM_MOTORS};
use crate::position::Position;
use crate::sensors::{readings, Sensor, NUM_SENSORS};
use crate::world::World;

verus! {

/// The sum of the products of the entries of `row` and `x`, place by place.
pub open spec fn dot(row: Seq<u16>, x: Seq<int>) -> int
    decreases row.len(),
{
    if row.len() == 0 {
        0
    } else {
        dot(row.drop_last(), x) + row.last() * x[row.len() - 1]
    }
}

/// The product of a matrix and a column vector.
pub open spec fn product(m: Seq<Seq<u16>>, x: Seq<int>) -> Seq<int> {
    Seq::new(m.len(), |r: int| dot(m[r], x))
}

/// Whether `best` is the first place at which `values` is largest.
pub open spec fn is_first_maximum(values: Seq<int>, best: int) -> bool {
    &&& 0 <= best < values.len()
    &&& forall|i: int| 0 <= i < values.len() ==> values[i] <= values[best]
    &&& forall|i: int| 0 <= i < best ==> values[i] < values[best]
}

/// The first place at which `values` is largest; 0 for the empty sequence.
pub open spec fn first_maximum(values: Seq<int>) -> int
    decreases values.len(),
{
    if values.len() <= 1 {
        0
    } else {
        let best = first_maximum(values.drop_last());
        if values.last() > values[best] {
            values.len() - 1
        } else {
            best
        }
    }
}

/// The numbers in a vector of readings.
pub open spec fn readings_of(v: Seq<u8>) -> Seq<int> {
    Seq::new(v.len(), |i: int| v[i] as int)
}

/// The numbers in a vector of activations of internal neurons.
pub open spec fn internal_of(v: Seq<u32>) -> Seq<int> {
    Seq::new(v.len(), |i: int| v[i] as int)
}

/// The numbers in a vector of activations of motors.
pub open spec fn output_of(v: Seq<u128>) -> Seq<int> {
    Seq::new(v.len(), |i: int| v[i] as int)
}

impl BrainView {
    /// Whether some gene wires the sensor with this id.
    pub open spec fn senses(self, id: int) -> bool {
        names(self.sensors, id)
    }

    /// What the brain takes in: the reading of each sensor that some gene
    /// wires, and 0 for the others.
    pub open spec fn input(self, readings: Seq<int>) -> Seq<int> {
        Seq::new(
            NUM_SENSORS as nat,
            |s: int|
                if self.senses(s) {
                    readings[s]
                } else {
                    0
                },
        )
    }

    /// The activation of each internal neuron for the given input.
    pub open spec fn internal_activation(self, input: Seq<int>) -> Seq<int> {
        product(self.weights_sensor, input)
    }

    /// The activation of each motor for the given input.
    pub open spec fn output_activation(self, input: Seq<int>) -> Seq<int> {
        product(self.weights_internal, self.internal_activation(input))
    }

    /// The motor that the brain picks for the given input: the first one
    /// whose activation is largest.
    pub open spec fn choice(self, input: Seq<int>) -> Motor {
        match Motor::with_id(first_maximum(self.output_activation(input))) {
            Some(m) => m,
            None => Motor::Up,
        }
    }

    /// The motor that the brain picks when the sensors read `readings`.
    pub open spec fn decision(self, readings: Seq<int>) -> Motor {
        self.choice(self.input(readings))
    }
}

/// `first_maximum` names the first place at which a sequence that is not
/// empty is largest, and no other place is that.
pub proof fn first_maximum_is_first(values: Seq<int>, other: int)
    requires
        values.len() > 0,
    ensures
        is_first_maximum(values, first_maximum(values)),
        is_first_maximum(values, other) ==> other == first_maximum(values),
    decreases values.len(),
{
    if values.len() > 1 {
        let init = values.drop_last();
        first_maximum_is_first(init, first_maximum(init));
        let best = first_maximum(init);
        assert(forall|i: int| 0 <= i < init.len() ==> init[i] == values[i]);
        let chosen = first_maximum(values);
        assert(is_first_maximum(values, chosen)) by {
            assert forall|i: int| 0 <= i < values.len() implies values[i] <= values[chosen] by {
                if i < init.len() {
                    assert(init[i] <= init[best]);
                }
            }
            assert forall|i: int| 0 <= i < chosen implies values[i] < values[chosen] by {
                if chosen == best {
                    assert(init[i] < init[best]);
                } else {
                    assert(init[i] <= init[best]);
                }
            }
        }
    }
    if is_first_maximum(values, other) {
        let chosen = first_maximum(values);
        if other < chosen {
            assert(values[other] < values[chosen]);
        } else if chosen < other {
            assert(values[chosen] < values[other]);
        }
    }
}

/// Where two entries are equal and largest, the earlier one is chosen: the
/// place chosen is never after a place that holds the largest value.
pub proof fn ties_go_to_the_lowest_index(values: Seq<int>, i: int, j: int)
    requires
        0 <= i < j < values.len(),
        values[i] == values[j],
        forall|k: int| 0 <= k < values.len() ==> values[k] <= values[i],
    ensures
        first_maximum(values) <= i,
        first_maximum(values) != j,
{
    first_maximum_is_first(values, i);
    let chosen = first_maximum(values);
    if chosen > i {
        assert(values[i] < values[chosen]);
    }
}

/// Multiplying by a positive number keeps the order of two numbers.
proof fn scaling_keeps_order(a: int, b: int, factor: int)
    by (nonlinear_arith)
    requires
        factor > 0,
    ensures
        a <= b <==> factor * a <= factor * b,
        a < b <==> factor * a < factor * b,
{
}

/// The choice does not depend on the unit in which the activations are
/// measured: where every activation is multiplied by the same positive
/// number, the first largest one stays in its place. So the motor chosen
/// from the numerators of the weights is the motor chosen from the weights
/// themselves.
pub proof fn common_factor_keeps_the_choice(values: Seq<int>, scaled: Seq<int>, factor: int)
    requires
        factor > 0,
        scaled.len() == values.len(),
        forall|i: int| 0 <= i < values.len() ==> scaled[i] == factor * values[i],
    ensures
        first_maximum(scaled) == first_maximum(values),
{
    if values.len() > 0 {
        let best = first_maximum(values);
        first_maximum_is_first(values, best);
        assert(is_first_maximum(scaled, best)) by {
            assert forall|i: int| 0 <= i < scaled.len() implies scaled[i] <= scaled[best] by {
                scaling_keeps_order(values[i], values[best], factor);
            }
            assert forall|i: int| 0 <= i < best implies scaled[i] < scaled[best] by {
                scaling_keeps_order(values[i], values[best], factor);
            }
        }
        first_maximum_is_first(scaled, best);
    }
}

/// Equal brains that read the same from their sensors pick the same motor.
pub proof fn decision_is_deterministic(
    first: Brain,
    second: Brain,
    first_readings: Seq<int>,
    second_readings: Seq<int>,
)
    requires
        first@ == second@,
        first_readings == second_readings,
    ensures
        first@.decision(first_readings) == second@.decision(second_readings),
{
}

/// The first place at which `values` is largest.
pub fn arg_max(values: &Vec<u128>) -> (best: usize)
    requires
        values.len() > 0,
    ensures
        is_first_maximum(Seq::new(values.len() as nat, |i: int| values[i] as int), best as int),
        best == first_maximum(Seq::new(values.len() as nat, |i: int| values[i] as int)),
{
    let ghost ints = Seq::new(values.len() as nat, |i: int| values[i] as int);
    let mut best: usize = 0;
    let mut i: usize = 1;
    while i < values.len()
        invariant
            1 <= i <= values.len(),
            0 <= best < i,
            ints == Seq::new(values.len() as nat, |k: int| values[k] as int),
            forall|k: int| 0 <= k < i ==> ints[k] <= ints[best as int],
            forall|k: int| 0 <= k < best ==> ints[k] < ints[best as int],
        decreases values.len() - i,
    {
        if values[i] > values[best] {
            best = i;
        }
        i += 1;
    }
    proof {
        first_maximum_is_first(ints, best as int);
    }
    best
}

/// Taking one more entry of a row adds one product to the sum.
proof fn dot_of_longer_prefix(row: Seq<u16>, x: Seq<int>, i: int)
    requires
        0 <= i < row.len(),
    ensures
        dot(row.take(i + 1), x) == dot(row.take(i), x) + row[i] * x[i],
{
    assert(row.take(i + 1).drop_last() == row.take(i));
}

/// A weight times a reading is at most the product of the largest of each.
proof fn bounded_reading_product(w: u16, x: u8)
    by (nonlinear_arith)
    ensures
        0 <= w * x <= 16_711_425,
{
}

/// A weight times the activation of an internal neuron is at most the
/// product of the largest of each.
proof fn bounded_internal_product(w: u16, x: u32)
    by (nonlinear_arith)
    ensures
        0 <= w * x <= 281_470_681_677_825,
{
}

/// The activation that a row of sensor weights gives for an input.
fn weigh_input(row: &Vec<u16>, input: &Vec<u8>) -> (sum: u32)
    requires
        row.len() == input.len(),
        row.len() <= NUM_SENSORS,
    ensures
        sum == dot(row@, readings_of(input@)),
{
    let ghost x = readings_of(input@);
    let mut sum: u32 = 0;
    let mut i: usize = 0;
    proof {
        assert(row@.take(0) == Seq::<u16>::empty());
    }
    while i < row.len()
        invariant
            0 <= i <= row.len(),
            row.len() == input.len(),
            row.len() <= NUM_SENSORS,
            x == readings_of(input@),
            sum == dot(row@.take(i as int), x),
            sum <= i * 16_711_425,
        decreases row.len() - i,
    {
        proof {
            dot_of_longer_prefix(row@, x, i as int);
            bounded_reading_product(row[i as int], input[i as int]);
        }
        sum = sum + (row[i] as u32) * (input[i] as u32);
        i += 1;
    }
    proof {
        assert(row@.take(row.len() as int) == row@);
    }
    sum
}

/// The activation that a row of motor weights gives for the activations of
/// the internal neurons.
fn weigh_internal(row: &Vec<u16>, internal: &Vec<u32>) -> (sum: u128)
    requires
        row.len() == internal.len(),
    ensures
        sum == dot(row@, internal_of(internal@)),
{
    let ghost x = internal_of(internal@);
    let mut sum: u128 = 0;
    let mut i: usize = 0;
    proof {
        assert(row@.take(0) == Seq::<u16>::empty());
    }
    while i < row.len()
        invariant
            0 <= i <= row.len(),
            row.len() == internal.len(),
            x == internal_of(internal@),
            sum == dot(row@.take(i as int), x),
            sum <= i * 281_470_681_677_825,
        decreases row.len() - i,
    {
        proof {
            dot_of_longer_prefix(row@, x, i as int);
            bounded_internal_product(row[i as int], internal[i as int]);
        }
        sum = sum + (row[i] as u128) * (internal[i] as u128);
        i += 1;
    }
    proof {
        assert(row@.take(row.len() as int) == row@);
    }
    sum
}

impl Brain {
    /// The activation of each internal neuron for the given input, one
    /// entry for each sensor.
    pub fn internal_activation(&self, input: &Vec<u8>) -> (internal: Vec<u32>)
        requires
            self@.wf(),
            input.len() == NUM_SENSORS,
        ensures
            internal_of(internal@) == self@.internal_activation(readings_of(input@)),
            internal.len() == self@.num_internal(),
    {
        let mut internal: Vec<u32> = Vec::new();
        let mut n: usize = 0;
        while n < self.weights_sensor.len()
            invariant
                0 <= n <= self.weights_sensor.len(),
                self@.wf(),
                input.len() == NUM_SENSORS,
                internal.len() == n,
                forall|k: int|
                    0 <= k < n ==> internal[k] == dot(
                        #[trigger] self.weights_sensor[k]@,
                        readings_of(input@),
                    ),
            decreases self.weights_sensor.len() - n,
        {
            assert(self@.weights_sensor[n as int] == self.weights_sensor[n as int]@);
            let sum: u32 = weigh_input(&self.weights_sensor[n], input);
            internal.push(sum);
            n += 1;
        }
        assert(internal_of(internal@) =~= self@.internal_activation(readings_of(input@)));
        internal
    }

    /// The activation of each motor for the given activations of the
    /// internal neurons.
    pub fn output_activation(&self, internal: &Vec<u32>) -> (output: Vec<u128>)
        requires
            self@.wf(),
            internal.len() == self@.num_internal(),
        ensures
            output_of(output@) == product(self@.weights_internal, internal_of(internal@)),
            output.len() == NUM_MOTORS,
    {
        let mut output: Vec<u128> = Vec::new();
        let mut m: usize = 0;
        while m < self.weights_internal.len()
            invariant
                0 <= m <= self.weights_internal.len(),
                self@.wf(),
                internal.len() == self@.num_internal(),
                output.len() == m,
                forall|k: int|
                    0 <= k < m ==> output[k] == dot(
                        #[trigger] self.weights_internal[k]@,
                        internal_of(internal@),
                    ),
            decreases self.weights_internal.len() - m,
        {
            assert(self@.weights_internal[m as int] == self.weights_internal[m as int]@);
            let sum: u128 = weigh_internal(&self.weights_internal[m], internal);
            output.push(sum);
            m += 1;
        }
        assert(output_of(output@) =~= product(self@.weights_internal, internal_of(internal@)));
        output
    }

    /// The motor that the brain picks for the given input, one entry for
    /// each sensor: the first motor whose activation is largest.
    pub fn decide(&self, input: &Vec<u8>) -> (motor: Motor)
        requires
            self@.wf(),
            input.len() == NUM_SENSORS,
        ensures
            motor == self@.choice(readings_of(input@)),
    {
        let internal = self.internal_activation(input);
        let output = self.output_activation(&internal);
        let best: usize = arg_max(&output);
        assert(output_of(output@) == Seq::new(output.len() as nat, |i: int| output[i] as int));
        match Motor::new(best as u8) {
            Ok(m) => m,
            Err(_) => Motor::Up,
        }
    }

    /// The motor that the brain picks for a creature at `position`: each
    /// sensor that some gene wires reads its neighbouring cell, the readings
    /// pass through both matrices, and the first motor whose activation is
    /// largest wins.
    pub fn calculate_activity(&self, world: &World, position: Position) -> (motor: Motor)
        requires
            self@.wf(),
            world.is_grid(),
            position.within(world.x_len as int, world.y_len as int),
        ensures
            motor == self@.decision(readings(world@, position)),
    {
        let mut input_vec: Vec<u8> = vec![0u8; NUM_SENSORS];
        let mut i: usize = 0;
        while i < self.sensors.len()
            invariant
                0 <= i <= self.sensors.len(),
                input_vec.len() == NUM_SENSORS,
                world.is_grid(),
                position.within(world.x_len as int, world.y_len as int),
                forall|id: int|
                    0 <= id < NUM_SENSORS ==> #[trigger] input_vec[id] == if names(
                        self.sensors@.take(i as int),
                        id,
                    ) {
                        readings(world@, position)[id]
                    } else {
                        0
                    },
            decreases self.sensors.len() - i,
        {
            let sensor = self.sensors[i];
            let id: usize = sensor.get_id();
            let activation: u8 = sensor.activation(world, position);
            input_vec[id] = activation;
            proof {
                let before = self.sensors@.take(i as int);
                let after = self.sensors@.take(i + 1);
                assert(after[i as int] == sensor);
                assert(Sensor::with_id(id as int) == Some(sensor));
                assert forall|other: int| 0 <= other < NUM_SENSORS implies names(after, other) == (
                names(before, other) || other == id) by {
                    if names(before, other) {
                        let k = choose|k: int|
                            0 <= k < before.len() && (#[trigger] before[k]).id() == other;
                        assert(after[k] == before[k]);
                    }
                    if names(after, other) && other != id {
                        let k = choose|k: int|
                            0 <= k < after.len() && (#[trigger] after[k]).id() == other;
                        assert(before[k] == after[k]);
                    }
                }
            }
            i += 1;
        }
        proof {
            assert(self.sensors@.take(self.sensors.len() as int) == self.sensors@);
            assert(readings_of(input_vec@) =~= self@.input(readings(world@, position)));
        }
        self.decide(&input_vec)
    }
}

} // verus!
