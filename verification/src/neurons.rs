//! The kinds of neurons that a synapse joins.

use vstd::prelude::*;
use crate::gene::{Gene, SINK_INTERNAL, SINK_MOTOR, SOURCE_INTERNAL, SOURCE_SENSOR};
use crate::motors::Motor;
use crate::sensors::Sensor;

verus! {

/// The kinds of internal neurons. There is one.
#[derive(Clone, Copy, Debug, PartialEq, Eq, Structural)]
pub enum Internal {
    Internal,
}

/// A neuron that a synapse can start at.
#[derive(Clone, Copy, Debug, PartialEq, Eq, Structural)]
pub enum InputNeuron {
    Sensor(Sensor),
    Internal(Internal),
}

/// A neuron that a synapse can end at.
#[derive(Clone, Copy, Debug, PartialEq, Eq, Structural)]
pub enum OutputNeuron {
    Internal(Internal),
    Motor(Motor),
}

impl Gene {
    /// The kind of neuron that the gene starts at: the sensor that its
    /// source id names, or an internal neuron. `None` where the source type
    /// is neither, or the source id names no sensor.
    pub open spec fn source_kind(self) -> Option<InputNeuron> {
        if self.source == SOURCE_SENSOR {
            match Sensor::with_id(self.source_id as int) {
                Some(sensor) => Some(InputNeuron::Sensor(sensor)),
                None => None,
            }
        } else if self.source == SOURCE_INTERNAL {
            Some(InputNeuron::Internal(Internal::Internal))
        } else {
            None
        }
    }

    /// The kind of neuron that the gene ends at: an internal neuron, or
    /// the motor that its sink id names. `None` where the sink type is
    /// neither, or the sink id names no motor.
    pub open spec fn sink_kind(self) -> Option<OutputNeuron> {
        if self.sink == SINK_INTERNAL {
            Some(OutputNeuron::Internal(Internal::Internal))
        } else if self.sink == SINK_MOTOR {
            match Motor::with_id(self.sink_id as int) {
                Some(motor) => Some(OutputNeuron::Motor(motor)),
                None => None,
            }
        } else {
            None
        }
    }

    /// The kind of neuron that the gene starts at.
    pub fn source_neuron(&self) -> (neuron: Option<InputNeuron>)
        ensures
            neuron == self.source_kind(),
    {
        if self.source == SOURCE_SENSOR {
            match Sensor::new(self.source_id) {
                Ok(sensor) => Some(InputNeuron::Sensor(sensor)),
                Err(_) => None,
            }
        } else if self.source == SOURCE_INTERNAL {
            Some(InputNeuron::Internal(Internal::Internal))
        } else {
            None
        }
    }

    /// The kind of neuron that the gene ends at.
    pub fn sink_neuron(&self) -> (neuron: Option<OutputNeuron>)
        ensures
            neuron == self.sink_kind(),
    {
        if self.sink == SINK_INTERNAL {
            Some(OutputNeuron::Internal(Internal::Internal))
        } else if self.sink == SINK_MOTOR {
            match Motor::new(self.sink_id) {
                Ok(motor) => Some(OutputNeuron::Motor(motor)),
                Err(_) => None,
            }
        } else {
            None
        }
    }
}

} // verus!
