//! The ways in which a configuration can be refused.

use vstd::prelude::*;

verus! {

/// A configuration that the library refuses when something is constructed.
#[derive(Clone, Copy, Debug, PartialEq, Eq, Structural)]
pub enum ConfigError {
    /// The grid does not have more cells than there are creatures to place.
    GridTooSmall,
    /// The number of internal neurons is zero or does not fit a 7-bit id.
    InternalCount,
    /// A gene's source or sink type is neither 0 nor 1.
    NeuronType,
    /// A gene names a sensor outside the fixed set.
    SensorId,
    /// A gene names an internal neuron that the brain does not have.
    InternalId,
    /// A gene names a motor outside the fixed set.
    MotorId,
}

} // verus!
