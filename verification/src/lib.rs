//! A population of creatures on a two-dimensional grid.
//!
//! Every creature carries a genome, a sequence of packed 32-bit genes, and a
//! brain compiled from it: two dense weight matrices, one from the sensors to
//! the internal neurons and one from the internal neurons to the motors. In
//! each tick every creature senses the four cells around it, propagates the
//! readings through its brain, picks the motor with the largest activation
//! and tries to move one cell in that direction. Claims on cells are settled
//! in scan order, first come first served.
//!
//! All weights are kept as exact integers, so every decision is reproducible
//! on every machine.

pub mod brain;
pub mod creatures;
pub mod decision;
pub mod error;
pub mod gene;
pub mod grid;
pub mod motors;
pub mod neurons;
pub mod position;
pub mod random;
pub mod sensors;
pub mod simulation;
pub mod text;
pub mod world;

