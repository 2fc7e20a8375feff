//! A fixed-shape, zero-initialised batch buffer for time-ordered training
//! records, indexed by batch position, time step and feature.
//!
//! Scalars are single-precision values held as their IEEE 754 bit patterns,
//! so that every statement about the buffer is a statement about integers.

pub mod record;
pub mod shape;
