//! A discrete-time spiking-neuron network simulator: leaky-integrate-and-fire
//! membranes connected by plastic synapses that learn through an
//! eligibility-trace rule modulated by a global reward signal.
//!
//! All quantities are fixed-point numbers: `i64` values counted in units of
//! `1 / fixed::SCALE` (see the `fixed` module).

pub mod fixed;
pub mod model;
pub mod rng;
