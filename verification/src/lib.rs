//! A discrete-time N-body particle simulator.
//!
//! The engine advances a fixed population of point masses under a pairwise
//! Lennard-Jones force and axis-aligned boundary reflection, one fixed-size
//! time step per call. All quantities are carried in signed 64-bit
//! fixed-point arithmetic (see [`fixed`]), so every step is a total,
//! deterministic function of the previous state, and the whole kernel is
//! verified against the mathematical model in [`sim`].

pub mod fixed;
pub mod rng;
pub mod sim;

pub use sim::Particle;
pub use sim::Simulation;
