//! Relic-abundance Boltzmann solver: the verified part.
//!
//! The numerical work (the thermal functions and the implicit Runge-Kutta
//! integrator) is done in floating point by the caller.  This crate holds what
//! is decided around it: which configurations are accepted, how the outcome
//! of an integration is reported, and how the samples are packaged.  Floating-point
//! data is carried as IEEE 754 binary64 bit patterns.

pub mod binary64;
pub mod config;
pub mod outcome;
pub mod solution;
pub mod solver;

pub use binary64::Binary64;
pub use config::{Config, ConfigError};
pub use outcome::Outcome;
pub use solution::{Sample, Solution, SolutionView, Status};
pub use solver::{prepare, solve, Model, Problem, Run};
