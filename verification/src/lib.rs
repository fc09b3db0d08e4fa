//! Drivers for fixed-step orbit integration around a non-rotating black hole.
//!
//! The crate holds the part of a simulation run that does not depend on the
//! number type: which configurations are accepted, which integrator variant
//! works in which unit convention, when the loop stops, and which steps are
//! kept in the trajectory. The numeric state and its update formulas are
//! supplied by the caller through the traits in [`solver`].

pub mod driver;
pub mod error;
pub mod sampling;
pub mod solver;

pub use driver::{
    check_run, limit_reached, simulate_conditions_rel, simulate_euler, simulate_rk4, Course,
    Limits, Sample, Trajectory,
};
pub use error::ConfigError;
pub use sampling::{sample_steps, Sampler};
pub use solver::{
    gen_initial_condition, AngularVelocity, EulerSolve1, EulerSolve2, EulerSolve3, EulerSolve4,
    Particle, Scheme, Solver, Solvers, Units,
};
