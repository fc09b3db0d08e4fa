//! The integrator variants and what a run asks of its caller's types.

use vstd::prelude::*;
use crate::error::ConfigError;

verus! {

/// The unit convention of a particle's state.
#[derive(Debug, Clone, Copy, PartialEq, Eq, Structural)]
pub enum Units {
    /// SI units.
    Physical,
    /// Lengths in units of the central mass, velocities as fractions of the
    /// speed of light.
    Geometrized,
}

/// The first-order integrator variants.
#[derive(Debug, Clone, Copy, PartialEq, Eq, Structural)]
pub enum Solvers {
    /// Forward Euler in physical units.
    Euler1,
    /// Forward Euler in geometrized units.
    Euler2,
    /// Geometrized, with a half-step correction of radius and angle.
    Euler3,
    /// Geometrized, with a half-step correction of the radius and the angular
    /// velocity recomputed from the conserved angular momentum.
    Euler4,
}

impl Solvers {
    /// The unit convention in which the variant steps.
    pub open spec fn units_of(self) -> Units {
        match self {
            Solvers::Euler1 => Units::Physical,
            _ => Units::Geometrized,
        }
    }

    /// The number under which the variant is selected.
    pub open spec fn version_of(self) -> int {
        match self {
            Solvers::Euler1 => 1,
            Solvers::Euler2 => 2,
            Solvers::Euler3 => 3,
            Solvers::Euler4 => 4,
        }
    }

    /// The unit convention in which the variant steps. A geometrized variant
    /// converts the state and the time step once, when it is initialised.
    pub fn units(&self) -> (units: Units)
        ensures
            units == self.units_of(),
    {
        match self {
            Solvers::Euler1 => Units::Physical,
            _ => Units::Geometrized,
        }
    }

    /// Whether the radius advances by the half-step term of the new
    /// acceleration besides the velocity term.
    pub fn corrects_radius(&self) -> (corrects: bool)
        ensures
            corrects <==> (*self == Solvers::Euler3 || *self == Solvers::Euler4),
    {
        match self {
            Solvers::Euler3 | Solvers::Euler4 => true,
            _ => false,
        }
    }

    /// Whether the angle advances by the half-step term of the change in
    /// angular velocity besides the angular-velocity term.
    pub fn corrects_angle(&self) -> (corrects: bool)
        ensures
            corrects <==> *self == Solvers::Euler3,
    {
        match self {
            Solvers::Euler3 => true,
            _ => false,
        }
    }

    /// Whether the angular velocity is recomputed from the angular momentum
    /// before the step instead of being integrated.
    pub fn conserves_angular_momentum(&self) -> (conserves: bool)
        ensures
            conserves <==> *self == Solvers::Euler4,
    {
        match self {
            Solvers::Euler4 => true,
            _ => false,
        }
    }

    /// The number under which the variant is selected.
    pub fn version(&self) -> (version: usize)
        ensures
            version == self.version_of(),
    {
        match self {
            Solvers::Euler1 => 1,
            Solvers::Euler2 => 2,
            Solvers::Euler3 => 3,
            Solvers::Euler4 => 4,
        }
    }

    /// The variant selected by a number from 1 to 3. Any other number is
    /// rejected.
    pub fn from_version(version: usize) -> (result: Result<Solvers, ConfigError>)
        ensures
            1 <= version <= 3 <==> result is Ok,
            !(1 <= version <= 3) <==> result == Err::<Solvers, ConfigError>(
                ConfigError::UnknownVersion,
            ),
            result is Ok ==> result->Ok_0.version_of() == version,
    {
        if version == 1 {
            Ok(Solvers::Euler1)
        } else if version == 2 {
            Ok(Solvers::Euler2)
        } else if version == 3 {
            Ok(Solvers::Euler3)
        } else {
            Err(ConfigError::UnknownVersion)
        }
    }
}

/// A marker type that stands for one integrator variant.
pub trait Scheme {
    /// The variant that the type stands for.
    spec fn variant() -> Solvers;

    /// The variant that the type stands for.
    fn solver(&self) -> (solver: Solvers)
        ensures
            solver == Self::variant(),
    ;
}

/// Forward Euler in physical units. From its initialisation on it keeps the
/// Schwarzschild radius of the central mass.
#[derive(Debug)]
pub struct EulerSolve1<T> {
    /// The Schwarzschild radius, once the solver is initialised.
    pub r_s: Option<T>,
}

impl<T> EulerSolve1<T> {
    /// A solver that is not initialised yet.
    pub fn new() -> (solver: Self)
        ensures
            solver.r_s is None,
    {
        Self { r_s: None }
    }
}

impl<T> Default for EulerSolve1<T> {
    fn default() -> (solver: Self)
        ensures
            solver.r_s is None,
    {
        Self::new()
    }
}

impl<T> Scheme for EulerSolve1<T> {
    open spec fn variant() -> Solvers {
        Solvers::Euler1
    }

    fn solver(&self) -> (solver: Solvers) {
        Solvers::Euler1
    }
}

/// Forward Euler in geometrized units.
#[derive(Debug, Clone, Copy)]
pub struct EulerSolve2;

/// Euler in geometrized units with a half-step correction of radius and
/// angle.
#[derive(Debug, Clone, Copy)]
pub struct EulerSolve3;

/// Euler in geometrized units with a half-step correction of the radius and
/// conserved angular momentum.
#[derive(Debug, Clone, Copy)]
pub struct EulerSolve4;

impl Scheme for EulerSolve2 {
    open spec fn variant() -> Solvers {
        Solvers::Euler2
    }

    fn solver(&self) -> (solver: Solvers) {
        Solvers::Euler2
    }
}

impl Scheme for EulerSolve3 {
    open spec fn variant() -> Solvers {
        Solvers::Euler3
    }

    fn solver(&self) -> (solver: Solvers) {
        Solvers::Euler3
    }
}

impl Scheme for EulerSolve4 {
    open spec fn variant() -> Solvers {
        Solvers::Euler4
    }

    fn solver(&self) -> (solver: Solvers) {
        Solvers::Euler4
    }
}

/// What a run reads of the particle's state. `T` is the number type of the
/// time step and of the limits.
pub trait Particle<T> {
    /// Whether the radial velocity is zero or positive.
    fn radial_velocity_is_non_negative(&self) -> bool;

    /// Whether the radius has reached `max_radius`.
    fn radius_reaches(&self, max_radius: &T) -> bool;

    /// Whether the angle has reached `max_angle`.
    fn angle_reaches(&self, max_angle: &T) -> bool;

    /// Whether `steps` steps of `time_step` each have reached `max_time`.
    fn time_reaches(steps: usize, time_step: &T, max_time: &T) -> bool;
}

/// A fixed-step integrator of a particle state `B` with a time step `T`.
///
/// A run calls `init` once and then `step` once per iteration, with the time
/// step as `init` left it.
pub trait Solver<B, T> {
    /// Prepares the solver, and converts the state and the time step to the
    /// solver's unit convention.
    fn init(&mut self, initial_condition: &mut B, time_step: &mut T);

    /// Advances the state by one time step.
    fn step(&mut self, condition: &mut B, time_step: &T);
}

/// Where a new particle has its angular velocity from.
#[derive(Debug)]
pub enum AngularVelocity<T> {
    /// The angular velocity itself.
    Given(T),
    /// The specific angular momentum, to be divided by the squared radius.
    FromMomentum(T),
}

/// Decides where a new particle has its angular velocity from: exactly one of
/// the angular velocity `omega` and the specific angular momentum `h` has to
/// be given.
pub fn gen_initial_condition<T>(omega: Option<T>, h: Option<T>) -> (result: Result<
    AngularVelocity<T>,
    ConfigError,
>)
    ensures
        (omega is None && h is None) <==> result == Err::<AngularVelocity<T>, ConfigError>(
            ConfigError::MissingAngularVelocity,
        ),
        (omega is Some && h is Some) <==> result == Err::<AngularVelocity<T>, ConfigError>(
            ConfigError::AmbiguousAngularVelocity,
        ),
        (omega is Some && h is None) <==> result == Ok::<AngularVelocity<T>, ConfigError>(
            AngularVelocity::Given(omega->Some_0),
        ),
        (omega is None && h is Some) <==> result == Ok::<AngularVelocity<T>, ConfigError>(
            AngularVelocity::FromMomentum(h->Some_0),
        ),
{
    match (omega, h) {
        (None, None) => Err(ConfigError::MissingAngularVelocity),
        (Some(omega), None) => Ok(AngularVelocity::Given(omega)),
        (None, Some(h)) => Ok(AngularVelocity::FromMomentum(h)),
        (Some(_), Some(_)) => Err(ConfigError::AmbiguousAngularVelocity),
    }
}

} // verus!
