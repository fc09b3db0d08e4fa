//! The simulation loops: they initialise the solver, step it, and keep the
//! states that the sampling policy selects.
//!
//! What a solver computes and what a particle answers is not known here, so
//! the contract of a run speaks of the calls that the run made. It names a
//! [`Course`]: the solver and the state after the initialisation and after
//! each step, and the particle's answers. For a mutable borrow `x` of the
//! solver and `y` of the state, `call_ensures(S::step, (x, y, &t), ())` says
//! that a call of `step` with the time step `t` took the solver from `*x` to
//! `*final(x)` and the state from `*y` to `*final(y)`. A contract lines these
//! calls up: the first starts where the initialisation ended, each next one
//! where the one before ended, and the last one ends in the state and the
//! solver that the caller gets back.

use vstd::prelude::*;
use crate::error::ConfigError;
use crate::sampling::{
    bounded_steps, lemma_bounded_steps_ordered, lemma_first_step_sampled,
    lemma_sampled_steps_increasing, lemma_sampler_follows, lemma_turning_point_sampled,
    lemma_unit_interval_keeps_all, sampled_steps, Sampler,
};
use crate::solver::{Particle, Solver};

verus! {

/// One row of a trajectory: the state that was kept, and the index by which
/// its elapsed time is `step` times the time step that the run was given.
#[derive(Debug)]
pub struct Sample<B> {
    /// The index of the row in time.
    pub step: usize,
    /// The state at the moment the row was taken.
    pub state: B,
}

/// The outcome of a run that stops on a limit.
#[derive(Debug)]
pub struct Trajectory<B> {
    /// The rows, in the order of the run.
    pub samples: Vec<Sample<B>>,
    /// The number of steps that were taken.
    pub steps: usize,
    /// Whether the run ended because a limit was reached, and not because it
    /// came to its cap on the number of steps.
    pub limit_reached: bool,
}

/// The limits of a run that may end on elapsed time, on the radius or on the
/// angle. The run ends as soon as one of those that are given is reached.
#[derive(Debug)]
pub struct Limits<T> {
    /// The elapsed time at which the run ends.
    pub max_time: Option<T>,
    /// The radius at which the run ends.
    pub max_radius: Option<T>,
    /// The angle at which the run ends.
    pub max_angle: Option<T>,
}

impl<T> Limits<T> {
    /// Whether no limit is given.
    pub open spec fn is_unbounded(&self) -> bool {
        self.max_time is None && self.max_radius is None && self.max_angle is None
    }

    /// Accepts the limits if at least one is given.
    pub fn check(&self) -> (result: Result<(), ConfigError>)
        ensures
            self.is_unbounded() <==> result == Err::<(), ConfigError>(ConfigError::NoLimit),
            !self.is_unbounded() <==> result is Ok,
    {
        if self.max_time.is_none() && self.max_radius.is_none() && self.max_angle.is_none() {
            Err(ConfigError::NoLimit)
        } else {
            Ok(())
        }
    }
}

/// The time indices of the rows.
pub open spec fn sample_indices<B>(samples: Seq<Sample<B>>) -> Seq<int> {
    Seq::new(samples.len(), |j: int| samples[j].step as int)
}

/// Whether `sign` is what the particle answered in `state` when it was asked
/// whether its radial velocity is non-negative.
pub open spec fn answers<B: Particle<T>, T>(state: B, sign: bool) -> bool {
    call_ensures(B::radial_velocity_is_non_negative, (&state,), sign)
}

/// The course of a run, as the contracts speak of it.
pub struct Course<B, T, S> {
    /// The solver after its initialisation, and after each step.
    pub solvers: Seq<S>,
    /// The state after the solver's initialisation, and after each step.
    pub states: Seq<B>,
    /// What the particle answered after each step when it was asked whether
    /// its radial velocity is non-negative.
    pub signs: Seq<bool>,
    /// The time step as the solver's initialisation left it.
    pub stride: T,
}

impl<B: Particle<T> + Clone, T, S> Course<B, T, S> {
    /// The number of steps.
    pub open spec fn steps(self) -> int {
        self.signs.len() as int
    }

    /// A course holds one solver and one state more than it has steps, and
    /// each sign is the answer of the particle in the state after its step.
    pub open spec fn wf(self) -> bool {
        &&& self.solvers.len() == self.signs.len() + 1
        &&& self.states.len() == self.signs.len() + 1
        &&& forall|i: int|
            0 <= i < self.signs.len() ==> answers::<B, T>(
                self.states[i + 1],
                #[trigger] self.signs[i],
            )
    }

    /// Whether the rows are the history of the course: the sampling policy
    /// keeps the rows' steps for the signs of the course, and each row holds
    /// a clone of the state after its step.
    pub open spec fn has_history(self, samples: Seq<Sample<B>>, interval: int) -> bool {
        &&& sample_indices(samples) == sampled_steps(self.signs, interval, self.steps())
        &&& forall|j: int|
            0 <= j < samples.len() ==> (#[trigger] samples[j]).step < self.steps() && cloned(
                self.states[samples[j].step + 1],
                samples[j].state,
            )
    }
}

/// Whether the rows are those of a run of `steps` steps under the sampling
/// policy: their time indices are the steps that the policy keeps for some
/// course of the radial velocity's sign over the run.
pub open spec fn is_history<B>(samples: Seq<Sample<B>>, interval: int, steps: int) -> bool {
    exists|signs: Seq<bool>|
        signs.len() == steps && #[trigger] sampled_steps(signs, interval, steps) == sample_indices(
            samples,
        )
}

/// Whether the rows are those of a run of `steps` steps under the sampling
/// policy, with a row for the state before the first step in front and a row
/// for the state after the last step behind.
pub open spec fn is_bounded_history<B>(samples: Seq<Sample<B>>, interval: int, steps: int) -> bool {
    exists|signs: Seq<bool>|
        signs.len() == steps && #[trigger] bounded_steps(signs, interval, steps) == sample_indices(
            samples,
        )
}

/// Accepts a run configuration that stops on a limit: the history interval
/// must be positive and at least one limit must be given. The interval is
/// looked at first.
pub fn check_run<T>(history_interval: usize, limits: &Limits<T>) -> (result: Result<
    (),
    ConfigError,
>)
    ensures
        history_interval == 0 <==> result == Err::<(), ConfigError>(
            ConfigError::ZeroHistoryInterval,
        ),
        (history_interval != 0 && limits.is_unbounded()) <==> result == Err::<(), ConfigError>(
            ConfigError::NoLimit,
        ),
        (history_interval != 0 && !limits.is_unbounded()) <==> result is Ok,
{
    if history_interval == 0 {
        Err(ConfigError::ZeroHistoryInterval)
    } else {
        limits.check()
    }
}

/// Whether one of the limits that are given answered that it is reached by
/// the particle in `state` after `steps` steps of `time_step` each.
pub open spec fn limit_hit<B: Particle<T>, T>(
    limits: Limits<T>,
    state: B,
    steps: usize,
    time_step: T,
) -> bool {
    ||| limits.max_time is Some && call_ensures(
        B::time_reaches,
        (steps, &time_step, &limits.max_time->Some_0),
        true,
    )
    ||| limits.max_radius is Some && call_ensures(
        B::radius_reaches,
        (&state, &limits.max_radius->Some_0),
        true,
    )
    ||| limits.max_angle is Some && call_ensures(
        B::angle_reaches,
        (&state, &limits.max_angle->Some_0),
        true,
    )
}

/// Whether each of the limits that are given answered that it is not reached
/// by the particle in `state` after `steps` steps of `time_step` each.
pub open spec fn limits_missed<B: Particle<T>, T>(
    limits: Limits<T>,
    state: B,
    steps: usize,
    time_step: T,
) -> bool {
    &&& limits.max_time is Some ==> call_ensures(
        B::time_reaches,
        (steps, &time_step, &limits.max_time->Some_0),
        false,
    )
    &&& limits.max_radius is Some ==> call_ensures(
        B::radius_reaches,
        (&state, &limits.max_radius->Some_0),
        false,
    )
    &&& limits.max_angle is Some ==> call_ensures(
        B::angle_reaches,
        (&state, &limits.max_angle->Some_0),
        false,
    )
}

/// Whether the run has reached one of its limits after `steps` steps: the
/// limits that are given are tried in the order time, radius, angle until one
/// answers that it is reached. A limit that is not given is not asked for, so
/// a run without limits never stops here.
pub fn limit_reached<B: Particle<T>, T>(
    limits: &Limits<T>,
    condition: &B,
    steps: usize,
    time_step: &T,
) -> (reached: bool)
    ensures
        reached ==> limit_hit(*limits, *condition, steps, *time_step),
        !reached ==> limits_missed(*limits, *condition, steps, *time_step),
        limits.is_unbounded() ==> !reached,
{
    let by_time = match &limits.max_time {
        Some(max_time) => B::time_reaches(steps, time_step, max_time),
        None => false,
    };
    if by_time {
        return true;
    }
    let by_radius = match &limits.max_radius {
        Some(max_radius) => condition.radius_reaches(max_radius),
        None => false,
    };
    if by_radius {
        return true;
    }
    match &limits.max_angle {
        Some(max_angle) => condition.angle_reaches(max_angle),
        None => false,
    }
}

/// The loop that every run is built on. It initialises the solver, then
/// steps it until a limit is reached or `max_steps` steps are taken, and
/// keeps the rows that the sampler selects.
fn run_loop<B: Particle<T> + Clone, T: Copy, S: Solver<B, T>>(
    condition: &mut B,
    limits: &Limits<T>,
    sampler: Sampler,
    time_step: T,
    solver: &mut S,
    max_steps: usize,
) -> (run: Trajectory<B>)
    requires
        sampler.follows(Seq::empty()),
    ensures
        run.steps <= max_steps,
        !run.limit_reached ==> run.steps == max_steps,
        is_history(run.samples@, sampler.interval(), run.steps as int),
        (exists|course: Course<B, T, S>|
            #![trigger course.wf()]
            {
                &&& course.wf()
                &&& course.steps() == run.steps
                &&& course.has_history(run.samples@, sampler.interval())
                &&& exists|x: &mut S, y: &mut B, z: &mut T|
                    #![trigger call_ensures(S::init, (x, y, z), ())]
                    {
                        &&& *x == *old(solver) && *y == *old(condition) && *z == time_step
                        &&& *final(x) == course.solvers[0] && *final(y) == course.states[0]
                            && *final(z) == course.stride
                        &&& call_ensures(S::init, (x, y, z), ())
                    }
                &&& forall|i: int|
                    #![trigger course.solvers[i]]
                    0 <= i < course.steps() ==> exists|x: &mut S, y: &mut B|
                        #![trigger call_ensures(S::step, (x, y, &course.stride), ())]
                        {
                            &&& *x == course.solvers[i] && *y == course.states[i]
                            &&& *final(x) == course.solvers[i + 1] && *final(y)
                                == course.states[i + 1]
                            &&& call_ensures(S::step, (x, y, &course.stride), ())
                        }
                &&& forall|i: int|
                    0 <= i < course.steps() ==> limits_missed(
                        *limits,
                        #[trigger] course.states[i],
                        i as usize,
                        time_step,
                    )
                &&& if run.limit_reached {
                    limit_hit(
                        *limits,
                        course.states[course.steps()],
                        run.steps,
                        time_step,
                    )
                } else {
                    limits_missed(
                        *limits,
                        course.states[course.steps()],
                        run.steps,
                        time_step,
                    )
                }
                &&& *final(solver) == course.solvers[course.steps()]
                &&& *final(condition) == course.states[course.steps()]
            }),
{
    let ghost history_interval = sampler.interval();
    let mut sampler = sampler;
    let time_step_given = time_step;
    let mut time_step = time_step;
    let mut history: Vec<Sample<B>> = Vec::new();
    solver.init(condition, &mut time_step);
    let ghost solver_ready = *solver;
    let ghost condition_ready = *condition;
    let ghost mut solvers: Seq<S> = seq![*solver];
    let ghost mut states: Seq<B> = seq![*condition];
    let ghost mut signs: Seq<bool> = Seq::empty();
    let mut steps: usize = 0;
    let mut reached = limit_reached(limits, condition, steps, &time_step_given);
    while !reached && steps < max_steps
        invariant
            steps <= max_steps,
            sampler.interval() == history_interval,
            sampler.follows(signs),
            signs.len() == steps,
            solvers.len() == steps + 1,
            states.len() == steps + 1,
            solvers[0] == solver_ready,
            states[0] == condition_ready,
            solvers[steps as int] == *solver,
            states[steps as int] == *condition,
            forall|j: int|
                0 <= j < steps ==> answers::<B, T>(states[j + 1], #[trigger] signs[j]),
            forall|j: int|
                0 <= j < history@.len() ==> (#[trigger] history@[j]).step < steps && cloned(
                    states[history@[j].step + 1],
                    history@[j].state,
                ),
            sample_indices(history@) =~= sampled_steps(
                signs,
                history_interval,
                steps as int,
            ),
            forall|j: int|
                #![trigger solvers[j]]
                0 <= j < steps ==> exists|x: &mut S, y: &mut B|
                    #![trigger call_ensures(S::step, (x, y, &time_step), ())]
                    {
                        &&& *x == solvers[j] && *y == states[j]
                        &&& *final(x) == solvers[j + 1] && *final(y) == states[j + 1]
                        &&& call_ensures(S::step, (x, y, &time_step), ())
                    },
            forall|j: int|
                0 <= j < steps ==> limits_missed(
                    *limits,
                    #[trigger] states[j],
                    j as usize,
                    time_step_given,
                ),
            reached ==> limit_hit(*limits, states[steps as int], steps, time_step_given),
            !reached ==> limits_missed(*limits, states[steps as int], steps, time_step_given),
        decreases max_steps - steps,
    {
        let ghost solvers_before = solvers;
        let ghost states_before = states;
        let ghost signs_before = signs;
        let ghost history_before = history@;
        solver.step(condition, &time_step);
        let non_negative = condition.radial_velocity_is_non_negative();
        proof {
            lemma_sampler_follows(sampler, signs, non_negative);
            solvers = solvers.push(*solver);
            states = states.push(*condition);
            signs = signs.push(non_negative);
        }
        if sampler.observe(non_negative) {
            history.push(Sample { step: steps, state: condition.clone() });
        }
        proof {
            assert forall|j: int| #![trigger solvers[j]] 0 <= j < steps + 1 implies exists|
                x: &mut S,
                y: &mut B,
            |
                #![trigger call_ensures(S::step, (x, y, &time_step), ())]
                {
                    &&& *x == solvers[j] && *y == states[j]
                    &&& *final(x) == solvers[j + 1] && *final(y) == states[j + 1]
                    &&& call_ensures(S::step, (x, y, &time_step), ())
                } by {
                if j < steps {
                    assert(solvers[j] == solvers_before[j]);
                    assert(solvers[j + 1] == solvers_before[j + 1]);
                    assert(states[j] == states_before[j]);
                    assert(states[j + 1] == states_before[j + 1]);
                }
            }
            assert forall|j: int| 0 <= j < steps + 1 implies answers::<B, T>(
                states[j + 1],
                #[trigger] signs[j],
            ) by {
                if j < steps {
                    assert(signs[j] == signs_before[j]);
                    assert(states[j + 1] == states_before[j + 1]);
                }
            }
            assert forall|j: int| 0 <= j < history@.len() implies (#[trigger] history@[j]).step
                < steps + 1 && cloned(states[history@[j].step + 1], history@[j].state) by {
                if j < history_before.len() {
                    assert(history@[j] == history_before[j]);
                    assert(states[history@[j].step + 1] == states_before[history@[j].step + 1]);
                }
            }
            assert forall|j: int| 0 <= j < steps + 1 implies limits_missed(
                *limits,
                #[trigger] states[j],
                j as usize,
                time_step_given,
            ) by {
                assert(states[j] == states_before[j]);
            }
        }
        steps = steps + 1;
        reached = limit_reached(limits, condition, steps, &time_step_given);
    }
    let run = Trajectory { samples: history, steps, limit_reached: reached };
    proof {
        let course = Course::<B, T, S> { solvers, states, signs, stride: time_step };
        assert(sampled_steps(signs, history_interval, steps as int) == sample_indices(
            run.samples@,
        ));
        assert(course.wf());
        assert(course.has_history(run.samples@, history_interval));
    }
    run
}

/// Runs `iters` steps of `solver` on `condition` and returns the rows that
/// the sampling policy keeps: the row of step `i` holds the state after that
/// step and the time index `i`.
///
/// An interval of zero is rejected before the solver or the state is
/// touched. Otherwise the solver is initialised once, with the state and the
/// time step as they were given, and then steps `iters` times, each time on
/// the state and the solver as the call before left them and with the time
/// step as the initialisation left it. After each step the particle is asked
/// for the sign of its radial velocity, and the rows are those that the
/// sampling policy keeps for these answers.
pub fn simulate_euler<B: Particle<T> + Clone, T: Copy, S: Solver<B, T>>(
    condition: &mut B,
    iters: usize,
    history_interval: usize,
    time_step: T,
    solver: &mut S,
) -> (result: Result<Vec<Sample<B>>, ConfigError>)
    ensures
        history_interval == 0 <==> result == Err::<Vec<Sample<B>>, ConfigError>(
            ConfigError::ZeroHistoryInterval,
        ),
        history_interval != 0 <==> result is Ok,
        result is Err ==> *final(condition) == *old(condition) && *final(solver) == *old(solver),
        result is Ok ==> is_history(result->Ok_0@, history_interval as int, iters as int),
        result is Ok ==> (exists|course: Course<B, T, S>|
            #![trigger course.wf()]
            {
                &&& course.wf()
                &&& course.steps() == iters
                &&& course.has_history(result->Ok_0@, history_interval as int)
                &&& exists|x: &mut S, y: &mut B, z: &mut T|
                    #![trigger call_ensures(S::init, (x, y, z), ())]
                    {
                        &&& *x == *old(solver) && *y == *old(condition) && *z == time_step
                        &&& *final(x) == course.solvers[0] && *final(y) == course.states[0]
                            && *final(z) == course.stride
                        &&& call_ensures(S::init, (x, y, z), ())
                    }
                &&& forall|i: int|
                    #![trigger course.solvers[i]]
                    0 <= i < iters ==> exists|x: &mut S, y: &mut B|
                        #![trigger call_ensures(S::step, (x, y, &course.stride), ())]
                        {
                            &&& *x == course.solvers[i] && *y == course.states[i]
                            &&& *final(x) == course.solvers[i + 1] && *final(y)
                                == course.states[i + 1]
                            &&& call_ensures(S::step, (x, y, &course.stride), ())
                        }
                &&& *final(solver) == course.solvers[iters as int]
                &&& *final(condition) == course.states[iters as int]
            }),
{
    let sampler = match Sampler::new(history_interval) {
        Ok(sampler) => sampler,
        Err(error) => {
            return Err(error);
        },
    };
    let limits: Limits<T> = Limits { max_time: None, max_radius: None, max_angle: None };
    let run = run_loop(condition, &limits, sampler, time_step, solver, iters);
    Ok(run.samples)
}

/// Runs `iters` steps as [`simulate_euler`] does, and keeps two rows more:
/// the state as it was given, under the time index 0, before the rows of the
/// steps, and the state after the last step, under the time index `iters`,
/// after them.
///
/// An interval of zero is rejected before the solver or the state is
/// touched.
pub fn simulate_rk4<B: Particle<T> + Clone, T: Copy, S: Solver<B, T>>(
    condition: &mut B,
    iters: usize,
    history_interval: usize,
    time_step: T,
    solver: &mut S,
) -> (result: Result<Vec<Sample<B>>, ConfigError>)
    ensures
        history_interval == 0 <==> result == Err::<Vec<Sample<B>>, ConfigError>(
            ConfigError::ZeroHistoryInterval,
        ),
        history_interval != 0 <==> result is Ok,
        result is Err ==> *final(condition) == *old(condition) && *final(solver) == *old(solver),
        result is Ok ==> is_bounded_history(
            result->Ok_0@,
            history_interval as int,
            iters as int,
        ),
        result is Ok ==> (exists|course: Course<B, T, S>|
            #![trigger course.wf()]
            {
                &&& course.wf()
                &&& course.steps() == iters
                &&& result->Ok_0@.len() >= 2
                &&& result->Ok_0@.first().step == 0
                &&& cloned(*old(condition), result->Ok_0@.first().state)
                &&& course.has_history(
                    result->Ok_0@.subrange(1, result->Ok_0@.len() - 1),
                    history_interval as int,
                )
                &&& result->Ok_0@.last().step == iters
                &&& cloned(*final(condition), result->Ok_0@.last().state)
                &&& exists|x: &mut S, y: &mut B, z: &mut T|
                    #![trigger call_ensures(S::init, (x, y, z), ())]
                    {
                        &&& *x == *old(solver) && *y == *old(condition) && *z == time_step
                        &&& *final(x) == course.solvers[0] && *final(y) == course.states[0]
                            && *final(z) == course.stride
                        &&& call_ensures(S::init, (x, y, z), ())
                    }
                &&& forall|i: int|
                    #![trigger course.solvers[i]]
                    0 <= i < iters ==> exists|x: &mut S, y: &mut B|
                        #![trigger call_ensures(S::step, (x, y, &course.stride), ())]
                        {
                            &&& *x == course.solvers[i] && *y == course.states[i]
                            &&& *final(x) == course.solvers[i + 1] && *final(y)
                                == course.states[i + 1]
                            &&& call_ensures(S::step, (x, y, &course.stride), ())
                        }
                &&& *final(solver) == course.solvers[iters as int]
                &&& *final(condition) == course.states[iters as int]
            }),
{
    if history_interval == 0 {
        return Err(ConfigError::ZeroHistoryInterval);
    }
    let mut history: Vec<Sample<B>> = Vec::new();
    history.push(Sample { step: 0, state: condition.clone() });
    let mut steps = match simulate_euler(condition, iters, history_interval, time_step, solver) {
        Ok(steps) => steps,
        Err(error) => {
            return Err(error);
        },
    };
    let ghost inner = steps@;
    history.append(&mut steps);
    history.push(Sample { step: iters, state: condition.clone() });
    proof {
        let signs = choose|signs: Seq<bool>|
            signs.len() == iters && #[trigger] sampled_steps(
                signs,
                history_interval as int,
                iters as int,
            ) == sample_indices(inner);
        let rows = bounded_steps(signs, history_interval as int, iters as int);
        assert(rows.len() == history@.len());
        assert forall|j: int| 0 <= j < rows.len() implies rows[j] == sample_indices(
            history@,
        )[j] by {
            if 1 <= j <= inner.len() {
                assert(history@[j] == inner[j - 1]);
                assert(sample_indices(inner)[j - 1] == inner[j - 1].step);
            }
        }
        assert(rows == sample_indices(history@));
        assert(history@.subrange(1, history@.len() - 1) == inner);
    }
    Ok(history)
}

/// Runs `solver` on `condition` until a limit is reached, and at most
/// `max_steps` steps. The row of step `i` holds the state after that step
/// and the time index `i`.
///
/// An interval of zero, and limits of which none is given, are rejected
/// before the solver or the state is touched. Otherwise the solver is
/// initialised once, with the state and the time step as they were given.
/// The limits are then tried, with the number of steps taken and the time
/// step as it was given, and as long as none is reached and the cap allows
/// it the solver steps once more, on the state and the solver as the call
/// before left them and with the time step as the initialisation left it.
/// After each step the particle is asked for the sign of its radial
/// velocity, and the rows are those that the sampling policy keeps for these
/// answers.
pub fn simulate_conditions_rel<B: Particle<T> + Clone, T: Copy, S: Solver<B, T>>(
    condition: &mut B,
    limits: &Limits<T>,
    history_interval: usize,
    time_step: T,
    solver: &mut S,
    max_steps: usize,
) -> (result: Result<Trajectory<B>, ConfigError>)
    ensures
        history_interval == 0 <==> result == Err::<Trajectory<B>, ConfigError>(
            ConfigError::ZeroHistoryInterval,
        ),
        (history_interval != 0 && limits.is_unbounded()) <==> result == Err::<
            Trajectory<B>,
            ConfigError,
        >(ConfigError::NoLimit),
        (history_interval != 0 && !limits.is_unbounded()) <==> result is Ok,
        result is Err ==> *final(condition) == *old(condition) && *final(solver) == *old(solver),
        result is Ok ==> result->Ok_0.steps <= max_steps,
        result is Ok && !result->Ok_0.limit_reached ==> result->Ok_0.steps == max_steps,
        result is Ok ==> is_history(
            result->Ok_0.samples@,
            history_interval as int,
            result->Ok_0.steps as int,
        ),
        result is Ok ==> (exists|course: Course<B, T, S>|
            #![trigger course.wf()]
            {
                &&& course.wf()
                &&& course.steps() == result->Ok_0.steps
                &&& course.has_history(result->Ok_0.samples@, history_interval as int)
                &&& exists|x: &mut S, y: &mut B, z: &mut T|
                    #![trigger call_ensures(S::init, (x, y, z), ())]
                    {
                        &&& *x == *old(solver) && *y == *old(condition) && *z == time_step
                        &&& *final(x) == course.solvers[0] && *final(y) == course.states[0]
                            && *final(z) == course.stride
                        &&& call_ensures(S::init, (x, y, z), ())
                    }
                &&& forall|i: int|
                    #![trigger course.solvers[i]]
                    0 <= i < course.steps() ==> exists|x: &mut S, y: &mut B|
                        #![trigger call_ensures(S::step, (x, y, &course.stride), ())]
                        {
                            &&& *x == course.solvers[i] && *y == course.states[i]
                            &&& *final(x) == course.solvers[i + 1] && *final(y)
                                == course.states[i + 1]
                            &&& call_ensures(S::step, (x, y, &course.stride), ())
                        }
                &&& forall|i: int|
                    0 <= i < course.steps() ==> limits_missed(
                        *limits,
                        #[trigger] course.states[i],
                        i as usize,
                        time_step,
                    )
                &&& if result->Ok_0.limit_reached {
                    limit_hit(
                        *limits,
                        course.states[course.steps()],
                        result->Ok_0.steps,
                        time_step,
                    )
                } else {
                    limits_missed(
                        *limits,
                        course.states[course.steps()],
                        result->Ok_0.steps,
                        time_step,
                    )
                }
                &&& *final(solver) == course.solvers[course.steps()]
                &&& *final(condition) == course.states[course.steps()]
            }),
{
    match check_run(history_interval, limits) {
        Ok(_) => {},
        Err(error) => {
            return Err(error);
        },
    }
    match Sampler::new(history_interval) {
        Ok(sampler) => Ok(run_loop(condition, limits, sampler, time_step, solver, max_steps)),
        Err(error) => Err(error),
    }
}

/// A run of at least one step has at least one row. The first row is that of
/// step 0, and the time indices of the rows grow from row to row and stay
/// below the number of steps.
pub proof fn lemma_history_ordered<B>(samples: Seq<Sample<B>>, interval: int, steps: int)
    requires
        is_history(samples, interval, steps),
        interval >= 1,
        steps >= 1,
    ensures
        samples.len() >= 1,
        samples.len() <= steps,
        samples[0].step == 0,
        forall|a: int, b: int|
            0 <= a < b < samples.len() ==> (#[trigger] samples[a]).step < (
            #[trigger] samples[b]).step,
        forall|a: int| 0 <= a < samples.len() ==> (#[trigger] samples[a]).step < steps,
{
    let signs = choose|signs: Seq<bool>|
        signs.len() == steps && #[trigger] sampled_steps(signs, interval, steps) == sample_indices(
            samples,
        );
    let kept = sampled_steps(signs, interval, steps);
    lemma_first_step_sampled(signs, interval, steps);
    lemma_sampled_steps_increasing(signs, interval, steps);
    assert(kept.len() == samples.len());
    assert(kept[0] == samples[0].step);
    assert forall|a: int, b: int| 0 <= a < b < samples.len() implies (#[trigger] samples[a]).step
        < (#[trigger] samples[b]).step by {
        assert(kept[a] == samples[a].step);
        assert(kept[b] == samples[b].step);
    }
    assert forall|a: int| 0 <= a < samples.len() implies (#[trigger] samples[a]).step < steps by {
        assert(kept[a] == samples[a].step);
    }
}

/// With a history interval of one a run has exactly one row for each step,
/// in order.
pub proof fn lemma_unit_interval_history<B>(samples: Seq<Sample<B>>, steps: int)
    requires
        is_history(samples, 1, steps),
        steps >= 0,
    ensures
        samples.len() == steps,
        forall|j: int| 0 <= j < steps ==> (#[trigger] samples[j]).step == j,
{
    let signs = choose|signs: Seq<bool>|
        signs.len() == steps && #[trigger] sampled_steps(signs, 1, steps) == sample_indices(
            samples,
        );
    let kept = sampled_steps(signs, 1, steps);
    lemma_unit_interval_keeps_all(signs, steps);
    assert(kept.len() == steps);
    assert(kept.len() == samples.len());
    assert forall|j: int| 0 <= j < steps implies (#[trigger] samples[j]).step == j by {
        assert(kept[j] == samples[j].step);
    }
}

/// A run that keeps its first and last state has at least two rows; the
/// first has the time index 0, the last the number of steps, and the time
/// indices never decrease from row to row. With a history interval of one it
/// has exactly two rows more than steps.
pub proof fn lemma_bounded_history_ordered<B>(samples: Seq<Sample<B>>, interval: int, steps: int)
    requires
        is_bounded_history(samples, interval, steps),
        steps >= 0,
    ensures
        samples.len() >= 2,
        samples.first().step == 0,
        samples.last().step == steps,
        forall|a: int, b: int|
            0 <= a <= b < samples.len() ==> (#[trigger] samples[a]).step <= (
            #[trigger] samples[b]).step,
        interval == 1 ==> samples.len() == steps + 2,
{
    let signs = choose|signs: Seq<bool>|
        signs.len() == steps && #[trigger] bounded_steps(signs, interval, steps) == sample_indices(
            samples,
        );
    let rows = bounded_steps(signs, interval, steps);
    lemma_bounded_steps_ordered(signs, interval, steps);
    assert(rows.len() == samples.len());
    assert(rows[0] == samples[0].step);
    assert(rows[rows.len() - 1] == samples[samples.len() - 1].step);
    assert forall|a: int, b: int| 0 <= a <= b < samples.len() implies (#[trigger] samples[a]).step
        <= (#[trigger] samples[b]).step by {
        assert(rows[a] == samples[a].step);
        assert(rows[b] == samples[b].step);
    }
    if interval == 1 {
        lemma_unit_interval_keeps_all(signs, steps);
        assert(sampled_steps(signs, 1, steps).len() == steps);
    }
}

/// Turning-point coverage: where the particle's answer after step `i + 1`
/// differs from its answer after step `i`, the history has a row for step
/// `i + 1`, or else `i` is a multiple of the interval and the history has a
/// row for step `i`, whatever the interval.
pub proof fn lemma_history_covers_turning_point<B: Particle<T> + Clone, T, S>(
    course: Course<B, T, S>,
    samples: Seq<Sample<B>>,
    interval: int,
    i: int,
)
    requires
        course.has_history(samples, interval),
        interval >= 1,
        0 <= i,
        i + 1 < course.steps(),
        course.signs[i] != course.signs[i + 1],
    ensures
        exists|j: int|
            0 <= j < samples.len() && ((#[trigger] samples[j]).step == i + 1 || (i % interval == 0
                && samples[j].step == i)),
{
    let kept = sampled_steps(course.signs, interval, course.steps());
    lemma_turning_point_sampled(course.signs, interval, course.steps(), i);
    let at = if kept.contains(i + 1) {
        i + 1
    } else {
        i
    };
    let j = choose|j: int| 0 <= j < kept.len() && kept[j] == at;
    assert(sample_indices(samples)[j] == samples[j].step);
}

} // verus!
