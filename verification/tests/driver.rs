use schwarzchild_sim::sampling::sample_steps;
use schwarzchild_sim::{
    check_run, limit_reached, simulate_conditions_rel, simulate_euler, simulate_rk4, ConfigError,
    EulerSolve3, EulerSolve4, Limits, Particle, Sample, Scheme, Solver, Solvers, Units,
};

const G: f64 = 6.674e-11;
const C: f64 = 3e8;
const M_SUN: f64 = 2e30;
const AU: f64 = 1.5e11;

#[derive(Debug, Clone, PartialEq)]
struct Body {
    mass: f64,
    radius: f64,
    radial_velocity: f64,
    angle: f64,
    angular_velocity: f64,
}

impl Particle<f64> for Body {
    fn radial_velocity_is_non_negative(&self) -> bool {
        self.radial_velocity >= 0.
    }

    fn radius_reaches(&self, max_radius: &f64) -> bool {
        self.radius >= *max_radius
    }

    fn angle_reaches(&self, max_angle: &f64) -> bool {
        self.angle >= *max_angle
    }

    fn time_reaches(steps: usize, time_step: &f64, max_time: &f64) -> bool {
        steps as f64 * *time_step >= *max_time
    }
}

/// Plays back a list of radial velocities, one per step, and counts its calls.
#[derive(Debug, Clone, PartialEq)]
struct Playback {
    velocities: Vec<f64>,
    inits: usize,
    steps: usize,
}

impl Playback {
    fn new(velocities: Vec<f64>) -> Self {
        Playback { velocities, inits: 0, steps: 0 }
    }
}

impl Solver<Body, f64> for Playback {
    fn init(&mut self, _: &mut Body, time_step: &mut f64) {
        self.inits += 1;
        *time_step *= 2.;
    }

    fn step(&mut self, condition: &mut Body, time_step: &f64) {
        condition.radial_velocity = self.velocities[self.steps % self.velocities.len()];
        condition.radius += condition.radial_velocity * *time_step;
        condition.angle += condition.angular_velocity * *time_step;
        self.steps += 1;
    }
}

fn geometrized_step(variant: Solvers, condition: &mut Body, time_step: f64) {
    let r2 = condition.radius * condition.radius;
    let omega2 = condition.angular_velocity * condition.angular_velocity;
    let dr = condition.radial_velocity * time_step;
    let dtheta = condition.angular_velocity * time_step;
    let domega = -2. * condition.angular_velocity * dr / condition.radius;
    let dv = (-0.5 * condition.mass * (1. / r2 + omega2)
        + (condition.radius - condition.mass) * omega2)
        * time_step;
    let old_h = condition.radius * condition.radius * condition.angular_velocity;
    if variant.corrects_radius() {
        condition.radius += dr + 0.5 * dv * time_step;
    } else {
        condition.radius += dr;
    }
    if variant.corrects_angle() {
        condition.angle += dtheta + 0.5 * domega * time_step;
    } else {
        condition.angle += dtheta;
    }
    if variant.conserves_angular_momentum() {
        condition.angular_velocity = old_h / (condition.radius * condition.radius);
    } else {
        condition.angular_velocity += domega;
    }
    condition.radial_velocity += dv;
}

fn geometrize(initial_condition: &mut Body, time_step: &mut f64) {
    initial_condition.mass *= 2. * G / (C * C);
    initial_condition.radial_velocity /= C;
    initial_condition.angular_velocity /= C;
    *time_step *= C;
}

impl Solver<Body, f64> for EulerSolve3 {
    fn init(&mut self, initial_condition: &mut Body, time_step: &mut f64) {
        assert_eq!(self.solver().units(), Units::Geometrized);
        geometrize(initial_condition, time_step);
    }

    fn step(&mut self, condition: &mut Body, time_step: &f64) {
        geometrized_step(self.solver(), condition, *time_step);
    }
}

impl Solver<Body, f64> for EulerSolve4 {
    fn init(&mut self, initial_condition: &mut Body, time_step: &mut f64) {
        assert_eq!(self.solver().units(), Units::Geometrized);
        geometrize(initial_condition, time_step);
    }

    fn step(&mut self, condition: &mut Body, time_step: &f64) {
        geometrized_step(self.solver(), condition, *time_step);
    }
}

fn resting_body() -> Body {
    Body { mass: 1., radius: 10., radial_velocity: 0., angle: 0., angular_velocity: 0.5 }
}

fn mercury() -> Body {
    Body {
        mass: M_SUN,
        radius: 6.9818e10,
        radial_velocity: 0.,
        angle: 0.,
        angular_velocity: 3.886e4 / 6.9818e10,
    }
}

fn indices(rows: &[Sample<Body>]) -> Vec<usize> {
    rows.iter().map(|row| row.step).collect()
}

#[test]
fn fixed_run_keeps_the_steps_of_the_policy() {
    let velocities = vec![1., 1., -1., -1., 1., 1., 1., -1.];
    let signs: Vec<bool> = velocities.iter().map(|v| *v >= 0.).collect();
    let mut body = resting_body();
    let mut solver = Playback::new(velocities);
    let rows = simulate_euler(&mut body, 8, 3, 0.25, &mut solver).unwrap();
    assert_eq!(indices(&rows), vec![0, 2, 3, 4, 6, 7]);
    assert_eq!(indices(&rows), sample_steps(&signs, 3).unwrap());
    assert_eq!(solver.inits, 1);
    assert_eq!(solver.steps, 8);
}

#[test]
fn fixed_run_rows_hold_the_state_after_their_step() {
    let mut body = resting_body();
    let mut solver = Playback::new(vec![2.]);
    // The solver doubles the time step when it is initialised.
    let rows = simulate_euler(&mut body, 4, 2, 0.25, &mut solver).unwrap();
    assert_eq!(indices(&rows), vec![0, 2]);
    assert_eq!(rows[0].state.radius, 11.);
    assert_eq!(rows[0].state.angle, 0.25);
    assert_eq!(rows[1].state.radius, 13.);
    assert_eq!(rows[1].state.angle, 0.75);
    assert_eq!(body.radius, 14.);
    assert_eq!(body.angle, 1.);
}

#[test]
fn fixed_run_with_unit_interval_has_one_row_per_step() {
    let mut body = resting_body();
    let mut solver = Playback::new(vec![1., -1., -1.]);
    let rows = simulate_euler(&mut body, 25, 1, 0.1, &mut solver).unwrap();
    assert_eq!(indices(&rows), (0..25).collect::<Vec<usize>>());
}

#[test]
fn fixed_run_of_no_steps_has_no_rows() {
    let mut body = resting_body();
    let mut solver = Playback::new(vec![1.]);
    let rows = simulate_euler(&mut body, 0, 5, 0.1, &mut solver).unwrap();
    assert!(rows.is_empty());
    assert_eq!(solver.inits, 1);
    assert_eq!(solver.steps, 0);
}

#[test]
fn zero_interval_is_rejected_before_anything_is_touched() {
    let mut body = resting_body();
    let mut solver = Playback::new(vec![1.]);
    assert!(matches!(
        simulate_euler(&mut body, 10, 0, 0.1, &mut solver),
        Err(ConfigError::ZeroHistoryInterval)
    ));
    assert!(matches!(
        simulate_rk4(&mut body, 10, 0, 0.1, &mut solver),
        Err(ConfigError::ZeroHistoryInterval)
    ));
    let limits = Limits { max_time: Some(1.), max_radius: None, max_angle: None };
    assert!(matches!(
        simulate_conditions_rel(&mut body, &limits, 0, 0.1, &mut solver, 10),
        Err(ConfigError::ZeroHistoryInterval)
    ));
    assert_eq!(body, resting_body());
    assert_eq!(solver, Playback::new(vec![1.]));
}

#[test]
fn missing_limits_are_rejected_before_anything_is_touched() {
    let mut body = resting_body();
    let mut solver = Playback::new(vec![1.]);
    let limits: Limits<f64> = Limits { max_time: None, max_radius: None, max_angle: None };
    assert!(matches!(
        simulate_conditions_rel(&mut body, &limits, 3, 0.1, &mut solver, 10),
        Err(ConfigError::NoLimit)
    ));
    assert_eq!(body, resting_body());
    assert_eq!(solver, Playback::new(vec![1.]));
    assert_eq!(check_run(3, &limits), Err(ConfigError::NoLimit));
    assert_eq!(check_run(0, &limits), Err(ConfigError::ZeroHistoryInterval));
    assert_eq!(limits.check(), Err(ConfigError::NoLimit));
}

#[test]
fn one_limit_is_enough() {
    let time: Limits<f64> = Limits { max_time: Some(1.), max_radius: None, max_angle: None };
    let radius: Limits<f64> = Limits { max_time: None, max_radius: Some(1.), max_angle: None };
    let angle: Limits<f64> = Limits { max_time: None, max_radius: None, max_angle: Some(1.) };
    assert_eq!(check_run(1, &time), Ok(()));
    assert_eq!(check_run(1, &radius), Ok(()));
    assert_eq!(check_run(1, &angle), Ok(()));
    assert_eq!(check_run(0, &angle), Err(ConfigError::ZeroHistoryInterval));
}

#[test]
fn limits_are_joined_by_or() {
    let body = resting_body();
    let none: Limits<f64> = Limits { max_time: None, max_radius: None, max_angle: None };
    assert!(!limit_reached(&none, &body, 1000, &1.));
    let time = Limits { max_time: Some(2.), max_radius: None, max_angle: None };
    assert!(!limit_reached(&time, &body, 3, &0.5));
    assert!(limit_reached(&time, &body, 4, &0.5));
    let radius = Limits { max_time: Some(2.), max_radius: Some(10.), max_angle: None };
    assert!(limit_reached(&radius, &body, 0, &0.5));
    let angle = Limits { max_time: Some(2.), max_radius: Some(11.), max_angle: Some(0.) };
    assert!(limit_reached(&angle, &body, 0, &0.5));
    let far = Limits { max_time: Some(2.), max_radius: Some(11.), max_angle: Some(1.) };
    assert!(!limit_reached(&far, &body, 0, &0.5));
}

#[test]
fn bounded_run_keeps_first_and_last_state() {
    let velocities = vec![1., 1., -1., -1., 1., 1., 1., -1.];
    let mut body = resting_body();
    let mut solver = Playback::new(velocities);
    let rows = simulate_rk4(&mut body, 8, 3, 0.25, &mut solver).unwrap();
    assert_eq!(indices(&rows), vec![0, 0, 2, 3, 4, 6, 7, 8]);
    assert_eq!(rows[0].state, resting_body());
    assert_eq!(rows[7].state, body);
    assert_eq!(rows[6].state, body);
}

#[test]
fn bounded_run_of_no_steps_has_two_rows() {
    let mut body = resting_body();
    let mut solver = Playback::new(vec![1.]);
    let rows = simulate_rk4(&mut body, 0, 4, 0.25, &mut solver).unwrap();
    assert_eq!(indices(&rows), vec![0, 0]);
    assert_eq!(rows[0].state, resting_body());
    assert_eq!(rows[1].state, resting_body());
}

#[test]
fn bounded_run_with_unit_interval_has_two_rows_more_than_steps() {
    let mut body = resting_body();
    let mut solver = Playback::new(vec![1., -1.]);
    let rows = simulate_rk4(&mut body, 12, 1, 0.25, &mut solver).unwrap();
    assert_eq!(rows.len(), 14);
    assert!(rows.windows(2).all(|pair| pair[0].step <= pair[1].step));
}

#[test]
fn limited_run_stops_on_elapsed_time() {
    let mut body = resting_body();
    let mut solver = Playback::new(vec![1., 1., -1.]);
    let limits = Limits { max_time: Some(1.), max_radius: None, max_angle: None };
    // Elapsed time is counted in the time step as given, 0.25, not as the
    // solver left it.
    let run = simulate_conditions_rel(&mut body, &limits, 2, 0.25, &mut solver, usize::MAX)
        .unwrap();
    assert_eq!(run.steps, 4);
    assert!(run.limit_reached);
    assert_eq!(indices(&run.samples), vec![0, 2]);
    assert_eq!(solver.steps, 4);
}

#[test]
fn limited_run_stops_on_radius_or_angle() {
    let mut body = resting_body();
    let mut solver = Playback::new(vec![1.]);
    let limits = Limits { max_time: None, max_radius: Some(12.), max_angle: Some(100.) };
    let run = simulate_conditions_rel(&mut body, &limits, 10, 0.5, &mut solver, usize::MAX)
        .unwrap();
    assert_eq!(run.steps, 2);
    assert_eq!(body.radius, 12.);
    assert_eq!(indices(&run.samples), vec![0]);

    let mut body = resting_body();
    let mut solver = Playback::new(vec![0.]);
    let limits = Limits { max_time: None, max_radius: Some(12.), max_angle: Some(1.5) };
    let run = simulate_conditions_rel(&mut body, &limits, 10, 0.5, &mut solver, usize::MAX)
        .unwrap();
    assert_eq!(run.steps, 3);
    assert_eq!(body.angle, 1.5);
}

#[test]
fn limited_run_with_limit_reached_at_the_start_takes_no_step() {
    let mut body = resting_body();
    let mut solver = Playback::new(vec![1.]);
    let limits = Limits { max_time: None, max_radius: Some(10.), max_angle: None };
    let run = simulate_conditions_rel(&mut body, &limits, 1, 0.5, &mut solver, usize::MAX)
        .unwrap();
    assert_eq!(run.steps, 0);
    assert!(run.limit_reached);
    assert!(run.samples.is_empty());
    assert_eq!(solver.inits, 1);
    assert_eq!(solver.steps, 0);
}

#[test]
fn limited_run_ends_at_its_cap() {
    let mut body = resting_body();
    let mut solver = Playback::new(vec![-1., 1.]);
    let limits = Limits { max_time: None, max_radius: Some(1e9), max_angle: None };
    let run = simulate_conditions_rel(&mut body, &limits, 4, 0.5, &mut solver, 9).unwrap();
    assert_eq!(run.steps, 9);
    assert!(!run.limit_reached);
    assert_eq!(indices(&run.samples), vec![0, 2, 3, 4, 6, 7, 8]);
}

#[test]
fn run_schwarzchild_sim() {
    let mut body = mercury();
    assert_eq!(Solvers::from_version(3), Ok(Solvers::Euler3));
    let mut solver = EulerSolve3;
    let limits = Limits {
        max_time: None,
        max_radius: Some(10. * AU),
        max_angle: Some(100. * 2. * std::f64::consts::PI),
    };
    // A hundred orbits take some thousand million steps: the run is cut short.
    let run = simulate_conditions_rel(&mut body, &limits, 10000, 1e-1, &mut solver, 2_000_000)
        .unwrap();
    assert_eq!(run.steps, 2_000_000);
    assert!(!run.limit_reached);
    assert!(run.samples.len() >= 200);
    assert_eq!(run.samples[0].step, 0);
    assert!(run.samples.windows(2).all(|pair| pair[0].step < pair[1].step));
    assert!(run.samples.windows(2).all(|pair| pair[0].state.angle <= pair[1].state.angle));
    assert!(run.samples.iter().all(|row| row.state.radius > 0. && row.state.radius < 10. * AU));
    // The mass is in geometrized units after the run.
    assert_eq!(body.mass, 2e30 * (2. * G / (C * C)));
}

#[test]
fn mercury_orbit_reaches_its_angle() {
    let mut body = mercury();
    let mut solver = EulerSolve3;
    let limits = Limits { max_time: None, max_radius: Some(10. * AU), max_angle: Some(0.001) };
    let run = simulate_conditions_rel(&mut body, &limits, 100, 1e-1, &mut solver, usize::MAX)
        .unwrap();
    assert!(run.limit_reached);
    assert!(body.angle >= 0.001);
    assert!(run.steps > 0);
    assert_eq!(run.samples.len(), (run.steps + 99) / 100 + count_turns(&run.samples));
}

fn count_turns(rows: &[Sample<Body>]) -> usize {
    rows.iter().filter(|row| row.step % 100 != 0).count()
}

#[test]
fn conserving_variant_keeps_the_angular_momentum() {
    let mut body = mercury();
    let mut solver = EulerSolve4;
    let rows = simulate_euler(&mut body, 50_000, 1000, 1e-1, &mut solver).unwrap();
    // Fifty rows for the interval, and one for step 1, where the particle
    // has begun to fall inward from its greatest distance.
    assert_eq!(rows.len(), 51);
    assert_eq!(rows[0].step, 0);
    assert_eq!(rows[1].step, 1);
    assert_eq!(rows[2].step, 1000);
    assert!(rows[1].state.radial_velocity < 0.);
    // In geometrized units the angular velocity is divided by the speed of light.
    let momentum = 6.9818e10 * 6.9818e10 * (3.886e4 / 6.9818e10 / C);
    for row in &rows {
        let now = row.state.radius * row.state.radius * row.state.angular_velocity;
        assert!(((now - momentum) / momentum).abs() < 1e-12);
    }
}
