use chaos_theory::chaos_data::ChaosData;
use chaos_theory::coulomb::NewtonColoumb;
use chaos_theory::distribution::{Fixed, InitialDistributionVariant, Linspace, RandomVariate};
use chaos_theory::integrator::{IntegrationFailure, Integrator, OdeSolverTrait};
use chaos_theory::labels::{ChaosDescription, ChaosFormula};
use chaos_theory::lookahead::LookaheadBuffer;
use chaos_theory::newton::{
    CollisionParams, Force, IntegrationParams, NewtonParams, NewtonState,
};
use chaos_theory::scalar::Scalar;
use chaos_theory::solver::ParticleOdeSolver;
use ode_solvers::{Rk4, System, Vector4};
use rand::{thread_rng, Rng};
use std::collections::BTreeSet;

#[derive(Clone, Copy, Debug, PartialEq)]
struct Float(f64);

/// The number as the library holds it: of all the representations of
/// not-a-number, one is settled on.
fn settled(x: f64) -> Float {
    if x.is_nan() {
        Float(f64::NAN)
    } else {
        Float(x)
    }
}

impl Scalar for Float {
    fn zero() -> Self {
        Float(0.0)
    }
    fn one() -> Self {
        Float(1.0)
    }
    fn epsilon() -> Self {
        Float(f64::EPSILON)
    }
    fn from_i16(n: i16) -> Self {
        Float(n as f64)
    }
    fn from_usize(n: usize) -> Self {
        Float(n as f64)
    }
    fn plus(self, rhs: Self) -> Self {
        settled(self.0 + rhs.0)
    }
    fn minus(self, rhs: Self) -> Self {
        settled(self.0 - rhs.0)
    }
    fn times(self, rhs: Self) -> Self {
        settled(self.0 * rhs.0)
    }
    fn over(self, rhs: Self) -> Self {
        settled(self.0 / rhs.0)
    }
    fn neg(self) -> Self {
        settled(-self.0)
    }
    fn abs(self) -> Self {
        settled(self.0.abs())
    }
    fn sqrt(self) -> Self {
        settled(self.0.sqrt())
    }
    fn max(self, rhs: Self) -> Self {
        if rhs.0 > self.0 || self.0.is_nan() {
            settled(rhs.0)
        } else {
            self
        }
    }
    fn lt(self, rhs: Self) -> bool {
        self.0 < rhs.0
    }
    fn le(self, rhs: Self) -> bool {
        self.0 <= rhs.0
    }
    fn equals(self, rhs: Self) -> bool {
        self.0 == rhs.0
    }
    fn is_finite(self) -> bool {
        self.0.is_finite()
    }
    fn is_sign_negative(self) -> bool {
        self.0.is_sign_negative()
    }
    fn signum(self) -> Self {
        settled(self.0.signum())
    }
    fn two_decimals(self) -> String {
        format!("{:.2}", self.0)
    }
    fn ln(self) -> Self {
        settled(self.0.ln())
    }
    fn exp(self) -> Self {
        settled(self.0.exp())
    }
    fn powf(self, exponent: Self) -> Self {
        settled(self.0.powf(exponent.0))
    }
}

impl RandomVariate for Float {
    fn draw(_distribution: &InitialDistributionVariant<Self>) -> Self {
        Float(thread_rng().gen_range(0.0..1.0))
    }
}

type State2 = chaos_theory::vector::State2<Float>;
type State4 = chaos_theory::vector::State4<Float>;
type ParticleXYConf = chaos_theory::configs::ParticleXY<Float>;
type ParticleXY = chaos_theory::particle_variants::ParticleXY<Float>;
type ForceXY = NewtonColoumb<State2, State4, ParticleXYConf>;
type ParticleXYSystemSolver =
    chaos_theory::particle_variants::ParticleXYSystemSolver<Float, FastIntegratorXY>;

/// Motion under a constant acceleration.
struct Motion {
    acceleration: [f64; 2],
}

impl System<f64, Vector4<f64>> for Motion {
    fn system(&self, _t: f64, y: &Vector4<f64>, dy: &mut Vector4<f64>) {
        *dy = Vector4::new(y[2], y[3], self.acceleration[0], self.acceleration[1]);
    }
}

/// A fixed-step solver for the motion of one particle. It hands back the
/// point it starts from as the first of its states, so that a run of `n`
/// steps yields `n + 1` states.
#[derive(Clone, Debug)]
struct FastIntegratorXY {
    step_size: f64,
    max_step: f64,
    is_random: bool,
}

impl Default for FastIntegratorXY {
    fn default() -> Self {
        Self {
            step_size: 0.01,
            max_step: 0.11,
            is_random: true,
        }
    }
}

impl Integrator for FastIntegratorXY {
    type Input = ParticleXY;
    type Output = State4;
    type Time = Float;
    fn set_steps(&mut self, num_steps: usize) {
        self.max_step = self.step_size * (num_steps as f64);
    }
    fn set_randomness(&mut self, randomness: bool) {
        self.is_random = randomness;
    }
    fn integration_time(&self) -> Float {
        if self.is_random {
            Float(thread_rng().gen_range(self.step_size..self.max_step))
        } else {
            Float(self.max_step)
        }
    }
    fn integrate(&self, p: &ParticleXY) -> Result<LookaheadBuffer<State4>, IntegrationFailure> {
        let y = p.get_state();
        let y0 = Vector4::new(y.get(0).0, y.get(1).0, y.get(2).0, y.get(3).0);
        let force = p.force.get_state();
        let motion = Motion {
            acceleration: [force.get(0).0 / p.mass.0, force.get(1).0 / p.mass.0],
        };
        let mut stepper = Rk4::new(motion, 0.0, y0, self.integration_time().0, self.step_size);
        let _ = stepper.integrate();
        let states: Vec<State4> = stepper
            .y_out()
            .iter()
            .map(|y| State4::new(Float(y[0]), Float(y[1]), Float(y[2]), Float(y[3])))
            .collect();
        Ok(LookaheadBuffer::from_vec(states))
    }
}

fn pos(x: f64, y: f64) -> State2 {
    State2::new(Float(x), Float(y))
}

fn init_particles_from_pos(
    positions: Vec<State2>,
    short: f64,
    mid: f64,
    mass: f64,
) -> Vec<Option<ParticleXY>> {
    let vel = State2::zeros();
    positions
        .into_iter()
        .map(|pos| {
            Some(ParticleXY::new(
                Float(short),
                Float(mid),
                Float(mass),
                State4::from_position_and_velocity(pos, vel),
            ))
        })
        .collect()
}

fn set_particles_velocity(particles: &mut [Option<ParticleXY>], velocities: Vec<State2>) {
    particles.iter_mut().zip(velocities).for_each(|(p, vel)| {
        if let Some(p) = p.as_mut() {
            p.state.set_velocity(vel);
        }
    })
}

fn init_solver(particles: &mut [Option<ParticleXY>], s: f64, m: f64, l: f64) -> ParticleXYSystemSolver {
    let params = ParticleXYConf {
        s: Float(s),
        m: Float(m),
        l: Float(l),
    };
    let mut solver = ParticleXYSystemSolver::new(params);
    solver.initial_states(particles);
    solver.execute(particles, 1);
    solver
}

fn fixed(x: f64) -> InitialDistributionVariant<Float> {
    InitialDistributionVariant::Fixed(Fixed { value: Float(x) })
}

#[test]
fn test_particle_xy_instantiation_and_total_collision() {
    let num_points = 3;
    let distr = vec![
        fixed(1.0),
        fixed(0.0),
        fixed(10.0),
        InitialDistributionVariant::Linspace(Linspace {
            low: Float(0.0),
            high: Float(1.0),
        }),
        fixed(0.0),
        fixed(0.0),
        fixed(0.0),
    ];
    let mut chaos_data = ChaosData::<ParticleXY>::new(num_points, &distr);
    let particles = chaos_data.data_mut();
    let mut solver = init_solver(particles, 1.0, 1.0, 1.0);
    let mut num_particles = 0;
    particles.iter().enumerate().for_each(|(i, p)| {
        if let Some(p) = p {
            num_particles += 1;
            assert_eq!(
                solver.params.integration_steps() + 1,
                solver.iterators[i].len(),
                "Integration should yield the specified number of steps!"
            );
            assert_eq!(p.mass, Float(30.0), "Mass must be the sum of the three particles!");
        }
    });
    assert_eq!(
        num_particles, 1,
        "Nearby particles must have collided into one!"
    );
    solver.execute(particles, 1);
}

#[test]
fn test_particle_xy_collision_inelastic() {
    let mass = 1.0;
    let pos_0 = pos(-5.0, 0.0);
    let pos_1 = pos(0.0, 0.0);
    let pos_2 = pos(1.0, 0.0);
    let pos_3 = pos(2.0, 0.0);
    let pos_4 = pos(-1.0, 0.0);
    let positions = vec![pos_0, pos_1, pos_2, pos_3, pos_4];
    let mut particles: Vec<Option<ParticleXY>> = init_particles_from_pos(positions, 1.0, 0.0, mass);
    let mut solver = init_solver(&mut particles, 1.0, 0.0, 0.0);
    let valid_p: Vec<(usize, bool)> = particles
        .iter()
        .enumerate()
        .filter_map(|(i, p)| p.as_ref().map(|p| (i, p.has_collided)))
        .collect();
    assert_eq!(
        valid_p,
        vec![(0, false), (4, true)],
        "Particles must have collided!"
    );
    solver.execute(&mut particles, 1);
}

#[test]
fn test_particle_xy_collision_elastic() {
    let mass = 1.0;
    let pos_0 = pos(-5.0, 0.0);
    let pos_1 = pos(0.0, 0.0);
    let pos_2 = pos(1.0, 0.0);
    let positions = vec![pos_0, pos_1, pos_2];
    let mut particles: Vec<Option<ParticleXY>> = init_particles_from_pos(positions, 1.0, 0.0, mass);
    let vel_x_1 = 1.0;
    let vel_x_2 = -1.0;
    set_particles_velocity(
        &mut particles,
        vec![State2::zeros(), pos(vel_x_1, 0.0), pos(vel_x_2, 0.0)],
    );
    let mut solver = init_solver(&mut particles, -1.0, 0.0, 0.0);
    let valid_p: Vec<(usize, bool)> = particles
        .iter()
        .enumerate()
        .filter_map(|(i, p)| p.as_ref().map(|p| (i, p.has_collided)))
        .collect();
    assert_eq!(
        valid_p,
        vec![(0, false), (1, true), (2, true)],
        "Particles 1 and 2 must have collided!"
    );
    let new_vel_1 = particles[1].as_ref().unwrap().get_state().velocity();
    let new_vel_2 = particles[2].as_ref().unwrap().get_state().velocity();
    assert_eq!(new_vel_1.get(0).0, vel_x_2);
    assert_eq!(new_vel_2.get(0).0, vel_x_1);
    solver.execute(&mut particles, 1);
}

#[test]
fn test_particle_xy_force_attractive() {
    let (x_0, x_1) = (-3.0, 3.0);
    let pos_0 = pos(x_0, 0.0);
    let pos_1 = pos(x_1, 0.0);
    let mut particles: Vec<Option<ParticleXY>> =
        init_particles_from_pos(vec![pos_0, pos_1], 0.0, -1.0, 1.0);
    let mut solver = init_solver(&mut particles, 0.0, 0.0, 1.0);
    solver.execute(&mut particles, 2);
    let (p_0, p_1) = (
        particles[0]
            .as_ref()
            .expect("Particle should still exist!")
            .clone(),
        particles[1]
            .as_ref()
            .expect("Particle should still exist!")
            .clone(),
    );
    assert_eq!(
        (p_0.force.state.get(0).0, p_0.force.state.get(1).0),
        (-p_1.force.state.get(0).0, -p_1.force.state.get(1).0),
        "Forces must be set pairwise!"
    );
    assert!(
        p_0.force.state.get(0).0 > 0.0,
        "Left particle is attracted to the right!"
    );
    assert!(
        p_0.state.get(2).0 > 0.0,
        "Left particle is moving to the right!"
    );
    assert!(
        p_0.state.get(0).0 - x_0 > 0.0,
        "Left particle has moved to the right!"
    );
    assert_eq!(
        p_0.state.get(0).0 - x_0,
        x_1 - p_1.state.get(0).0,
        "Particles moved anti-symmetric."
    );
}

fn bare_solver(s: f64, m: f64, l: f64) -> ParticleXYSystemSolver {
    ParticleXYSystemSolver::new(ParticleXYConf {
        s: Float(s),
        m: Float(m),
        l: Float(l),
    })
}

fn graph_of(solver: &ParticleXYSystemSolver) -> Vec<(usize, Vec<usize>)> {
    solver
        .temp_collision_indices
        .iter()
        .map(|(i, offsets)| (*i, offsets.iter().copied().collect()))
        .collect()
}

#[test]
fn two_particles_at_one_place_merge() {
    let mut particles = init_particles_from_pos(vec![pos(2.0, -1.0), pos(2.0, -1.0)], 1.0, 0.0, 1.0);
    set_particles_velocity(&mut particles, vec![pos(0.5, 0.25), pos(0.5, 0.25)]);
    let mut solver = bare_solver(1.0, 0.0, 0.0);
    solver.init_force_calculation(&mut particles);
    solver.calc_pairwise_forces_and_check_collisions(&mut particles);
    assert_eq!(graph_of(&solver), vec![(0, vec![0])]);
    solver.handle_collisions(&mut particles);
    assert!(graph_of(&solver).is_empty());
    assert!(particles[0].is_none());
    let merged = particles[1].as_ref().expect("the later particle survives");
    assert_eq!(merged.mass, Float(2.0));
    assert_eq!(merged.radius, Float(2.0f64.sqrt()));
    assert_eq!(merged.short, Float(2.0));
    assert_eq!(merged.state, State4::new(Float(2.0), Float(-1.0), Float(0.5), Float(0.25)));
    assert!(merged.has_collided);
}

#[test]
fn three_particles_in_a_row_merge_into_the_last() {
    let mut particles =
        init_particles_from_pos(vec![pos(0.0, 0.0), pos(1.0, 0.0), pos(2.0, 0.0)], 1.0, 0.0, 1.0);
    let mut solver = bare_solver(1.0, 0.0, 0.0);
    solver.init_force_calculation(&mut particles);
    solver.calc_pairwise_forces_and_check_collisions(&mut particles);
    assert_eq!(graph_of(&solver), vec![(0, vec![0]), (1, vec![0])]);
    solver.handle_collisions(&mut particles);
    assert!(graph_of(&solver).is_empty());
    let alive: Vec<usize> = (0..3).filter(|i| particles[*i].is_some()).collect();
    assert_eq!(alive, vec![2]);
    let survivor = particles[2].as_ref().unwrap();
    assert_eq!(survivor.mass, Float(3.0));
    assert_eq!(survivor.radius, Float(3.0f64.sqrt()));
    assert_eq!(particles.len(), 3);
}

#[test]
fn pending_successors_move_to_the_absorbing_particle() {
    let mut particles = init_particles_from_pos(
        vec![pos(-5.0, 0.0), pos(0.0, 0.0), pos(1.0, 0.0), pos(1.5, 0.0), pos(1.9, 0.0)],
        1.0,
        0.0,
        1.0,
    );
    let mut solver = bare_solver(1.0, 0.0, 0.0);
    solver.init_force_calculation(&mut particles);
    solver.calc_pairwise_forces_and_check_collisions(&mut particles);
    assert_eq!(
        graph_of(&solver),
        vec![(1, vec![0, 1, 2]), (2, vec![0, 1]), (3, vec![0])]
    );
    let entry = solver.temp_collision_indices.remove(&1).unwrap();
    solver.resolve_entry(&mut particles, 1, entry);
    assert!(particles[1].is_none());
    assert_eq!(particles[2].as_ref().unwrap().mass, Float(2.0));
    assert_eq!(graph_of(&solver), vec![(2, vec![0, 1]), (3, vec![0])]);
    solver.handle_collisions(&mut particles);
    let alive: Vec<(usize, f64)> = particles
        .iter()
        .enumerate()
        .filter_map(|(i, p)| p.as_ref().map(|p| (i, p.mass.0)))
        .collect();
    assert_eq!(alive, vec![(0, 1.0), (4, 4.0)]);
    assert!(graph_of(&solver).is_empty());
}

#[test]
fn reattaching_counts_offsets_from_the_absorbing_particle() {
    let mut solver = bare_solver(1.0, 0.0, 0.0);
    solver.add_to_temp_collision_indices(4, 7);
    let mut pending: BTreeSet<usize> = [3, 5, 9].into_iter().collect();
    solver.reattach_successors(1, 2, &mut pending, 20);
    assert!(pending.is_empty());
    assert_eq!(graph_of(&solver), vec![(4, vec![0, 2, 6, 7])]);
    let mut none: BTreeSet<usize> = BTreeSet::new();
    solver.reattach_successors(0, 0, &mut none, 20);
    assert_eq!(graph_of(&solver), vec![(4, vec![0, 2, 6, 7])]);
    solver.add_to_temp_collision_indices(2, 1);
    solver.add_to_temp_collision_indices(2, 0);
    assert_eq!(graph_of(&solver), vec![(2, vec![0, 1]), (4, vec![0, 2, 6, 7])]);
}

#[test]
fn gravity_between_two_particles_six_apart() {
    let l = 0.5;
    let (m_0, m_1) = (2.0, 3.0);
    let mut particles = vec![
        Some(ParticleXY::new(
            Float(0.0),
            Float(1.0),
            Float(m_0),
            State4::from_position_and_velocity(pos(-3.0, 0.0), State2::zeros()),
        )),
        Some(ParticleXY::new(
            Float(0.0),
            Float(-1.0),
            Float(m_1),
            State4::from_position_and_velocity(pos(3.0, 0.0), State2::zeros()),
        )),
    ];
    let strength = ForceXY::scalar_force_mid_long(
        &Float(6.0),
        (Float(0.0), Float(l)),
        (Float(1.0), Float(m_0)),
        (Float(-1.0), Float(m_1)),
    );
    assert_eq!(strength, Float(l * m_0 * m_1 / 36.0));
    let mut solver = bare_solver(0.0, 0.0, l);
    solver.initial_states(&mut particles);
    solver.execute(&mut particles, 1);
    let force_0 = particles[0].as_ref().unwrap().force.state;
    let force_1 = particles[1].as_ref().unwrap().force.state;
    assert_eq!(force_0, pos(strength.0 * 6.0, 0.0));
    assert_eq!(force_1, pos(0.0 - strength.0 * 6.0, 0.0 - 0.0 * strength.0));
    assert!(!particles[0].as_ref().unwrap().has_collided);
    assert!(graph_of(&solver).is_empty());
    solver.execute(&mut particles, 10);
    let x_0 = particles[0].as_ref().unwrap().state.get(0).0;
    let x_1 = particles[1].as_ref().unwrap().state.get(0).0;
    assert!(x_1 - x_0 < 6.0);
    assert!(x_0 > -3.0 && x_1 < 3.0);
}

#[test]
fn charges_of_equal_sign_repel() {
    let strength = ForceXY::scalar_force_mid_long(
        &Float(2.0),
        (Float(3.0), Float(0.0)),
        (Float(1.0), Float(1.0)),
        (Float(4.0), Float(1.0)),
    );
    assert_eq!(strength, Float(-3.0 * 1.0 * 4.0 / 8.0));
    let both = ForceXY::scalar_force_mid_long(
        &Float(2.0),
        (Float(3.0), Float(5.0)),
        (Float(1.0), Float(2.0)),
        (Float(-4.0), Float(6.0)),
    );
    assert_eq!(both, Float(12.0 / 8.0 + 60.0 / 4.0));
}

#[test]
fn pairwise_forces_cancel() {
    let mut a = ParticleXY::new(
        Float(1.0),
        Float(2.0),
        Float(3.0),
        State4::new(Float(0.0), Float(0.0), Float(0.0), Float(0.0)),
    );
    let mut b = ParticleXY::new(
        Float(1.0),
        Float(-1.0),
        Float(5.0),
        State4::new(Float(3.0), Float(4.0), Float(0.0), Float(0.0)),
    );
    let params = ParticleXYConf {
        s: Float(1.0),
        m: Float(0.5),
        l: Float(2.0),
    };
    let distance = ForceXY::pairwise(&mut a, &mut b, &params);
    assert_eq!(distance, Float(5.0));
    let strength = 0.5 * 2.0 / 125.0 + 2.0 * 3.0 * 5.0 / 25.0;
    assert_eq!(a.force.state, pos(3.0 * strength, 4.0 * strength));
    assert_eq!(
        (a.force.state.get(0).0 + b.force.state.get(0).0, a.force.state.get(1).0 + b.force.state.get(1).0),
        (0.0, 0.0)
    );
    let mut particles = vec![Some(a), None, Some(b)];
    let mut solver = bare_solver(0.0, 0.5, 2.0);
    solver.init_force_calculation(&mut particles);
    assert_eq!(particles[0].as_ref().unwrap().force.state, State2::zeros());
    solver.calc_pairwise_forces_and_check_collisions(&mut particles);
    assert!(particles[1].is_none());
    let f_0 = particles[0].as_ref().unwrap().force.state;
    let f_2 = particles[2].as_ref().unwrap().force.state;
    assert_eq!((f_0.get(0).0 + f_2.get(0).0, f_0.get(1).0 + f_2.get(1).0), (0.0, 0.0));
    assert!(graph_of(&solver).is_empty());
}

#[test]
fn collisions_by_parity() {
    let params = ParticleXYConf {
        s: Float(1.0),
        m: Float(0.0),
        l: Float(0.0),
    };
    let make = |short: f64, mass: f64, x: f64, vx: f64| {
        ParticleXY::new(
            Float(short),
            Float(0.5),
            Float(mass),
            State4::new(Float(x), Float(0.0), Float(vx), Float(0.0)),
        )
    };
    let mut first = make(1.0, 1.0, 0.0, 2.0);
    let mut other = Some(make(2.0, 3.0, 4.0, -2.0));
    ForceXY::collision(&mut first, &mut other, &params);
    assert!(other.is_none());
    assert_eq!(first.mass, Float(4.0));
    assert_eq!(first.radius, Float(2.0));
    assert_eq!(first.short, Float(3.0));
    assert_eq!(first.mid, Float(1.0));
    assert_eq!(first.state, State4::new(Float(3.0), Float(0.0), Float(-1.0), Float(0.0)));

    let mut first = make(1.0, 1.0, 0.0, 2.0);
    let mut other = Some(make(0.0, 3.0, 4.0, -2.0));
    ForceXY::collision(&mut first, &mut other, &params);
    assert_eq!(first.state, State4::new(Float(0.0), Float(0.0), Float(2.0), Float(0.0)));
    assert_eq!(other.as_ref().unwrap().mass, Float(3.0));

    let mut first = make(1.0, 2.0, 0.0, 3.0);
    let mut other = Some(make(-1.0, 2.0, 4.0, -1.0));
    ForceXY::collision(&mut first, &mut other, &params);
    let second = other.expect("both go on after an elastic collision");
    assert_eq!(first.state.get(2), Float(-1.0));
    assert_eq!(second.state.get(2), Float(3.0));
    assert_eq!(first.mass, Float(2.0));

    let mut first = make(1.0, 2.0, 1.0, 3.0);
    let mut second = make(-1.0, 2.0, 1.0, -1.0);
    ForceXY::collision_elastic(&mut first, &mut second, Float(-1.0));
    assert_eq!(first.state.get(2), Float(3.0));
    assert_eq!(second.state.get(2), Float(-1.0));

    let mut first = make(1.0, 2.0, 1.0, 3.0);
    let mut none: Option<ParticleXY> = None;
    ForceXY::collision(&mut first, &mut none, &params);
    assert!(none.is_none());
    assert_eq!(first.state.get(2), Float(3.0));
}

#[test]
fn no_collisions_without_a_collision_scale() {
    let mut particles = init_particles_from_pos(vec![pos(0.0, 0.0), pos(0.5, 0.0)], 1.0, 0.0, 1.0);
    let mut solver = bare_solver(0.0, 0.0, 1.0);
    assert!(!solver.params.perform_collision_detection());
    solver.init_force_calculation(&mut particles);
    solver.calc_pairwise_forces_and_check_collisions(&mut particles);
    assert!(graph_of(&solver).is_empty());
    solver.add_to_temp_collision_indices(0, 0);
    solver.handle_collisions(&mut particles);
    assert_eq!(graph_of(&solver), vec![(0, vec![0])]);
    assert!(particles.iter().all(|p| p.as_ref().is_some_and(|p| !p.has_collided)));
    assert!(ParticleXYSystemSolver::collision_detection(
        &Float(1.9),
        particles[0].as_ref().unwrap(),
        particles[1].as_ref().unwrap()
    ));
    assert!(!ParticleXYSystemSolver::collision_detection(
        &Float(2.0),
        particles[0].as_ref().unwrap(),
        particles[1].as_ref().unwrap()
    ));
}

#[test]
fn the_horizon_schedules_force_computations() {
    let mut particles = init_particles_from_pos(vec![pos(-3.0, 0.0), pos(3.0, 0.0)], 0.0, 0.0, 1.0);
    let mut solver = bare_solver(0.0, 0.0, 1.0);
    let horizon = solver.params.integration_steps();
    assert_eq!(horizon, 10);
    assert_eq!(solver.integration_counter, horizon);
    solver.initial_states(&mut particles);
    assert_eq!(solver.iterators.len(), 2);
    assert!(solver.iterators.iter().all(|b| b.is_empty()));
    solver.execute(&mut particles, 0);
    assert_eq!(solver.integration_counter, horizon);
    let start = particles[0].as_ref().unwrap().state;
    solver.step(&mut particles);
    assert_eq!(solver.integration_counter, 0);
    assert_eq!(solver.iterators[0].len(), 11);
    assert_eq!(particles[0].as_ref().unwrap().state, start);
    assert!(particles[0].as_ref().unwrap().force.state.get(0).0 > 0.0);
    for pulled in 1..=horizon {
        solver.step(&mut particles);
        assert_eq!(solver.integration_counter, pulled);
        assert_eq!(solver.iterators[0].len(), 11 - pulled);
    }
    let before = particles[0].as_ref().unwrap().state;
    assert!(before.get(0).0 > start.get(0).0);
    solver.execute(&mut particles, 1);
    assert_eq!(solver.integration_counter, 0);
    assert_eq!(solver.iterators[0].len(), 11);
    assert_eq!(particles[0].as_ref().unwrap().state, before);
    assert!(solver.temp_collision_indices.is_empty());
    solver.execute(&mut particles, horizon + 1);
    assert_eq!(solver.integration_counter, 0);
    solver.reinit_states(&mut particles, vec![1, 7]);
    assert_eq!(solver.iterators[0].len(), 11);
    assert!(solver.iterators[1].is_empty());
}

#[test]
fn a_pass_leaves_no_collision_behind() {
    let mut particles =
        init_particles_from_pos(vec![pos(0.0, 0.0), pos(1.0, 0.0), pos(9.0, 0.0)], 1.0, 0.0, 1.0);
    let mut solver = bare_solver(1.0, 0.0, 0.0);
    solver.initial_states(&mut particles);
    solver.add_to_temp_collision_indices(2, 5);
    solver.execute(&mut particles, 1);
    assert!(solver.temp_collision_indices.is_empty());
    assert!(particles[0].is_none());
    assert_eq!(particles[1].as_ref().unwrap().mass, Float(2.0));
    let mut off = bare_solver(0.0, 0.0, 0.0);
    let mut others = init_particles_from_pos(vec![pos(0.0, 0.0), pos(1.0, 0.0)], 1.0, 0.0, 1.0);
    off.initial_states(&mut others);
    off.add_to_temp_collision_indices(0, 0);
    off.execute(&mut others, 1);
    assert!(off.temp_collision_indices.is_empty());
    assert!(others.iter().all(|p| p.is_some()));
}

#[test]
fn a_particle_leaving_the_valid_region_dies() {
    let mut particles = init_particles_from_pos(vec![pos(0.0, 0.0), pos(1.0, 1.0)], 0.0, 0.0, 1.0);
    let mut solver = bare_solver(0.0, 0.0, 0.0);
    solver.initial_states(&mut particles);
    solver.iterators[0] = LookaheadBuffer::from_vec(vec![
        State4::new(Float(1.0), Float(0.0), Float(0.0), Float(0.0)),
        State4::new(Float(40000.0), Float(0.0), Float(0.0), Float(0.0)),
        State4::new(Float(2.0), Float(0.0), Float(0.0), Float(0.0)),
    ]);
    solver.iterators[1] = LookaheadBuffer::from_vec(vec![State4::new(
        Float(5.0),
        Float(5.0),
        Float(0.0),
        Float(0.0),
    )]);
    solver.set_states_from_integration_results(&mut particles);
    assert_eq!(particles[0].as_ref().unwrap().state.get(0), Float(1.0));
    assert_eq!(particles[1].as_ref().unwrap().state.get(0), Float(5.0));
    solver.set_states_from_integration_results(&mut particles);
    assert!(particles[0].is_none());
    assert!(solver.iterators[0].is_empty());
    assert_eq!(particles[1].as_ref().unwrap().state.get(0), Float(5.0));
    solver.set_states_from_integration_results(&mut particles);
    assert!(particles[0].is_none());
    let mut slot = Some(1u8);
    let mut buffer = LookaheadBuffer::from_vec(vec![pos(0.0, 0.0)]);
    ParticleOdeSolver::<State2, FastIntegratorXY, ParticleXYConf>::absorb_run(
        &mut slot,
        &mut buffer,
        Err(IntegrationFailure::StiffnessDetected),
    );
    assert!(slot.is_none() && buffer.is_empty());
    let mut slot = Some(1u8);
    ParticleOdeSolver::<State2, FastIntegratorXY, ParticleXYConf>::absorb_run(
        &mut slot,
        &mut buffer,
        Ok(LookaheadBuffer::from_vec(vec![pos(1.0, 0.0), pos(2.0, 0.0)])),
    );
    assert_eq!(slot, Some(1));
    assert_eq!(buffer.len(), 2);
}

#[test]
fn particle_parameters() {
    let conf = ParticleXYConf::default();
    assert_eq!(conf.s, Float(1.0));
    assert_eq!(conf.m, Float(8.988));
    assert_eq!(conf.l, Float(6.673));
    assert_eq!(conf.mid_scale_factor(), Float(8.988));
    assert_eq!(conf.large_scale_factor(), Float(6.673));
    assert_eq!(conf.collision_factor(), Float(1.0));
    assert!(conf.perform_collision_detection());
    assert_eq!(conf.integration_steps(), 10);
    assert_eq!(conf.formula().len(), 5);
    assert_eq!(conf.reference(), "https://wikipedia.org/wiki/Classical_mechanics");
    assert!(conf.description().starts_with("This particle simulation employs Newtonian mechanics"));
    assert_eq!(conf.to_string(), "ParticleXY( s=1.00 m=8.99 l=6.67 )");
    let tiny = ParticleXY::new(
        Float(0.0),
        Float(0.0),
        Float(0.0),
        State4::new(Float(0.0), Float(0.0), Float(0.0), Float(0.0)),
    );
    assert_eq!(tiny.mass, Float(f64::EPSILON));
    let heavy = ParticleXY::new(
        Float(0.0),
        Float(0.0),
        Float(-9.0),
        State4::new(Float(0.0), Float(0.0), Float(0.0), Float(0.0)),
    );
    assert_eq!(heavy.mass, Float(9.0));
    assert_eq!(heavy.radius, Float(3.0));
    assert_eq!(heavy.force.state, State2::zeros());
}

#[test]
fn marks_and_pairs_are_those_that_overlap() {
    let mut particles = init_particles_from_pos(
        vec![pos(0.0, 0.0), pos(1.5, 0.0), pos(3.0, 0.0), pos(10.0, 0.0), pos(12.0, 0.0)],
        0.0,
        0.0,
        1.0,
    );
    particles[3].as_mut().unwrap().has_collided = true;
    let mut solver = bare_solver(1.0, 0.0, 0.0);
    solver.init_force_calculation(&mut particles);
    solver.calc_pairwise_forces_and_check_collisions(&mut particles);
    assert_eq!(graph_of(&solver), vec![(0, vec![0]), (1, vec![0])]);
    let marked: Vec<bool> = particles.iter().map(|p| p.as_ref().unwrap().has_collided).collect();
    assert_eq!(marked, vec![true, true, true, false, false]);
    let places: Vec<Float> = particles.iter().map(|p| p.as_ref().unwrap().state.get(0)).collect();
    assert_eq!(places, vec![Float(0.0), Float(1.5), Float(3.0), Float(10.0), Float(12.0)]);
    solver.handle_collisions(&mut particles);
    assert!(particles.iter().all(|p| p.is_some()));
    assert!(graph_of(&solver).is_empty());
}

#[test]
fn a_cluster_leaves_its_last_particle_with_all_it_carried() {
    let make = |short: f64, mid: f64, mass: f64, x: f64| {
        Some(ParticleXY::new(
            Float(short),
            Float(mid),
            Float(mass),
            State4::new(Float(x), Float(0.0), Float(0.0), Float(0.0)),
        ))
    };
    let mut particles = vec![
        make(1.0, 0.5, 1.0, 0.0),
        make(1.0, 0.25, 1.0, 50.0),
        make(2.0, 0.25, 2.0, 1.0),
        None,
        make(3.0, 0.125, 4.0, 2.0),
    ];
    let mut solver = bare_solver(1.0, 0.0, 0.0);
    solver.init_force_calculation(&mut particles);
    solver.calc_pairwise_forces_and_check_collisions(&mut particles);
    assert_eq!(graph_of(&solver), vec![(0, vec![1, 3]), (2, vec![1])]);
    solver.handle_collisions(&mut particles);
    assert!(graph_of(&solver).is_empty());
    let alive: Vec<usize> = (0..5).filter(|i| particles[*i].is_some()).collect();
    assert_eq!(alive, vec![1, 4]);
    let last = particles[4].as_ref().unwrap();
    assert_eq!((last.short, last.mid, last.mass), (Float(6.0), Float(0.875), Float(7.0)));
    assert_eq!(last.radius, Float(7.0f64.sqrt()));
    let alone = particles[1].as_ref().unwrap();
    assert_eq!((alone.short, alone.mid, alone.mass), (Float(1.0), Float(0.25), Float(1.0)));
    assert!(!alone.has_collided);
}

#[test]
fn forces_still_cancel_after_the_collisions() {
    let mut particles =
        init_particles_from_pos(vec![pos(0.0, 0.0), pos(1.0, 0.0), pos(2.0, 0.0)], 1.0, 0.0, 1.0);
    let mut solver = bare_solver(1.0, 0.0, 1.0);
    solver.init_force_calculation(&mut particles);
    solver.calc_pairwise_forces_and_check_collisions(&mut particles);
    let forces: Vec<State2> = particles.iter().map(|p| p.as_ref().unwrap().force.state).collect();
    assert_eq!(forces, vec![pos(1.5, 0.0), pos(0.0, 0.0), pos(-1.5, 0.0)]);
    solver.handle_collisions(&mut particles);
    let alive: Vec<usize> = (0..3).filter(|i| particles[*i].is_some()).collect();
    assert_eq!(alive, vec![2]);
    assert_eq!(particles[2].as_ref().unwrap().force.state, pos(0.0, 0.0));
}
