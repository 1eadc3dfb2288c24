use chaos_theory::chaos_data::ChaosData;
use chaos_theory::collision_graph::{record_collision, CollisionGraph};
use chaos_theory::coulomb::NewtonColoumb;
use chaos_theory::distribution::{Fixed, InitialDistributionVariant, Mesh, RandomVariate};
use chaos_theory::integrator::{IntegrationFailure, Integrator, OdeSolverTrait};
use chaos_theory::labels::ChaosFormula;
use chaos_theory::lookahead::LookaheadBuffer;
use chaos_theory::mesh::{hyper_mesh_3, hyper_mesh_4, repeat_each, tile};
use chaos_theory::newton::{Force, NewtonState};
use chaos_theory::scalar::Scalar;
use chaos_theory::states::{FromStateVec, StateIndex};
use std::collections::BTreeSet;

#[derive(Clone, Copy, Debug, PartialEq)]
struct Float(f64);

/// The number as the library holds it: of all the representations of
/// not-a-number, one is settled on.
fn settled(x: f64) -> Float {
    if x.is_nan() {
        Float(f64::NAN)
    } else {
        Float(x)
    }
}

impl Scalar for Float {
    fn zero() -> Self {
        Float(0.0)
    }
    fn one() -> Self {
        Float(1.0)
    }
    fn epsilon() -> Self {
        Float(f64::EPSILON)
    }
    fn from_i16(n: i16) -> Self {
        Float(n as f64)
    }
    fn from_usize(n: usize) -> Self {
        Float(n as f64)
    }
    fn plus(self, rhs: Self) -> Self {
        settled(self.0 + rhs.0)
    }
    fn minus(self, rhs: Self) -> Self {
        settled(self.0 - rhs.0)
    }
    fn times(self, rhs: Self) -> Self {
        settled(self.0 * rhs.0)
    }
    fn over(self, rhs: Self) -> Self {
        settled(self.0 / rhs.0)
    }
    fn neg(self) -> Self {
        settled(-self.0)
    }
    fn abs(self) -> Self {
        settled(self.0.abs())
    }
    fn sqrt(self) -> Self {
        settled(self.0.sqrt())
    }
    fn max(self, rhs: Self) -> Self {
        if rhs.0 > self.0 || self.0.is_nan() {
            settled(rhs.0)
        } else {
            self
        }
    }
    fn lt(self, rhs: Self) -> bool {
        self.0 < rhs.0
    }
    fn le(self, rhs: Self) -> bool {
        self.0 <= rhs.0
    }
    fn equals(self, rhs: Self) -> bool {
        self.0 == rhs.0
    }
    fn is_finite(self) -> bool {
        self.0.is_finite()
    }
    fn is_sign_negative(self) -> bool {
        self.0.is_sign_negative()
    }
    fn signum(self) -> Self {
        settled(self.0.signum())
    }
    fn two_decimals(self) -> String {
        format!("{:.2}", self.0)
    }
    fn ln(self) -> Self {
        settled(self.0.ln())
    }
    fn exp(self) -> Self {
        settled(self.0.exp())
    }
    fn powf(self, exponent: Self) -> Self {
        settled(self.0.powf(exponent.0))
    }
}

impl RandomVariate for Float {
    fn draw(_distribution: &InitialDistributionVariant<Self>) -> Self {
        Float(0.5)
    }
}

type State3 = chaos_theory::vector::State3<Float>;
type State5 = chaos_theory::vector::State5<Float>;
type State6 = chaos_theory::vector::State6<Float>;
type ParticleXYZConf = chaos_theory::configs::ParticleXYZ<Float>;
type ParticleXYZ = chaos_theory::particle_variants::ParticleXYZ<Float>;
type ForceXYZ = NewtonColoumb<State3, State6, ParticleXYZConf>;
type Solver = chaos_theory::particle_variants::ParticleXYZSystemSolver<Float, Still>;

/// An integrator under which nothing moves.
#[derive(Clone, Debug, Default)]
struct Still {
    steps: usize,
    random: bool,
}

impl Integrator for Still {
    type Input = ParticleXYZ;
    type Output = State6;
    type Time = Float;
    fn integrate(&self, p: &ParticleXYZ) -> Result<LookaheadBuffer<State6>, IntegrationFailure> {
        if p.mass.0 > 100.0 {
            return Err(IntegrationFailure::StiffnessDetected);
        }
        Ok(LookaheadBuffer::from_vec(vec![p.state; self.steps]))
    }
    fn integration_time(&self) -> Float {
        Float(self.steps as f64)
    }
    fn set_steps(&mut self, steps: usize) {
        self.steps = steps;
    }
    fn set_randomness(&mut self, randomness: bool) {
        self.random = randomness;
    }
}

fn at(x: f64, y: f64, z: f64) -> State3 {
    State3::new(Float(x), Float(y), Float(z))
}

fn particle(short: f64, mass: f64, position: State3) -> ParticleXYZ {
    ParticleXYZ::new(
        Float(short),
        Float(0.0),
        Float(mass),
        State6::from_position_and_velocity(position, State3::zeros()),
    )
}

fn conf(s: f64, m: f64, l: f64) -> ParticleXYZConf {
    ParticleXYZConf {
        s: Float(s),
        m: Float(m),
        l: Float(l),
    }
}

#[test]
fn particles_of_space() {
    let built: ParticleXYZ = FromStateVec::from(
        [1.0, -2.0, 16.0, 1.0, 2.0, 3.0, 4.0, 5.0, 6.0]
            .iter()
            .map(|x| Float(*x))
            .collect(),
    );
    assert_eq!(built.short, Float(1.0));
    assert_eq!(built.mid, Float(-2.0));
    assert_eq!(built.mass, Float(16.0));
    assert_eq!(built.radius, Float(4.0));
    assert_eq!(*built.get_state(), State6::new(Float(1.0), Float(2.0), Float(3.0), Float(4.0), Float(5.0), Float(6.0)));
    assert_eq!(built.state.position(), at(1.0, 2.0, 3.0));
    assert_eq!(built.state.velocity(), at(4.0, 5.0, 6.0));
    assert_eq!(*built.force.get_state(), State3::zeros());
    assert!(!built.has_collided);
    assert_eq!(built.ind(5), Float(6.0));
    assert_eq!(built.ind(6), Float(1.0));
    assert_eq!(built.ind(7), Float(-2.0));
    assert_eq!(built.ind(8), Float(16.0));
    assert_eq!(built.ind(9), Float(4.0));
    assert_eq!(built.ind(10), Float(0.0));
    assert_eq!(ParticleXYZ::calc_radius(Float(9.0)), Float(3.0));
    let mut sum = particle(1.0, 9.0, at(0.0, 0.0, 0.0));
    sum.add_scalar_values(&built);
    assert_eq!(sum.short, Float(2.0));
    assert_eq!(sum.mid, Float(-2.0));
    assert_eq!(sum.mass, Float(25.0));
    assert_eq!(sum.radius, Float(5.0));
    let force = ForceXYZ::new(at(1.0, 0.0, -1.0));
    assert_eq!(force.clone().state, at(1.0, 0.0, -1.0));
    assert_eq!(ForceXYZ::zero().state, State3::zeros());
    let five = State5::new(Float(5.0), Float(4.0), Float(3.0), Float(2.0), Float(1.0));
    assert_eq!(five.ind(5), Float(1.0));
    assert_eq!(five.ind(6), Float(5.0));
    let defaults = ParticleXYZConf::default();
    assert_eq!(defaults.to_string(), "ParticleXYZ( s=1.00 m=8.99 l=6.67 )");
    assert_eq!(defaults.formula()[0], "radius= √mass");
    let mut checked = conf(11.0, 0.0, 0.0);
    checked.par_range_check();
    assert_eq!(checked, conf(11.0, 0.0, 0.0));
}

#[test]
fn forces_and_merges_in_space() {
    let a = particle(1.0, 1.0, at(0.0, 0.0, 0.0));
    let b = particle(1.0, 3.0, at(2.0, 3.0, 6.0));
    assert_eq!(ForceXYZ::distance_i_to_j(&a, &b), at(2.0, 3.0, 6.0));
    let (mut a, mut b) = (a, b);
    let distance = ForceXYZ::pairwise(&mut a, &mut b, &conf(0.0, 0.0, 7.0));
    assert_eq!(distance, Float(7.0));
    let strength = 7.0 * 1.0 * 3.0 / 49.0;
    assert_eq!(a.force.state, at(2.0 * strength, 3.0 * strength, 6.0 * strength));
    assert_eq!(b.force.state, at(0.0 - 2.0 * strength, 0.0 - 3.0 * strength, 0.0 - 6.0 * strength));
    ForceXYZ::single(&mut a, &conf(0.0, 0.0, 7.0));
    assert_eq!(a.force.state, at(2.0 * strength, 3.0 * strength, 6.0 * strength));
    let mut heavy = particle(1.0, 3.0, at(4.0, 0.0, 0.0));
    heavy.state.set_velocity(at(0.0, 4.0, 0.0));
    let light = particle(1.0, 1.0, at(0.0, 0.0, 8.0));
    ForceXYZ::collision_inelastic(&mut heavy, &light);
    assert_eq!(heavy.mass, Float(4.0));
    assert_eq!(heavy.radius, Float(2.0));
    assert_eq!(heavy.state.position(), at(3.0, 0.0, 2.0));
    assert_eq!(heavy.state.velocity(), at(0.0, 3.0, 0.0));
    let mut first = particle(1.0, 1.0, at(0.0, 0.0, 0.0));
    first.state.set_velocity(at(0.0, 0.0, 2.0));
    let mut second = particle(-1.0, 1.0, at(0.0, 0.0, 1.0));
    second.state.set_velocity(at(1.0, 0.0, -2.0));
    ForceXYZ::collision_elastic(&mut first, &mut second, Float(-1.0));
    assert_eq!(first.state.velocity(), at(0.0, 0.0, -2.0));
    assert_eq!(second.state.velocity(), at(1.0, 0.0, 2.0));
}

#[test]
fn one_macro_step_in_space() {
    let mut particles = vec![
        Some(particle(1.0, 1.0, at(0.0, 0.0, 0.0))),
        None,
        Some(particle(-1.0, 1.0, at(0.0, 0.0, 1.0))),
        Some(particle(1.0, 1.0, at(0.0, 1.5, 0.0))),
        Some(particle(1.0, 400.0, at(1000.0, 0.0, 0.0))),
    ];
    let mut solver = Solver::new(conf(1.0, 0.0, 0.0));
    assert_eq!(solver.integrator.steps, 10);
    solver.initial_states(&mut particles);
    assert!(!solver.integrator.random);
    solver.init_force_calculation(&mut particles);
    let (head, tail) = particles.split_at_mut(1);
    solver.calc_pairwise_force_and_check_collision(0, head[0].as_mut().unwrap(), tail);
    let recorded: Vec<usize> = solver.temp_collision_indices[&0].iter().copied().collect();
    assert_eq!(recorded, vec![1, 2]);
    assert!(particles[2].as_ref().unwrap().has_collided);
    assert!(!particles[4].as_ref().unwrap().has_collided);
    let mut pending: BTreeSet<usize> = solver.temp_collision_indices.remove(&0).unwrap();
    let (head, tail) = particles.split_at_mut(1);
    let merged = solver.handle_successor_collisions(&mut head[0], &mut pending, tail);
    assert_eq!(merged, Some(2));
    assert!(pending.is_empty());
    assert!(particles[0].is_none());
    assert_eq!(particles[3].as_ref().unwrap().mass, Float(2.0));
    assert_eq!(particles[2].as_ref().unwrap().mass, Float(1.0));
    solver.integrate(&mut particles);
    assert!(particles[4].is_none());
    assert!(solver.iterators[4].is_empty());
    assert_eq!(solver.iterators[3].len(), 10);
    assert!(solver.iterators[0].is_empty());
    assert!(solver.iterators[1].is_empty());
    let alive: Vec<usize> = (0..5).filter(|i| particles[*i].is_some()).collect();
    assert_eq!(alive, vec![2, 3]);
}

#[test]
fn ensembles_from_features() {
    let features = vec![
        vec![Float(1.0), Float(2.0)],
        vec![Float(3.0), Float(4.0)],
        vec![Float(5.0), Float(6.0)],
    ];
    let states = ChaosData::<State3>::states_from_features(features);
    assert_eq!(states, vec![Some(at(1.0, 3.0, 5.0)), Some(at(2.0, 4.0, 6.0))]);
    assert!(ChaosData::<State3>::states_from_features(Vec::new()).is_empty());
    let mesh = |a: f64, b: f64| {
        InitialDistributionVariant::Mesh(Mesh {
            start: Float(a),
            end: Float(b),
        })
    };
    let fixed = InitialDistributionVariant::Fixed(Fixed { value: Float(9.0) });
    let distributions = [mesh(0.0, 1.0), fixed, mesh(2.0, 4.0)];
    let (grid, num_points) = ChaosData::<State3>::init_meshes(3, &distributions);
    assert_eq!(num_points, 9);
    assert_eq!(grid.len(), 2);
    assert_eq!(grid[0][3], Float(0.5));
    assert_eq!(grid[1][5], Float(4.0));
    let states = ChaosData::<State3>::states_from_distributions(3, &distributions);
    assert_eq!(states.len(), 9);
    assert_eq!(states[5], Some(at(0.5, 9.0, 4.0)));
    assert_eq!(states[6], Some(at(1.0, 9.0, 2.0)));
    let cube = hyper_mesh_3(vec![vec![1u8, 2], vec![3, 4], vec![5, 6]]);
    assert_eq!(cube[0], vec![1, 1, 1, 1, 2, 2, 2, 2]);
    assert_eq!(cube[1], vec![3, 3, 4, 4, 3, 3, 4, 4]);
    assert_eq!(cube[2], vec![5, 6, 5, 6, 5, 6, 5, 6]);
    let four = hyper_mesh_4(vec![vec![1u8], vec![2, 3], vec![4], vec![5, 6]]);
    assert_eq!(four[1], vec![2, 2, 3, 3]);
    assert_eq!(four[3], vec![5, 6, 5, 6]);
    assert_eq!(repeat_each(&vec![1u8, 2], 3), vec![1, 1, 1, 2, 2, 2]);
    assert_eq!(tile(&vec![1u8, 2], 3), vec![1, 2, 1, 2, 1, 2]);
    let mut graph = CollisionGraph::new();
    record_collision(&mut graph, 3, 1);
    record_collision(&mut graph, 3, 0);
    record_collision(&mut graph, 1, 4);
    let entries: Vec<(usize, Vec<usize>)> = graph
        .iter()
        .map(|(i, o)| (*i, o.iter().copied().collect()))
        .collect();
    assert_eq!(entries, vec![(1, vec![4]), (3, vec![0, 1])]);
}
