use chaos_theory::benchmark::{
    combine_thread_runs, evaluate_chaos_data, split_samples, thread_shares, BenchmarkError,
    ChaosBenchmarkResult, ChaosBenchmarkRun,
};
use chaos_theory::chaos_data::ChaosData;
use chaos_theory::discrete::{DiscreteMap, SimpleDiscreteMap};
use chaos_theory::distribution::{Fixed, InitialDistributionVariant, RandomVariate};
use chaos_theory::exec::{ContinuousVecExecutor, DiscreteVecExecutor};
use chaos_theory::fractal_data::{Complex, FractalData};
use chaos_theory::integrator::{IntegrationFailure, Integrator, OdeSolver, OdeSolverTrait};
use chaos_theory::lookahead::{empty_into_iter, LookaheadBuffer};
use chaos_theory::newton::NewtonState;
use chaos_theory::scalar::Scalar;
use chaos_theory::states::{
    is_valid_number, FromStateVec, StateIndex, ValidStateCheck, VALID_MAX, VALID_MIN,
};
use ode_solvers::{Rk4, System, Vector3};
use rand::{thread_rng, Rng};
use std::cell::RefCell;

#[derive(Clone, Copy, Debug, PartialEq)]
struct Float(f64);

/// The number as the library holds it: of all the representations of
/// not-a-number, one is settled on.
fn settled(x: f64) -> Float {
    if x.is_nan() {
        Float(f64::NAN)
    } else {
        Float(x)
    }
}

impl Scalar for Float {
    fn zero() -> Self {
        Float(0.0)
    }
    fn one() -> Self {
        Float(1.0)
    }
    fn epsilon() -> Self {
        Float(f64::EPSILON)
    }
    fn from_i16(n: i16) -> Self {
        Float(n as f64)
    }
    fn from_usize(n: usize) -> Self {
        Float(n as f64)
    }
    fn plus(self, rhs: Self) -> Self {
        settled(self.0 + rhs.0)
    }
    fn minus(self, rhs: Self) -> Self {
        settled(self.0 - rhs.0)
    }
    fn times(self, rhs: Self) -> Self {
        settled(self.0 * rhs.0)
    }
    fn over(self, rhs: Self) -> Self {
        settled(self.0 / rhs.0)
    }
    fn neg(self) -> Self {
        settled(-self.0)
    }
    fn abs(self) -> Self {
        settled(self.0.abs())
    }
    fn sqrt(self) -> Self {
        settled(self.0.sqrt())
    }
    fn max(self, rhs: Self) -> Self {
        if rhs.0 > self.0 || self.0.is_nan() {
            settled(rhs.0)
        } else {
            self
        }
    }
    fn lt(self, rhs: Self) -> bool {
        self.0 < rhs.0
    }
    fn le(self, rhs: Self) -> bool {
        self.0 <= rhs.0
    }
    fn equals(self, rhs: Self) -> bool {
        self.0 == rhs.0
    }
    fn is_finite(self) -> bool {
        self.0.is_finite()
    }
    fn is_sign_negative(self) -> bool {
        self.0.is_sign_negative()
    }
    fn signum(self) -> Self {
        settled(self.0.signum())
    }
    fn two_decimals(self) -> String {
        format!("{:.2}", self.0)
    }
    fn ln(self) -> Self {
        settled(self.0.ln())
    }
    fn exp(self) -> Self {
        settled(self.0.exp())
    }
    fn powf(self, exponent: Self) -> Self {
        settled(self.0.powf(exponent.0))
    }
}

impl RandomVariate for Float {
    fn draw(_distribution: &InitialDistributionVariant<Self>) -> Self {
        Float(thread_rng().gen_range(0.0..1.0))
    }
}

type State1 = chaos_theory::vector::State1<Float>;
type State2 = chaos_theory::vector::State2<Float>;
type State3 = chaos_theory::vector::State3<Float>;

fn fixed(x: f64) -> InitialDistributionVariant<Float> {
    InitialDistributionVariant::Fixed(Fixed { value: Float(x) })
}

#[derive(Clone)]
struct Lorenz {
    sigma: f64,
    beta: f64,
    rho: f64,
}

impl Default for Lorenz {
    fn default() -> Self {
        Self {
            sigma: 10.,
            beta: 8. / 3.,
            rho: 28.,
        }
    }
}

impl System<f64, Vector3<f64>> for Lorenz {
    fn system(&self, _t: f64, y: &Vector3<f64>, dy: &mut Vector3<f64>) {
        dy[0] = self.sigma * (y[1] - y[0]);
        dy[1] = y[0] * (self.rho - y[2]) - y[1];
        dy[2] = y[0] * y[1] - self.beta * y[2];
    }
}

impl Integrator for Lorenz {
    type Input = State3;
    type Output = State3;
    type Time = Float;
    fn integrate(&self, y0: &State3) -> Result<LookaheadBuffer<State3>, IntegrationFailure> {
        let mut stepper = Rk4::new(
            self.clone(),
            0.0,
            Vector3::new(y0.get(0).0, y0.get(1).0, y0.get(2).0),
            self.integration_time().0,
            1e-1,
        );
        let _ = stepper.integrate();
        let states: Vec<State3> = stepper
            .y_out()
            .iter()
            .skip(1)
            .map(|y| State3::new(Float(y[0]), Float(y[1]), Float(y[2])))
            .collect();
        Ok(LookaheadBuffer::from_vec(states))
    }
    fn integration_time(&self) -> Float {
        Float(thread_rng().gen_range(1.0..25.0))
    }
    fn set_steps(&mut self, _steps: usize) {}
    fn set_randomness(&mut self, _randomness: bool) {}
}

#[test]
fn test_lorentz() {
    let num_points = 2;
    let (x, y, z) = (1.0, 2.0, 3.0);
    let distr = vec![fixed(x), fixed(y), fixed(z)];
    let mut chaos_data = ChaosData::<State3>::new(num_points, &distr);
    let system = Lorenz::default();
    let mut solver = OdeSolver::new(system);
    let data = chaos_data.data_mut();
    solver.initial_states(data);
    solver.execute(data, 1);
    let v = chaos_data.data()[0];
    assert_ne!(
        v.expect("Should not be None"),
        State3::new(Float(x), Float(y), Float(z)),
        "State should has changed!"
    );
    let w = chaos_data.data()[1];
    assert_eq!(v, w, "Both states should be changed deterministically!");
}

/// An integrator that hands out prepared outcomes, one per run.
struct Scripted {
    outcomes: RefCell<Vec<Result<Vec<f64>, IntegrationFailure>>>,
    seeds: RefCell<Vec<f64>>,
}

impl Scripted {
    fn new(mut outcomes: Vec<Result<Vec<f64>, IntegrationFailure>>) -> Self {
        outcomes.reverse();
        Self {
            outcomes: RefCell::new(outcomes),
            seeds: RefCell::new(Vec::new()),
        }
    }
}

impl Integrator for Scripted {
    type Input = State1;
    type Output = State1;
    type Time = Float;
    fn integrate(&self, y0: &State1) -> Result<LookaheadBuffer<State1>, IntegrationFailure> {
        self.seeds.borrow_mut().push(y0.get(0).0);
        match self.outcomes.borrow_mut().pop() {
            Some(Ok(values)) => Ok(LookaheadBuffer::from_vec(
                values.into_iter().map(|x| State1::new(Float(x))).collect(),
            )),
            Some(Err(e)) => Err(e),
            None => Err(IntegrationFailure::MaxNumStepReached),
        }
    }
    fn integration_time(&self) -> Float {
        Float(1.0)
    }
    fn set_steps(&mut self, _steps: usize) {}
    fn set_randomness(&mut self, _randomness: bool) {}
}

fn values(states: &[Option<State1>]) -> Vec<Option<f64>> {
    states.iter().map(|s| s.map(|v| v.get(0).0)).collect()
}

fn slots(xs: &[Option<f64>]) -> Vec<Option<State1>> {
    xs.iter().map(|x| x.map(|x| State1::new(Float(x)))).collect()
}

#[test]
fn a_failed_first_integration_kills_the_sample_for_good() {
    let mut states = slots(&[Some(1.0), Some(2.0)]);
    let mut solver = OdeSolver::new(Scripted::new(vec![
        Err(IntegrationFailure::StepSizeUnderflow),
        Ok(vec![2.5, 3.5]),
    ]));
    solver.initial_states(&mut states);
    assert_eq!(values(&states), vec![None, Some(2.0)]);
    assert!(solver.iterators[0].is_empty());
    assert_eq!(solver.iterators[1].len(), 2);
    solver.execute(&mut states, 1);
    assert_eq!(values(&states), vec![None, Some(2.5)]);
    solver.execute(&mut states, 5);
    assert_eq!(values(&states)[0], None);
    assert_eq!(solver.system.seeds.borrow().iter().filter(|s| **s == 1.0).count(), 1);
}

#[test]
fn zero_ticks_change_nothing() {
    let mut states = slots(&[Some(1.0), None, Some(3.0)]);
    let mut solver = OdeSolver::new(Scripted::new(vec![Ok(vec![1.5]), Ok(vec![])]));
    solver.initial_states(&mut states);
    let before = states.clone();
    solver.execute(&mut states, 0);
    assert_eq!(states, before);
    assert_eq!(solver.iterators[0].len(), 1);
    assert_eq!(solver.system.seeds.borrow().len(), 2);
    let mut empty: Vec<Option<State1>> = Vec::new();
    solver.execute(&mut empty, 3);
    assert!(empty.is_empty());
}

#[test]
fn the_buffer_is_drained_before_the_solver_runs_again() {
    let mut states = slots(&[Some(0.0)]);
    let mut solver = OdeSolver::new(Scripted::new(vec![
        Ok(vec![1.0, 2.0, 3.0]),
        Ok(vec![4.0, 5.0]),
        Ok(vec![]),
        Ok(vec![7.0, 50000.0, 8.0]),
        Ok(vec![9.0]),
    ]));
    solver.initial_states(&mut states);
    assert_eq!(values(&states), vec![Some(0.0)]);
    solver.execute(&mut states, 2);
    assert_eq!(values(&states), vec![Some(2.0)]);
    assert_eq!(solver.iterators[0].len(), 1);
    solver.execute(&mut states, 2);
    assert_eq!(values(&states), vec![Some(4.0)]);
    assert_eq!(*solver.system.seeds.borrow(), vec![0.0, 3.0]);
    solver.execute(&mut states, 1);
    assert_eq!(values(&states), vec![Some(5.0)]);
    solver.execute(&mut states, 1);
    assert_eq!(values(&states), vec![Some(5.0)]);
    assert_eq!(*solver.system.seeds.borrow(), vec![0.0, 3.0, 5.0]);
    solver.execute(&mut states, 3);
    assert_eq!(values(&states), vec![None]);
    assert!(solver.iterators[0].is_empty());
    assert_eq!(solver.system.seeds.borrow().len(), 4);
}

#[test]
fn reinitialised_samples_are_integrated_anew() {
    let mut states = slots(&[Some(0.0), Some(10.0)]);
    let mut solver = OdeSolver::new(Scripted::new(vec![
        Ok(vec![1.0, 2.0]),
        Ok(vec![11.0, 12.0]),
        Ok(vec![21.0]),
    ]));
    solver.initial_states(&mut states);
    states[1] = Some(State1::new(Float(20.0)));
    solver.reinit_states(&mut states, vec![1, 9]);
    assert_eq!(solver.iterators[0].len(), 2);
    assert!(solver.iterators[1].is_empty());
    solver.execute(&mut states, 1);
    assert_eq!(values(&states), vec![Some(1.0), Some(21.0)]);
    assert_eq!(*solver.system.seeds.borrow(), vec![0.0, 10.0, 20.0]);
}

#[test]
fn one_tick_of_one_sample() {
    type Solver = OdeSolver<State1, Scripted>;
    let mut state = Some(State1::new(Float(1.0)));
    let mut buffer = empty_into_iter();
    Solver::apply_outcome(
        &mut state,
        &mut buffer,
        Ok(LookaheadBuffer::from_vec(vec![
            State1::new(Float(2.0)),
            State1::new(Float(3.0)),
        ])),
    );
    assert_eq!(state, Some(State1::new(Float(2.0))));
    assert_eq!(buffer.len(), 1);
    Solver::apply_outcome(&mut state, &mut buffer, Ok(empty_into_iter()));
    assert_eq!(state, Some(State1::new(Float(2.0))));
    assert!(buffer.is_empty());
    let mut wild = Some(State1::new(Float(f64::NAN)));
    Solver::apply_outcome(&mut wild, &mut buffer, Ok(empty_into_iter()));
    assert!(wild.is_none());
    Solver::apply_outcome(
        &mut state,
        &mut buffer,
        Err(IntegrationFailure::MaxNumStepReached),
    );
    assert!(state.is_none() && buffer.is_empty());
    let mut gone: Option<State1> = None;
    let mut kept = LookaheadBuffer::from_vec(vec![State1::new(Float(1.0))]);
    Solver::apply_outcome(&mut gone, &mut kept, Ok(empty_into_iter()));
    assert!(gone.is_none());
    assert_eq!(kept.len(), 1);
    let mut state = Some(State1::new(Float(-32767.5)));
    Solver::filter(&mut state, &mut kept);
    assert!(state.is_none() && kept.is_empty());
    let mut state = Some(State1::new(Float(5.0)));
    let empty = Solver::remove_v_and_iter(&mut state);
    assert!(state.is_none() && empty.is_empty());
    let system = Scripted::new(vec![Ok(vec![6.0, 7.0])]);
    let mut state = Some(State1::new(Float(5.0)));
    let mut buffer = LookaheadBuffer::from_vec(vec![State1::new(Float(5.5))]);
    Solver::execute_state(&mut state, &mut buffer, &system, 3);
    assert_eq!(state, Some(State1::new(Float(7.0))));
    assert!(buffer.is_empty());
}

#[test]
fn the_validity_filter() {
    assert!(is_valid_number(&Float(0.0)));
    assert!(is_valid_number(&Float(32767.0)));
    assert!(is_valid_number(&Float(-32767.0)));
    assert!(!is_valid_number(&Float(32767.5)));
    assert!(!is_valid_number(&Float(-32767.5)));
    assert!(!is_valid_number(&Float(-32768.0)));
    assert!(!is_valid_number(&Float(f64::INFINITY)));
    assert!(!is_valid_number(&Float(f64::NEG_INFINITY)));
    assert!(!is_valid_number(&Float(f64::NAN)));
    assert_eq!((VALID_MIN, VALID_MAX), (-32767, 32767));
    assert!(State3::new(Float(1.0), Float(-2.0), Float(32767.0)).is_valid());
    assert!(!State3::new(Float(1.0), Float(f64::NAN), Float(3.0)).is_valid());
    assert!(!State2::new(Float(1.0), Float(1e5)).is_valid());
}

#[test]
fn state_vectors() {
    let v = State3::new(Float(2.0), Float(-1.0), Float(5.0));
    assert_eq!(v.min(), Float(-1.0));
    assert_eq!(v.max(), Float(5.0));
    assert_eq!(v.ind(0), Float(2.0));
    assert_eq!(v.ind(2), Float(5.0));
    assert_eq!(v.ind(3), Float(-1.0));
    assert_eq!(v.ind(4), Float(5.0));
    assert_eq!(v.ind(100), Float(5.0));
    assert_eq!(State1::new(Float(4.0)).ind(7), Float(4.0));
    let mut w = State2::zeros();
    assert_eq!(w, State2::new(Float(0.0), Float(0.0)));
    w.set(1, Float(3.0));
    assert_eq!(w.get(1), Float(3.0));
    let built = <State2 as FromStateVec>::from(vec![Float(1.0), Float(2.0), Float(3.0)]);
    assert_eq!(built, State2::new(Float(1.0), Float(2.0)));
    type State4 = chaos_theory::vector::State4<Float>;
    let s = State4::new(Float(1.0), Float(2.0), Float(3.0), Float(4.0));
    assert_eq!(s.position(), State2::new(Float(1.0), Float(2.0)));
    assert_eq!(s.velocity(), State2::new(Float(3.0), Float(4.0)));
    assert_eq!(State4::cartesian_norm(&s.velocity()), Float(5.0));
    assert_eq!(State4::dot_product(&s.position(), &s.velocity()), Float(11.0));
    let mut p = s.position();
    State4::sub_mut(&mut p, &s.velocity());
    assert_eq!(p, State2::new(Float(-2.0), Float(-2.0)));
    State4::scalar_mul_mut(&mut p, Float(-0.5));
    State4::add_mut(&mut p, &State4::cartesian_zero());
    assert_eq!(p, State2::new(Float(1.0), Float(1.0)));
    type State6 = chaos_theory::vector::State6<Float>;
    let mut t = State6::from_position_and_velocity(
        State3::new(Float(1.0), Float(2.0), Float(2.0)),
        State3::new(Float(0.0), Float(0.0), Float(0.0)),
    );
    assert_eq!(State6::cartesian_norm(&t.position()), Float(3.0));
    t.set_velocity(State3::new(Float(7.0), Float(8.0), Float(9.0)));
    assert_eq!(t.get(5), Float(9.0));
    assert_eq!(t.velocity(), State3::new(Float(7.0), Float(8.0), Float(9.0)));
}

#[test]
fn lookahead_buffers() {
    let mut buffer = LookaheadBuffer::from_vec(vec![1, 2, 3]);
    assert_eq!(buffer.len(), 3);
    assert_eq!(buffer.next(), Some(1));
    assert_eq!(buffer.next(), Some(2));
    assert!(!buffer.is_empty());
    assert_eq!(buffer.next(), Some(3));
    assert_eq!(buffer.next(), None);
    assert!(buffer.is_empty());
    let mut empty: LookaheadBuffer<u8> = empty_into_iter();
    assert_eq!(empty.len(), 0);
    assert_eq!(empty.next(), None);
}

#[derive(Clone)]
struct Logistic {
    r: f64,
}

impl DiscreteMap for Logistic {
    type State = State1;
    type Time = Float;
    fn execute(&self, v: &mut State1, _t: &Float) {
        let x = v.get(0).0;
        v.set(0, Float(self.r * x * (1.0 - x)));
    }
}

/// Adds the time of the tick to the state.
#[derive(Clone)]
struct Clock;

impl DiscreteMap for Clock {
    type State = State1;
    type Time = Float;
    fn execute(&self, v: &mut State1, t: &Float) {
        v.set(0, Float(v.get(0).0 * 10.0 + t.0));
    }
}

#[test]
fn discrete_maps_run_tick_by_tick() {
    let data = ChaosData::from_slots(slots(&[Some(0.5), None, Some(0.25)]));
    let maps = vec![
        SimpleDiscreteMap::new(Logistic { r: 0.5 }),
        SimpleDiscreteMap::new(Logistic { r: 2.0 }),
    ];
    let mut executor = DiscreteVecExecutor::new_single(&data, &maps);
    executor.execute_vec(2, &Float(0.0));
    let x_1 = 0.5 * 0.5 * (1.0 - 0.5);
    let x_2 = 0.5 * x_1 * (1.0 - x_1);
    let refs = executor.get_chaos_data_refs();
    assert_eq!(refs.len(), 2);
    assert_eq!(values(refs[0].data())[0], Some(x_2));
    assert_eq!(values(refs[0].data())[1], None);
    assert_eq!(values(refs[1].data()), vec![Some(0.5), None, Some(0.46875)]);
    executor.execute_vec(0, &Float(0.0));
    assert_eq!(values(executor.pairs[1].0.data()), vec![Some(0.5), None, Some(0.46875)]);
}

#[test]
fn a_discrete_sample_stops_at_its_first_invalid_state() {
    let data = ChaosData::from_slots(slots(&[Some(1.0), Some(4000.0)]));
    let mut executor = DiscreteVecExecutor::new(vec![&data], &[Clock, Clock, Clock]);
    assert_eq!(executor.pairs.len(), 3);
    executor.execute_vec(3, &Float(5.0));
    for (ensemble, _) in executor.pairs.iter() {
        assert_eq!(values(ensemble.data()), vec![Some(1567.0), None]);
    }
    let none: Vec<&ChaosData<State1>> = Vec::new();
    assert!(DiscreteVecExecutor::new(none, &[Clock]).pairs.is_empty());
    let mut state = Some(State1::new(Float(3.0)));
    DiscreteVecExecutor::<State1, Clock>::execute_state(
        &mut state,
        &Clock,
        &vec![Float(1.0), Float(2.0)],
        &Float(1.0),
    );
    assert_eq!(state, Some(State1::new(Float(312.0))));
    executor.pairs[0].0.data_mut()[0] = None;
    executor.reinit_states_vec(&[fixed(0.5)]);
    assert_eq!(values(executor.pairs[0].0.data()), vec![Some(0.5), Some(0.5)]);
    assert_eq!(values(executor.pairs[1].0.data()), vec![Some(1567.0), Some(0.5)]);
}

#[derive(Clone)]
struct Doubling;

impl Integrator for Doubling {
    type Input = State1;
    type Output = State1;
    type Time = Float;
    fn integrate(&self, y0: &State1) -> Result<LookaheadBuffer<State1>, IntegrationFailure> {
        let x = y0.get(0).0;
        if x < 0.0 {
            return Err(IntegrationFailure::StiffnessDetected);
        }
        Ok(LookaheadBuffer::from_vec(vec![
            State1::new(Float(2.0 * x)),
            State1::new(Float(4.0 * x)),
        ]))
    }
    fn integration_time(&self) -> Float {
        Float(2.0)
    }
    fn set_steps(&mut self, _steps: usize) {}
    fn set_randomness(&mut self, _randomness: bool) {}
}

#[test]
fn continuous_executors_seed_and_advance() {
    let first = ChaosData::from_slots(slots(&[Some(1.0), None, Some(-1.0)]));
    let second = ChaosData::from_slots(slots(&[Some(3.0)]));
    let solvers = vec![
        OdeSolver::new(Doubling),
        OdeSolver::new(Doubling),
        OdeSolver::new(Doubling),
    ];
    let mut executor = ContinuousVecExecutor::new(vec![&first, &second], &solvers);
    let lengths: Vec<usize> = executor
        .get_chaos_data_refs()
        .iter()
        .map(|d| d.total_num_points())
        .collect();
    assert_eq!(lengths, vec![3, 1, 3]);
    assert_eq!(values(executor.pairs[0].0.data()), vec![Some(1.0), None, None]);
    executor.execute_vec(0, &0u8);
    assert_eq!(values(executor.pairs[0].0.data()), vec![Some(1.0), None, None]);
    executor.execute_vec(3, &0u8);
    assert_eq!(values(executor.pairs[0].0.data()), vec![Some(8.0), None, None]);
    assert_eq!(values(executor.pairs[1].0.data()), vec![Some(24.0)]);
    executor.reinit_states_vec(&[fixed(0.5)]);
    assert_eq!(values(executor.pairs[2].0.data()), vec![Some(8.0), Some(0.5), Some(0.5)]);
    executor.execute_vec(1, &0u8);
    assert_eq!(values(executor.pairs[2].0.data()), vec![Some(16.0), Some(1.0), Some(1.0)]);
    let single = ContinuousVecExecutor::new_single(&second, &solvers[..2]);
    assert_eq!(single.pairs.len(), 2);
    assert_eq!(single.pairs[1].1.iterators[0].len(), 2);
    let none: Vec<&ChaosData<State1>> = Vec::new();
    assert!(ContinuousVecExecutor::new(none, &solvers).pairs.is_empty());
}

#[test]
fn fractal_points() {
    let mut point = FractalData::new(3u8);
    assert_eq!((*point.z_0(), *point.z_n(), point.num_iterations()), (3, 3, 0));
    assert!(!point.biomorph() && !point.first() && !point.last());
    point.set_next_z_n(9);
    point.set_next_z_n(81);
    assert_eq!((*point.z_0(), *point.z_n(), point.num_iterations()), (3, 81, 2));
    point.set_biomorph();
    assert!(point.biomorph() && !point.first() && !point.last());
    point.set_first();
    point.set_last();
    assert!(point.first() && point.last());
    assert!(point.is_valid());
    let complex: FractalData<Complex<Float>> = FromStateVec::from(vec![Float(1.0), Float(-2.0)]);
    assert_eq!(complex.z_n().im, Float(-2.0));
    assert_eq!(complex.ind(1), Float(-2.0));
    assert_eq!(complex.ind(2), Float(0.0));
    assert_eq!(complex.ind(3), Float(1.0));
}

#[test]
fn samples_are_shared_out_among_threads() {
    assert_eq!(split_samples(10, 3), vec![4, 3, 3]);
    assert_eq!(split_samples(2, 4), vec![2, 0, 0, 0]);
    assert_eq!(split_samples(0, 2), vec![0, 0]);
    assert_eq!(split_samples(7, 1), vec![7]);
    let shares = thread_shares(1001);
    assert!(!shares.is_empty());
    assert_eq!(shares.iter().sum::<usize>(), 1001);
    assert!(shares[1..].iter().all(|s| *s == 1001 / shares.len()));
}

#[test]
fn benchmark_runs_add_up() {
    let run = |nanos: u128, valid: usize| ChaosBenchmarkRun {
        runtime: nanos,
        num_valid_end_states: valid,
    };
    let total = combine_thread_runs(&vec![Ok(run(5, 3)), Ok(run(7, 4))], 2_500_000);
    let total = total.expect("every thread succeeded");
    assert_eq!(total.num_valid_end_states(), 7);
    assert_eq!(total.runtime_nanos(), 2_500_000);
    assert_eq!(total.runtime_millis(), 2);
    let failed = combine_thread_runs(
        &vec![
            Ok(run(5, 3)),
            Err(BenchmarkError::NoRuns),
            Err(BenchmarkError::ThreadFailed(9)),
        ],
        1,
    );
    assert_eq!(failed, Err(BenchmarkError::ThreadFailed(1)));
    assert_eq!(
        combine_thread_runs(&Vec::new(), 9),
        Ok(run(9, 0))
    );
    let result = ChaosBenchmarkResult::default();
    assert_eq!(result.number_of_warmups(), 0);
    assert_eq!(result.runs(), &vec![Err(BenchmarkError::NoRuns)]);
    let first = ChaosData::from_slots(slots(&[Some(1.0), None, Some(2.0)]));
    let second = ChaosData::from_slots(slots(&[None, None]));
    assert_eq!(evaluate_chaos_data(vec![&first, &second, &first]), 4);
    assert_eq!(evaluate_chaos_data(Vec::<&ChaosData<State1>>::new()), 0);
}
