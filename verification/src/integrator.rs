//! Lazy, batched integration: a solver run is cached per sample and drained
//! one state per tick.
use vstd::prelude::*;
use crate::lookahead::{emptied_at, empty_buffers_at, empty_into_iter, LookaheadBuffer};
use crate::states::ValidStateCheck;

verus! {

/// Why an integration did not produce a trajectory.
#[derive(Debug, Clone, Copy, PartialEq, Eq)]
pub enum IntegrationFailure {
    /// The solver needed more steps than it is allowed.
    MaxNumStepReached,
    /// The step size became too small to make progress.
    StepSizeUnderflow,
    /// The problem appears to be stiff.
    StiffnessDetected,
}

/// One solver run from a seed value across a time horizon.
///
/// How long the horizon is, and hence how many states come back, is up to the
/// implementation and may differ from call to call. Nothing is promised of
/// the outcome but that it is one the implementation admits for the seed:
/// the engine handles whatever comes back.
pub trait Integrator: Sized {
    type Input;

    type Output;

    type Time;

    /// Whether a run from `y0` may hand back `outcome`. An implementation
    /// that does not say admits every outcome.
    open spec fn may_return(
        &self,
        y0: Self::Input,
        outcome: Result<Seq<Self::Output>, IntegrationFailure>,
    ) -> bool {
        true
    }

    /// The states that follow `y0`, in order of time, without `y0` itself.
    fn integrate(&self, y0: &Self::Input) -> (outcome: Result<
        LookaheadBuffer<Self::Output>,
        IntegrationFailure,
    >)
        ensures
            self.may_return(*y0, outcome_view(outcome)),
    ;

    /// Whether the integrator may become `after` when the number of steps
    /// of a horizon is set to `steps`. An implementation that does not say
    /// admits everything.
    open spec fn steps_set(&self, steps: usize, after: Self) -> bool {
        true
    }

    /// Whether the integrator may become `after` when it is told whether to
    /// draw its horizons at random. An implementation that does not say
    /// admits everything.
    open spec fn randomness_set(&self, randomness: bool, after: Self) -> bool {
        true
    }

    /// The horizon that the next run covers.
    fn integration_time(&self) -> Self::Time;

    /// Sets the number of steps a horizon is made of.
    fn set_steps(&mut self, steps: usize)
        ensures
            old(self).steps_set(steps, *final(self)),
    ;

    /// Chooses between a fixed horizon and one drawn anew for every run.
    fn set_randomness(&mut self, randomness: bool)
        ensures
            old(self).randomness_set(randomness, *final(self)),
    ;
}

/// A stepper over an ensemble: the array keeps its length, a slot that is
/// empty stays empty, and zero ticks change nothing. What else a solver does
/// it says in the three relations; a solver that does not say admits
/// everything.
pub trait OdeSolverTrait: Sized {
    type State;

    /// Whether `n` ticks may take the solver and the ensemble `states` to
    /// `after` and `new_states`.
    open spec fn advances(
        &self,
        states: Seq<Option<Self::State>>,
        after: Self,
        new_states: Seq<Option<Self::State>>,
        n: nat,
    ) -> bool {
        true
    }

    /// Whether the solver may become `after` when it is told that the slots
    /// `new_indices` of the ensemble `states` hold fresh samples.
    open spec fn reinitialises(
        &self,
        states: Seq<Option<Self::State>>,
        new_indices: Seq<usize>,
        after: Self,
    ) -> bool {
        true
    }

    /// Whether seeding may take the solver and the fresh ensemble `states`
    /// to `after` and `new_states`.
    open spec fn seeds(
        &self,
        states: Seq<Option<Self::State>>,
        after: Self,
        new_states: Seq<Option<Self::State>>,
    ) -> bool {
        true
    }

    fn execute(&mut self, states: &mut [Option<Self::State>], num_executions: usize)
        ensures
            final(states)@.len() == old(states)@.len(),
            forall|i: int|
                0 <= i < old(states)@.len() && old(states)@[i] is None ==> final(states)@[i] is None,
            num_executions == 0 ==> final(states)@ == old(states)@,
            old(self).advances(
                old(states)@,
                *final(self),
                final(states)@,
                num_executions as nat,
            ),
    ;

    fn reinit_states(
        &mut self,
        all_states: &mut [Option<Self::State>],
        new_state_indices: Vec<usize>,
    )
        ensures
            final(all_states)@ == old(all_states)@,
            old(self).reinitialises(old(all_states)@, new_state_indices@, *final(self)),
    ;

    fn initial_states(&mut self, states: &mut [Option<Self::State>])
        ensures
            final(states)@.len() == old(states)@.len(),
            forall|i: int|
                0 <= i < old(states)@.len() ==> final(states)@[i] is None || final(states)@[i]
                    == old(states)@[i],
            old(self).seeds(old(states)@, *final(self), final(states)@),
    ;
}

/// What a solver run handed back, as plain values.
pub open spec fn outcome_view<V>(
    outcome: Result<LookaheadBuffer<V>, IntegrationFailure>,
) -> Result<Seq<V>, IntegrationFailure> {
    match outcome {
        Ok(buffer) => Ok(buffer@),
        Err(e) => Err(e),
    }
}

/// The validity filter applied to a freshly assigned state: an invalid state
/// kills the sample and clears its buffer.
pub open spec fn filtered<V: ValidStateCheck>(candidate: V, rest: Seq<V>) -> (Option<V>, Seq<V>) {
    if candidate.valid() {
        (Some(candidate), rest)
    } else {
        (None, Seq::empty())
    }
}

/// One tick of a live sample whose buffer is exhausted, given what the solver
/// run from its current value `y` handed back. A failed run kills the sample.
/// A run without states leaves the value as it is, and the filter still runs.
pub open spec fn fresh_tick<V: ValidStateCheck>(
    y: V,
    outcome: Result<Seq<V>, IntegrationFailure>,
) -> (Option<V>, Seq<V>) {
    match outcome {
        Ok(future) => if future.len() > 0 {
            filtered(future[0], future.skip(1))
        } else {
            filtered(y, Seq::empty())
        },
        Err(_) => (None, Seq::empty()),
    }
}

/// One tick of one sample. An empty slot is left alone; a live sample takes
/// the head of its buffer, or, if the buffer is exhausted, the head of a fresh
/// solver run whose outcome is `outcome`.
pub open spec fn tick<V: ValidStateCheck>(
    state: Option<V>,
    buffer: Seq<V>,
    outcome: Result<Seq<V>, IntegrationFailure>,
) -> (Option<V>, Seq<V>) {
    match state {
        None => (None, buffer),
        Some(y) => if buffer.len() > 0 {
            filtered(buffer[0], buffer.skip(1))
        } else {
            fresh_tick(y, outcome)
        },
    }
}

/// `n` ticks of one sample, where `outcomes[t]` is what a solver run at tick
/// `t` hands back (it is consulted only where the buffer is exhausted).
pub open spec fn run<V: ValidStateCheck>(
    state: Option<V>,
    buffer: Seq<V>,
    outcomes: Seq<Result<Seq<V>, IntegrationFailure>>,
    n: nat,
) -> (Option<V>, Seq<V>)
    decreases n,
{
    if n == 0 {
        (state, buffer)
    } else {
        let before = run(state, buffer, outcomes, (n - 1) as nat);
        tick(before.0, before.1, outcomes[n - 1])
    }
}

/// Whether `outcome` can occur at a tick of a sample: where the tick runs
/// the solver, that is for a live sample with an exhausted buffer, the
/// outcome is one that a run from the sample's current value may hand back.
pub open spec fn tick_allowed<V, T: Integrator<Input = V, Output = V>>(
    system: T,
    state: Option<V>,
    buffer: Seq<V>,
    outcome: Result<Seq<V>, IntegrationFailure>,
) -> bool {
    state is Some && buffer.len() == 0 ==> system.may_return(state->Some_0, outcome)
}

/// Whether `outcomes` can occur in `n` ticks of a sample, tick by tick.
pub open spec fn run_allowed<V: ValidStateCheck, T: Integrator<Input = V, Output = V>>(
    system: T,
    state: Option<V>,
    buffer: Seq<V>,
    outcomes: Seq<Result<Seq<V>, IntegrationFailure>>,
    n: nat,
) -> bool
    decreases n,
{
    n == 0 || {
        let before = run(state, buffer, outcomes, (n - 1) as nat);
        &&& run_allowed(system, state, buffer, outcomes, (n - 1) as nat)
        &&& tick_allowed(system, before.0, before.1, outcomes[n - 1])
    }
}

/// A sample and its buffer after `n` ticks, for the outcomes of the solver
/// runs that were made on the way, each from the value the sample had when
/// its buffer was exhausted.
pub open spec fn advanced<V: ValidStateCheck, T: Integrator<Input = V, Output = V>>(
    system: T,
    state: Option<V>,
    buffer: Seq<V>,
    new_state: Option<V>,
    new_buffer: Seq<V>,
    n: nat,
) -> bool {
    exists|outcomes: Seq<Result<Seq<V>, IntegrationFailure>>|
        outcomes.len() == n && run_allowed(system, state, buffer, outcomes, n) && #[trigger] run(
            state,
            buffer,
            outcomes,
            n,
        ) == (new_state, new_buffer)
}

/// A sample and its buffer after seeding: an empty slot stays empty with an
/// empty buffer, a live sample keeps its value and gets the run's states, or
/// dies if the run failed.
pub open spec fn seeded<V>(
    state: Option<V>,
    outcome: Result<Seq<V>, IntegrationFailure>,
) -> (Option<V>, Seq<V>) {
    match state {
        None => (None, Seq::empty()),
        Some(y) => match outcome {
            Ok(future) => (Some(y), future),
            Err(_) => (None, Seq::empty()),
        },
    }
}

/// A sample and its buffer after seeding, for the outcome of the solver run
/// that was made from its value.
pub open spec fn seeded_by_a_run<V, T: Integrator<Input = V, Output = V>>(
    system: T,
    state: Option<V>,
    new_state: Option<V>,
    new_buffer: Seq<V>,
) -> bool {
    exists|outcome: Result<Seq<V>, IntegrationFailure>|
        (state is Some ==> system.may_return(state->Some_0, outcome)) && #[trigger] seeded(
            state,
            outcome,
        ) == (new_state, new_buffer)
}

/// The first `n` ticks do not depend on outcomes of later ticks.
pub proof fn lemma_run_prefix<V: ValidStateCheck>(
    state: Option<V>,
    buffer: Seq<V>,
    a: Seq<Result<Seq<V>, IntegrationFailure>>,
    b: Seq<Result<Seq<V>, IntegrationFailure>>,
    n: nat,
)
    requires
        n <= a.len(),
        n <= b.len(),
        forall|t: int| 0 <= t < n ==> a[t] == b[t],
    ensures
        run(state, buffer, a, n) == run(state, buffer, b, n),
    decreases n,
{
    if n > 0 {
        lemma_run_prefix(state, buffer, a, b, (n - 1) as nat);
    }
}

/// Whether the first `n` ticks can occur does not depend on outcomes of
/// later ticks.
pub proof fn lemma_run_allowed_prefix<V: ValidStateCheck, T: Integrator<Input = V, Output = V>>(
    system: T,
    state: Option<V>,
    buffer: Seq<V>,
    a: Seq<Result<Seq<V>, IntegrationFailure>>,
    b: Seq<Result<Seq<V>, IntegrationFailure>>,
    n: nat,
)
    requires
        n <= a.len(),
        n <= b.len(),
        forall|t: int| 0 <= t < n ==> a[t] == b[t],
    ensures
        run_allowed(system, state, buffer, a, n) == run_allowed(system, state, buffer, b, n),
    decreases n,
{
    if n > 0 {
        lemma_run_allowed_prefix(system, state, buffer, a, b, (n - 1) as nat);
        lemma_run_prefix(state, buffer, a, b, (n - 1) as nat);
    }
}

/// An empty slot stays empty, and its buffer untouched, however many ticks
/// pass and whatever a solver would have returned.
pub proof fn lemma_run_empty_slot<V: ValidStateCheck>(
    buffer: Seq<V>,
    outcomes: Seq<Result<Seq<V>, IntegrationFailure>>,
    n: nat,
)
    ensures
        run(None::<V>, buffer, outcomes, n) == (None::<V>, buffer),
    decreases n,
{
    if n > 0 {
        lemma_run_empty_slot(buffer, outcomes, (n - 1) as nat);
    }
}

/// The batched integrator of one system of equations: one buffer per sample,
/// paired with the samples by index.
#[derive(Clone)]
pub struct OdeSolver<V, T> {
    pub system: T,
    pub iterators: Vec<LookaheadBuffer<V>>,
}

impl<V: ValidStateCheck, T: Integrator<Input = V, Output = V>> OdeSolver<V, T> {
    pub fn new(system: T) -> (solver: Self)
        ensures
            solver.system == system,
            solver.iterators@.len() == 0,
    {
        Self { system, iterators: Vec::new() }
    }

    /// Kills the sample and hands back the empty buffer that replaces its own.
    pub fn remove_v_and_iter(state: &mut Option<V>) -> (buffer: LookaheadBuffer<V>)
        ensures
            *final(state) is None,
            buffer@.len() == 0,
    {
        *state = None;
        empty_into_iter()
    }

    /// Runs the validity filter on a live sample.
    pub fn filter(state: &mut Option<V>, iter: &mut LookaheadBuffer<V>)
        ensures
            match *old(state) {
                Some(y) => (*final(state), final(iter)@) == filtered(y, old(iter)@),
                None => *final(state) is None && final(iter)@ == old(iter)@,
            },
    {
        let ok = match state {
            Some(y) => y.is_valid(),
            None => true,
        };
        if !ok {
            *iter = Self::remove_v_and_iter(state);
        }
    }

    /// Takes over what a solver run from the current value of a live sample
    /// with an exhausted buffer handed back, and applies its first state.
    pub fn apply_outcome(
        state: &mut Option<V>,
        iter: &mut LookaheadBuffer<V>,
        outcome: Result<LookaheadBuffer<V>, IntegrationFailure>,
    )
        ensures
            match *old(state) {
                Some(y) => (*final(state), final(iter)@) == fresh_tick(y, outcome_view(outcome)),
                None => *final(state) is None && final(iter)@ == old(iter)@,
            },
    {
        if state.is_none() {
            return ;
        }
        match outcome {
            Ok(new_iter) => {
                *iter = new_iter;
                let head = iter.next();
                match head {
                    Some(y_new) => {
                        *state = Some(y_new);
                    },
                    None => {
                        assert(iter@ =~= Seq::<V>::empty());
                    },
                }
                Self::filter(state, iter);
            },
            Err(_e) => {
                *iter = Self::remove_v_and_iter(state);
            },
        }
    }

    /// Advances one sample by `num_executions` ticks, draining its buffer and
    /// integrating anew whenever the buffer is exhausted.
    pub fn execute_state(
        state: &mut Option<V>,
        iter: &mut LookaheadBuffer<V>,
        system: &T,
        num_executions: usize,
    )
        ensures
            advanced(
                *system,
                *old(state),
                old(iter)@,
                *final(state),
                final(iter)@,
                num_executions as nat,
            ),
    {
        let ghost mut outcomes: Seq<Result<Seq<V>, IntegrationFailure>> = Seq::empty();
        let ghost unused: Result<Seq<V>, IntegrationFailure> = Err(
            IntegrationFailure::StepSizeUnderflow,
        );
        let mut done: usize = 0;
        while done < num_executions
            invariant
                done <= num_executions,
                outcomes.len() == done,
                run(*old(state), old(iter)@, outcomes, done as nat) == (*state, iter@),
                run_allowed(*system, *old(state), old(iter)@, outcomes, done as nat),
            decreases num_executions - done,
        {
            let ghost before = outcomes;
            let ghost now: Result<Seq<V>, IntegrationFailure>;
            if state.is_none() {
                proof {
                    now = unused;
                }
            } else {
                let head = iter.next();
                match head {
                    Some(next_state) => {
                        *state = Some(next_state);
                        Self::filter(state, iter);
                        proof {
                            now = unused;
                        }
                    },
                    None => {
                        let outcome = match state {
                            Some(y) => system.integrate(y),
                            None => Err(IntegrationFailure::StepSizeUnderflow),
                        };
                        proof {
                            now = outcome_view(outcome);
                        }
                        Self::apply_outcome(state, iter, outcome);
                    },
                }
            }
            proof {
                outcomes = before.push(now);
                lemma_run_prefix(*old(state), old(iter)@, before, outcomes, done as nat);
                lemma_run_allowed_prefix(
                    *system,
                    *old(state),
                    old(iter)@,
                    before,
                    outcomes,
                    done as nat,
                );
            }
            done = done + 1;
        }
    }
}

impl<V: ValidStateCheck, T: Integrator<Input = V, Output = V>> OdeSolverTrait for OdeSolver<V, T> {
    type State = V;

    /// Every sample that has a buffer is advanced by `n` ticks of its own;
    /// samples without a buffer, and buffers without a sample, are left
    /// alone.
    open spec fn advances(
        &self,
        states: Seq<Option<V>>,
        after: Self,
        new_states: Seq<Option<V>>,
        n: nat,
    ) -> bool {
        &&& after.system == self.system
        &&& after.iterators@.len() == self.iterators@.len()
        &&& new_states.len() == states.len()
        &&& forall|i: int|
            0 <= i < states.len() && i < self.iterators@.len() ==> advanced(
                self.system,
                states[i],
                self.iterators@[i]@,
                #[trigger] new_states[i],
                after.iterators@[i]@,
                n,
            )
        &&& forall|i: int| self.iterators@.len() <= i < states.len() ==> new_states[i] == states[i]
        &&& forall|i: int|
            states.len() <= i < self.iterators@.len() ==> after.iterators@[i]
                == self.iterators@[i]
    }

    /// The buffers of the named samples are emptied, and nothing else
    /// changes.
    open spec fn reinitialises(
        &self,
        states: Seq<Option<V>>,
        new_indices: Seq<usize>,
        after: Self,
    ) -> bool {
        &&& after.system == self.system
        &&& emptied_at(self.iterators@, new_indices, after.iterators@)
    }

    /// Every sample gets a buffer, filled by a solver run from its value.
    open spec fn seeds(&self, states: Seq<Option<V>>, after: Self, new_states: Seq<Option<V>>) -> bool {
        &&& after.system == self.system
        &&& after.iterators@.len() == states.len()
        &&& new_states.len() == states.len()
        &&& forall|i: int|
            0 <= i < states.len() ==> seeded_by_a_run(
                self.system,
                states[i],
                #[trigger] new_states[i],
                after.iterators@[i]@,
            )
    }

    /// Advances every sample that has a buffer by `num_executions` ticks.
    fn execute(&mut self, states: &mut [Option<V>], num_executions: usize) {
        let n = if states.len() < self.iterators.len() {
            states.len()
        } else {
            self.iterators.len()
        };
        let mut i: usize = 0;
        while i < n
            invariant
                i <= n,
                n <= states@.len(),
                n <= self.iterators@.len(),
                states@.len() == old(states)@.len(),
                self.iterators@.len() == old(self).iterators@.len(),
                self.system == old(self).system,
                forall|k: int|
                    0 <= k < i ==> advanced(
                        self.system,
                        old(states)@[k],
                        old(self).iterators@[k]@,
                        #[trigger] states@[k],
                        self.iterators@[k]@,
                        num_executions as nat,
                    ),
                forall|k: int| i <= k < states@.len() ==> states@[k] == old(states)@[k],
                forall|k: int|
                    i <= k < self.iterators@.len() ==> self.iterators@[k] == old(
                        self,
                    ).iterators@[k],
            decreases n - i,
        {
            Self::execute_state(&mut states[i], &mut self.iterators[i], &self.system, num_executions);
            i = i + 1;
        }
        proof {
            assert forall|i: int|
                0 <= i < old(states)@.len() && old(states)@[i] is None implies states@[i] is None by {
                if i < n {
                    let outcomes = choose|outcomes: Seq<Result<Seq<V>, IntegrationFailure>>|
                        outcomes.len() == num_executions && run_allowed(
                            self.system,
                            old(states)@[i],
                            old(self).iterators@[i]@,
                            outcomes,
                            num_executions as nat,
                        ) && #[trigger] run(
                            old(states)@[i],
                            old(self).iterators@[i]@,
                            outcomes,
                            num_executions as nat,
                        ) == (states@[i], self.iterators@[i]@);
                    lemma_run_empty_slot(
                        old(self).iterators@[i]@,
                        outcomes,
                        num_executions as nat,
                    );
                }
            }
            if num_executions == 0 {
                assert(states@ =~= old(states)@);
            }
        }
    }

    /// Discards the cached futures of the given samples, so that each is
    /// integrated anew from its current value when it is next advanced.
    /// An index without a buffer is passed over.
    fn reinit_states(&mut self, all_states: &mut [Option<V>], new_indices: Vec<usize>) {
        empty_buffers_at(&mut self.iterators, &new_indices);
    }

    /// Performs the first integration for a freshly created ensemble: every
    /// live sample gets the states of one solver run as its buffer, and dies
    /// if the run fails.
    fn initial_states(&mut self, states: &mut [Option<V>]) {
        let mut iterators: Vec<LookaheadBuffer<V>> = Vec::new();
        let mut i: usize = 0;
        while i < states.len()
            invariant
                i <= states@.len(),
                states@.len() == old(states)@.len(),
                self.system == old(self).system,
                iterators@.len() == i,
                forall|k: int|
                    0 <= k < i ==> seeded_by_a_run(
                        self.system,
                        old(states)@[k],
                        #[trigger] states@[k],
                        iterators@[k]@,
                    ),
                forall|k: int| i <= k < states@.len() ==> states@[k] == old(states)@[k],
            decreases states@.len() - i,
        {
            let ghost outcome: Result<Seq<V>, IntegrationFailure>;
            let buffer = match &states[i] {
                Some(y0) => {
                    let result = self.system.integrate(y0);
                    proof {
                        outcome = outcome_view(result);
                    }
                    match result {
                        Ok(iter) => iter,
                        Err(_e) => Self::remove_v_and_iter(&mut states[i]),
                    }
                },
                None => {
                    proof {
                        outcome = Err(IntegrationFailure::StepSizeUnderflow);
                    }
                    empty_into_iter()
                },
            };
            iterators.push(buffer);
            proof {
                assert(old(states)@[i as int] is Some ==> self.system.may_return(
                    old(states)@[i as int]->Some_0,
                    outcome,
                ));
                assert(seeded(old(states)@[i as int], outcome) == (
                    states@[i as int],
                    iterators@[i as int]@,
                ));
            }
            i = i + 1;
        }
        self.iterators = iterators;
    }
}

} // verus!
