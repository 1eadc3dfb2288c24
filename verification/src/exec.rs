//! Executors: several ensembles, each advanced by a map or solver of its
//! own.
use vstd::prelude::*;
use crate::chaos_data::{cloned_slots, empty_slots, refilled, unmeshed, ChaosData};
use crate::discrete::DiscreteMap;
use crate::distribution::{all_admissible, InitialDistributionVariant, RandomVariate};
use crate::integrator::OdeSolverTrait;
use crate::scalar::Scalar;
use crate::states::{FromStateVec, ValidStateCheck};

verus! {

/// The time of the `k`-th tick of a batch that starts at `t0`.
pub open spec fn timestep<T: Scalar>(t0: T, k: int) -> T {
    t0.spec_plus(T::spec_from_int(k))
}

/// A sample after `n` ticks of a discrete map from time `t0`: the map is
/// applied tick by tick, and the sample dies on the first state that is not
/// valid, which ends its part in the batch.
pub open spec fn stepped<V: ValidStateCheck, D: DiscreteMap<State = V>>(
    map: D,
    slot: Option<V>,
    t0: D::Time,
    n: nat,
) -> Option<V> where D::Time: Scalar
    decreases n,
{
    if n == 0 {
        slot
    } else {
        match stepped(map, slot, t0, (n - 1) as nat) {
            None => None,
            Some(y) => {
                let next = map.apply(y, timestep(t0, n - 1));
                if next.valid() {
                    Some(next)
                } else {
                    None
                }
            },
        }
    }
}

/// A sample that is dead after `m` ticks is dead after any later tick.
pub proof fn lemma_stepped_stays_dead<V: ValidStateCheck, D: DiscreteMap<State = V>>(
    map: D,
    slot: Option<V>,
    t0: D::Time,
    m: nat,
    n: nat,
) where D::Time: Scalar
    requires
        m <= n,
        stepped(map, slot, t0, m) is None,
    ensures
        stepped(map, slot, t0, n) is None,
    decreases n,
{
    if m < n {
        lemma_stepped_stays_dead(map, slot, t0, m, (n - 1) as nat);
    }
}

/// Ensembles paired with the discrete maps that advance them.
pub struct DiscreteVecExecutor<V, D> {
    pub pairs: Vec<(ChaosData<V>, D)>,
}

impl<V, D> DiscreteVecExecutor<V, D> where
    V: FromStateVec + ValidStateCheck + Clone,
    D: DiscreteMap<State = V> + Clone,
    D::Time: Scalar,
 {
    /// Fills the empty slots of every ensemble with fresh samples.
    pub fn reinit_states_vec(&mut self, distributions: &[InitialDistributionVariant<V::Number>]) where
        V::Number: RandomVariate,

        requires
            distributions@.len() > 0 ==> distributions@.len() >= V::spec_arity(),
            forall|p: int|
                0 <= p < old(self).pairs@.len() && empty_slots(
                    (#[trigger] old(self).pairs@[p]).0@,
                ).len() > 0 ==> all_admissible(unmeshed(distributions@)),
        ensures
            final(self).pairs@.len() == old(self).pairs@.len(),
            forall|p: int|
                0 <= p < old(self).pairs@.len() ==> {
                    &&& (#[trigger] final(self).pairs@[p]).1 == old(self).pairs@[p].1
                    &&& refilled(
                        old(self).pairs@[p].0@,
                        final(self).pairs@[p].0@,
                        distributions@,
                    )
                },
    {
        let mut p: usize = 0;
        while p < self.pairs.len()
            invariant
                p <= self.pairs@.len(),
                self.pairs@.len() == old(self).pairs@.len(),
                distributions@.len() > 0 ==> distributions@.len() >= V::spec_arity(),
                forall|q: int|
                    0 <= q < old(self).pairs@.len() && empty_slots(
                        (#[trigger] old(self).pairs@[q]).0@,
                    ).len() > 0 ==> all_admissible(unmeshed(distributions@)),
                forall|q: int| p <= q < self.pairs@.len() ==> self.pairs@[q] == old(self).pairs@[q],
                forall|q: int|
                    0 <= q < p ==> {
                        &&& (#[trigger] self.pairs@[q]).1 == old(self).pairs@[q].1
                        &&& refilled(old(self).pairs@[q].0@, self.pairs@[q].0@, distributions@)
                    },
            decreases self.pairs@.len() - p,
        {
            let pair = &mut self.pairs[p];
            let _indices = pair.0.reinit_states(distributions);
            p = p + 1;
        }
    }

    /// Advances one sample through the given times, stopping at the first
    /// state that is not valid.
    pub fn execute_state(state: &mut Option<V>, map: &D, timesteps: &Vec<D::Time>, t0: &D::Time)
        requires
            forall|k: int| 0 <= k < timesteps@.len() ==> timesteps@[k] == timestep(*t0, k),
        ensures
            *final(state) == stepped(*map, *old(state), *t0, timesteps@.len()),
    {
        let n = timesteps.len();
        let mut k: usize = 0;
        while k < n
            invariant
                k <= n,
                n == timesteps@.len(),
                forall|j: int| 0 <= j < timesteps@.len() ==> timesteps@[j] == timestep(*t0, j),
                *state == stepped(*map, *old(state), *t0, k as nat),
            decreases n - k,
        {
            let mut dead = false;
            match state {
                Some(y) => {
                    map.execute(y, &timesteps[k]);
                    if !y.is_valid() {
                        dead = true;
                    }
                },
                None => {
                    proof {
                        lemma_stepped_stays_dead(*map, *old(state), *t0, k as nat, n as nat);
                    }
                    return ;
                },
            }
            if dead {
                *state = None;
                proof {
                    lemma_stepped_stays_dead(*map, *old(state), *t0, (k + 1) as nat, n as nat);
                }
                return ;
            }
            k = k + 1;
        }
    }

    /// Advances every ensemble by `num_executions` ticks of its map, the
    /// first tick at time `t0` and each later tick one unit of time on.
    pub fn execute_vec(&mut self, num_executions: usize, t0: &D::Time)
        ensures
            final(self).pairs@.len() == old(self).pairs@.len(),
            forall|p: int|
                0 <= p < old(self).pairs@.len() ==> {
                    &&& (#[trigger] final(self).pairs@[p]).1 == old(self).pairs@[p].1
                    &&& final(self).pairs@[p].0@.len() == old(self).pairs@[p].0@.len()
                    &&& forall|i: int|
                        0 <= i < old(self).pairs@[p].0@.len() ==> final(self).pairs@[p].0@[i]
                            == stepped(
                            old(self).pairs@[p].1,
                            old(self).pairs@[p].0@[i],
                            *t0,
                            num_executions as nat,
                        )
                },
    {
        let mut timesteps: Vec<D::Time> = Vec::new();
        let mut k: usize = 0;
        while k < num_executions
            invariant
                k <= num_executions,
                timesteps@.len() == k,
                forall|j: int| 0 <= j < k ==> timesteps@[j] == timestep(*t0, j),
            decreases num_executions - k,
        {
            timesteps.push(t0.plus(<D::Time as Scalar>::from_usize(k)));
            k = k + 1;
        }
        let mut p: usize = 0;
        while p < self.pairs.len()
            invariant
                p <= self.pairs@.len(),
                self.pairs@.len() == old(self).pairs@.len(),
                timesteps@.len() == num_executions,
                forall|j: int| 0 <= j < timesteps@.len() ==> timesteps@[j] == timestep(*t0, j),
                forall|q: int| p <= q < self.pairs@.len() ==> self.pairs@[q] == old(self).pairs@[q],
                forall|q: int|
                    0 <= q < p ==> {
                        &&& (#[trigger] self.pairs@[q]).1 == old(self).pairs@[q].1
                        &&& self.pairs@[q].0@.len() == old(self).pairs@[q].0@.len()
                        &&& forall|i: int|
                            0 <= i < old(self).pairs@[q].0@.len() ==> self.pairs@[q].0@[i]
                                == stepped(
                                old(self).pairs@[q].1,
                                old(self).pairs@[q].0@[i],
                                *t0,
                                num_executions as nat,
                            )
                    },
            decreases self.pairs@.len() - p,
        {
            let pair = &mut self.pairs[p];
            let ghost before = pair.0@;
            let ghost map = pair.1;
            let data = pair.0.data_mut();
            let n = data.len();
            let mut i: usize = 0;
            while i < n
                invariant
                    i <= n,
                    n == data@.len(),
                    n == before.len(),
                    map == pair.1,
                    timesteps@.len() == num_executions,
                    forall|j: int| 0 <= j < timesteps@.len() ==> timesteps@[j] == timestep(*t0, j),
                    forall|j: int|
                        0 <= j < i ==> data@[j] == stepped(
                            map,
                            before[j],
                            *t0,
                            num_executions as nat,
                        ),
                    forall|j: int| i <= j < n ==> data@[j] == before[j],
                decreases n - i,
            {
                Self::execute_state(&mut data[i], &pair.1, &timesteps, t0);
                i = i + 1;
            }
            p = p + 1;
        }
    }

    /// The ensembles, in the order of the pairs.
    pub fn get_chaos_data_refs(&self) -> (refs: Vec<&ChaosData<V>>)
        ensures
            refs@.len() == self.pairs@.len(),
            forall|p: int| 0 <= p < refs@.len() ==> *refs@[p] == self.pairs@[p].0,
    {
        let mut refs: Vec<&ChaosData<V>> = Vec::new();
        let mut p: usize = 0;
        while p < self.pairs.len()
            invariant
                p <= self.pairs@.len(),
                refs@.len() == p,
                forall|q: int| 0 <= q < p ==> *refs@[q] == self.pairs@[q].0,
            decreases self.pairs@.len() - p,
        {
            refs.push(&self.pairs[p].0);
            p = p + 1;
        }
        refs
    }

    /// One pair per map: map `m` gets a copy of ensemble `m`, counting
    /// round the ensembles as often as needed. Without ensembles there are
    /// no pairs.
    pub fn new(chaos_data: Vec<&ChaosData<V>>, maps: &[D]) -> (executor: Self)
        ensures
            executor.pairs@.len() == (if chaos_data@.len() == 0 {
                0
            } else {
                maps@.len() as int
            }),
            forall|m: int|
                0 <= m < executor.pairs@.len() ==> cloned_slots(
                    chaos_data@[m % (chaos_data@.len() as int)]@,
                    (#[trigger] executor.pairs@[m]).0@,
                ) && cloned(maps@[m], executor.pairs@[m].1),
    {
        let mut pairs: Vec<(ChaosData<V>, D)> = Vec::new();
        if chaos_data.len() == 0 {
            return Self { pairs };
        }
        let mut m: usize = 0;
        while m < maps.len()
            invariant
                m <= maps@.len(),
                chaos_data@.len() > 0,
                pairs@.len() == m,
                forall|k: int|
                    0 <= k < m ==> cloned_slots(
                        chaos_data@[k % (chaos_data@.len() as int)]@,
                        (#[trigger] pairs@[k]).0@,
                    ) && cloned(maps@[k], pairs@[k].1),
            decreases maps@.len() - m,
        {
            let data = chaos_data[m % chaos_data.len()];
            pairs.push((data.clone(), maps[m].clone()));
            m = m + 1;
        }
        Self { pairs }
    }

    /// One pair per map, each with a copy of the one ensemble.
    pub fn new_single(data: &ChaosData<V>, maps: &[D]) -> (executor: Self)
        ensures
            executor.pairs@.len() == maps@.len(),
            forall|m: int|
                0 <= m < executor.pairs@.len() ==> cloned_slots(
                    data@,
                    (#[trigger] executor.pairs@[m]).0@,
                ) && cloned(maps@[m], executor.pairs@[m].1),
    {
        let mut pairs: Vec<(ChaosData<V>, D)> = Vec::new();
        let mut m: usize = 0;
        while m < maps.len()
            invariant
                m <= maps@.len(),
                pairs@.len() == m,
                forall|k: int|
                    0 <= k < m ==> cloned_slots(data@, (#[trigger] pairs@[k]).0@) && cloned(
                        maps@[k],
                        pairs@[k].1,
                    ),
            decreases maps@.len() - m,
        {
            pairs.push((data.clone(), maps[m].clone()));
            m = m + 1;
        }
        Self { pairs }
    }
}

/// Whether `copy` is a copy of `source` after seeding: it has as many
/// slots, a slot is empty where the slot of `source` is, and holds a clone
/// of the sample of `source` where it is not empty.
pub open spec fn seeded_copy<V: Clone>(source: Seq<Option<V>>, copy: Seq<Option<V>>) -> bool {
    &&& copy.len() == source.len()
    &&& forall|i: int|
        0 <= i < source.len() ==> match #[trigger] copy[i] {
            Some(v) => source[i] is Some && cloned(source[i]->Some_0, v),
            None => true,
        }
    &&& forall|i: int| 0 <= i < source.len() && source[i] is None ==> copy[i] is None
}

/// Whether a pair of ensemble and solver is what seeding makes of a clone
/// of `source` and a clone of `solver`.
pub open spec fn seeded_pair<V: Clone, O: OdeSolverTrait<State = V> + Clone>(
    source: Seq<Option<V>>,
    solver: O,
    pair: (ChaosData<V>, O),
) -> bool {
    exists|copy: Seq<Option<V>>, fresh: O|
        cloned_slots(source, copy) && cloned(solver, fresh) && #[trigger] fresh.seeds(
            copy,
            pair.1,
            pair.0@,
        )
}

/// Ensembles paired with the solvers that advance them.
pub struct ContinuousVecExecutor<V, O> {
    pub pairs: Vec<(ChaosData<V>, O)>,
}

impl<V, O> ContinuousVecExecutor<V, O> where
    V: FromStateVec + ValidStateCheck + Clone,
    O: OdeSolverTrait<State = V> + Clone,
 {
    /// Fills the empty slots of every ensemble with fresh samples and tells
    /// each solver which slots were filled.
    pub fn reinit_states_vec(&mut self, distributions: &[InitialDistributionVariant<V::Number>]) where
        V::Number: RandomVariate,

        requires
            distributions@.len() > 0 ==> distributions@.len() >= V::spec_arity(),
            forall|p: int|
                0 <= p < old(self).pairs@.len() && empty_slots(
                    (#[trigger] old(self).pairs@[p]).0@,
                ).len() > 0 ==> all_admissible(unmeshed(distributions@)),
        ensures
            final(self).pairs@.len() == old(self).pairs@.len(),
            forall|p: int|
                0 <= p < old(self).pairs@.len() ==> {
                    &&& refilled(
                        old(self).pairs@[p].0@,
                        (#[trigger] final(self).pairs@[p]).0@,
                        distributions@,
                    )
                    &&& old(self).pairs@[p].1.reinitialises(
                        final(self).pairs@[p].0@,
                        empty_slots(old(self).pairs@[p].0@),
                        final(self).pairs@[p].1,
                    )
                },
    {
        let mut p: usize = 0;
        while p < self.pairs.len()
            invariant
                p <= self.pairs@.len(),
                self.pairs@.len() == old(self).pairs@.len(),
                distributions@.len() > 0 ==> distributions@.len() >= V::spec_arity(),
                forall|q: int|
                    0 <= q < old(self).pairs@.len() && empty_slots(
                        (#[trigger] old(self).pairs@[q]).0@,
                    ).len() > 0 ==> all_admissible(unmeshed(distributions@)),
                forall|q: int| p <= q < self.pairs@.len() ==> self.pairs@[q] == old(self).pairs@[q],
                forall|q: int|
                    0 <= q < p ==> {
                        &&& refilled(
                            old(self).pairs@[q].0@,
                            (#[trigger] self.pairs@[q]).0@,
                            distributions@,
                        )
                        &&& old(self).pairs@[q].1.reinitialises(
                            self.pairs@[q].0@,
                            empty_slots(old(self).pairs@[q].0@),
                            self.pairs@[q].1,
                        )
                    },
            decreases self.pairs@.len() - p,
        {
            let pair = &mut self.pairs[p];
            let new_state_indices = pair.0.reinit_states(distributions);
            pair.1.reinit_states(pair.0.data_mut().as_mut_slice(), new_state_indices);
            p = p + 1;
        }
    }

    /// Advances every ensemble by `num_executions` ticks of its solver.
    /// Every ensemble keeps its length, an empty slot stays empty, and zero
    /// ticks change no sample.
    pub fn execute_vec<T>(&mut self, num_executions: usize, _t0: &T)
        ensures
            final(self).pairs@.len() == old(self).pairs@.len(),
            forall|p: int|
                0 <= p < old(self).pairs@.len() ==> {
                    &&& old(self).pairs@[p].1.advances(
                        old(self).pairs@[p].0@,
                        (#[trigger] final(self).pairs@[p]).1,
                        final(self).pairs@[p].0@,
                        num_executions as nat,
                    )
                    &&& final(self).pairs@[p].0@.len() == old(self).pairs@[p].0@.len()
                    &&& forall|i: int|
                        0 <= i < old(self).pairs@[p].0@.len() && old(self).pairs@[p].0@[i] is None
                            ==> final(self).pairs@[p].0@[i] is None
                    &&& num_executions == 0 ==> final(self).pairs@[p].0@ == old(self).pairs@[p].0@
                },
    {
        let mut p: usize = 0;
        while p < self.pairs.len()
            invariant
                p <= self.pairs@.len(),
                self.pairs@.len() == old(self).pairs@.len(),
                forall|q: int| p <= q < self.pairs@.len() ==> self.pairs@[q] == old(self).pairs@[q],
                forall|q: int|
                    0 <= q < p ==> {
                        &&& old(self).pairs@[q].1.advances(
                            old(self).pairs@[q].0@,
                            (#[trigger] self.pairs@[q]).1,
                            self.pairs@[q].0@,
                            num_executions as nat,
                        )
                        &&& self.pairs@[q].0@.len() == old(self).pairs@[q].0@.len()
                        &&& forall|i: int|
                            0 <= i < old(self).pairs@[q].0@.len() && old(self).pairs@[q].0@[i]
                                is None ==> self.pairs@[q].0@[i] is None
                        &&& num_executions == 0 ==> self.pairs@[q].0@ == old(self).pairs@[q].0@
                    },
            decreases self.pairs@.len() - p,
        {
            let pair = &mut self.pairs[p];
            pair.1.execute(pair.0.data_mut().as_mut_slice(), num_executions);
            p = p + 1;
        }
    }

    /// One pair per solver: solver `m` gets a copy of ensemble `m`,
    /// counting round the ensembles as often as needed, and is seeded with
    /// it. Without ensembles there are no pairs.
    pub fn new(chaos_data: Vec<&ChaosData<V>>, ode_solver_vec: &[O]) -> (executor: Self)
        ensures
            executor.pairs@.len() == (if chaos_data@.len() == 0 {
                0
            } else {
                ode_solver_vec@.len() as int
            }),
            forall|m: int|
                0 <= m < executor.pairs@.len() ==> seeded_copy(
                    chaos_data@[m % (chaos_data@.len() as int)]@,
                    (#[trigger] executor.pairs@[m]).0@,
                ) && seeded_pair(
                    chaos_data@[m % (chaos_data@.len() as int)]@,
                    ode_solver_vec@[m],
                    executor.pairs@[m],
                ),
    {
        let mut pairs: Vec<(ChaosData<V>, O)> = Vec::new();
        if chaos_data.len() == 0 {
            return Self { pairs };
        }
        let mut m: usize = 0;
        while m < ode_solver_vec.len()
            invariant
                m <= ode_solver_vec@.len(),
                chaos_data@.len() > 0,
                pairs@.len() == m,
                forall|k: int|
                    0 <= k < m ==> seeded_copy(
                        chaos_data@[k % (chaos_data@.len() as int)]@,
                        (#[trigger] pairs@[k]).0@,
                    ) && seeded_pair(
                        chaos_data@[k % (chaos_data@.len() as int)]@,
                        ode_solver_vec@[k],
                        pairs@[k],
                    ),
            decreases ode_solver_vec@.len() - m,
        {
            let data = chaos_data[m % chaos_data.len()];
            let mut ode_solver = ode_solver_vec[m].clone();
            let mut data_clone = data.clone();
            let ghost cloned_data = data_clone@;
            let ghost fresh = ode_solver;
            proof {
                assert(cloned(ode_solver_vec@[m as int], fresh));
                assert(cloned_slots(data@, cloned_data));
            }
            ode_solver.initial_states(data_clone.data_mut().as_mut_slice());
            proof {
                assert(fresh.seeds(cloned_data, ode_solver, data_clone@));
                assert(seeded_copy(data@, data_clone@)) by {
                    assert forall|i: int|
                        0 <= i < data@.len() implies match #[trigger] data_clone@[i] {
                        Some(v) => data@[i] is Some && cloned(data@[i]->Some_0, v),
                        None => true,
                    } by {
                        assert(data_clone@[i] is None || data_clone@[i] == cloned_data[i]);
                        if data@[i] is None {
                            assert(cloned_data[i] is None);
                        }
                    }
                    assert forall|i: int|
                        0 <= i < data@.len() && data@[i] is None implies data_clone@[i] is None by {
                        assert(data_clone@[i] is None || data_clone@[i] == cloned_data[i]);
                        assert(cloned_data[i] is None);
                    }
                }
            }
            proof {
                let pair = (data_clone, ode_solver);
                assert(fresh.seeds(cloned_data, pair.1, pair.0@));
                assert(seeded_pair(data@, ode_solver_vec@[m as int], pair));
            }
            pairs.push((data_clone, ode_solver));
            m = m + 1;
        }
        Self { pairs }
    }

    /// One pair per solver, each with a copy of the one ensemble, and
    /// seeded with it.
    pub fn new_single(data: &ChaosData<V>, ode_solver_vec: &[O]) -> (executor: Self)
        ensures
            executor.pairs@.len() == ode_solver_vec@.len(),
            forall|m: int|
                0 <= m < executor.pairs@.len() ==> seeded_copy(
                    data@,
                    (#[trigger] executor.pairs@[m]).0@,
                ) && seeded_pair(data@, ode_solver_vec@[m], executor.pairs@[m]),
    {
        let mut pairs: Vec<(ChaosData<V>, O)> = Vec::new();
        let mut m: usize = 0;
        while m < ode_solver_vec.len()
            invariant
                m <= ode_solver_vec@.len(),
                pairs@.len() == m,
                forall|k: int|
                    0 <= k < m ==> seeded_copy(data@, (#[trigger] pairs@[k]).0@) && seeded_pair(
                        data@,
                        ode_solver_vec@[k],
                        pairs@[k],
                    ),
            decreases ode_solver_vec@.len() - m,
        {
            let mut ode_solver = ode_solver_vec[m].clone();
            let mut data_clone = data.clone();
            let ghost cloned_data = data_clone@;
            let ghost fresh = ode_solver;
            proof {
                assert(cloned(ode_solver_vec@[m as int], fresh));
                assert(cloned_slots(data@, cloned_data));
            }
            ode_solver.initial_states(data_clone.data_mut().as_mut_slice());
            proof {
                assert(fresh.seeds(cloned_data, ode_solver, data_clone@));
                assert(seeded_copy(data@, data_clone@)) by {
                    assert forall|i: int|
                        0 <= i < data@.len() implies match #[trigger] data_clone@[i] {
                        Some(v) => data@[i] is Some && cloned(data@[i]->Some_0, v),
                        None => true,
                    } by {
                        assert(data_clone@[i] is None || data_clone@[i] == cloned_data[i]);
                        if data@[i] is None {
                            assert(cloned_data[i] is None);
                        }
                    }
                    assert forall|i: int|
                        0 <= i < data@.len() && data@[i] is None implies data_clone@[i] is None by {
                        assert(data_clone@[i] is None || data_clone@[i] == cloned_data[i]);
                        assert(cloned_data[i] is None);
                    }
                }
            }
            proof {
                let pair = (data_clone, ode_solver);
                assert(fresh.seeds(cloned_data, pair.1, pair.0@));
                assert(seeded_pair(data@, ode_solver_vec@[m as int], pair));
            }
            pairs.push((data_clone, ode_solver));
            m = m + 1;
        }
        Self { pairs }
    }

    /// The ensembles, in the order of the pairs.
    pub fn get_chaos_data_refs(&self) -> (refs: Vec<&ChaosData<V>>)
        ensures
            refs@.len() == self.pairs@.len(),
            forall|p: int| 0 <= p < refs@.len() ==> *refs@[p] == self.pairs@[p].0,
    {
        let mut refs: Vec<&ChaosData<V>> = Vec::new();
        let mut p: usize = 0;
        while p < self.pairs.len()
            invariant
                p <= self.pairs@.len(),
                refs@.len() == p,
                forall|q: int| 0 <= q < p ==> *refs@[q] == self.pairs@[q].0,
            decreases self.pairs@.len() - p,
        {
            refs.push(&self.pairs[p].0);
            p = p + 1;
        }
        refs
    }
}

} // verus!
