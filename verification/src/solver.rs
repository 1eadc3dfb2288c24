//! The particle solver: forces between all pairs, the collisions found on
//! the way and their resolution, and the kinematic integration between two
//! force computations.
use vstd::prelude::*;
use std::collections::{BTreeMap, BTreeSet};
use crate::collision_graph::{
    graph_attach, graph_fits, graph_insert, graph_view, handed_over, pop_first_entry,
    pop_first_offset, record_collision, CollisionGraph,
};
use crate::integrator::{outcome_view, IntegrationFailure, Integrator, OdeSolverTrait};
use crate::lookahead::{emptied_at, empty_buffers_at, empty_into_iter, LookaheadBuffer};
use crate::newton::{CollisionParams, Force, IntegrationParams};
use crate::particle::Particle;
use crate::scalar::Scalar;
use crate::states::ValidStateCheck;

verus! {

/// The solver of a particle ensemble under the parameters `S`, with one
/// buffer of future kinematic states per particle, filled by the integrator
/// `I`.
#[derive(Clone, Debug)]
pub struct ParticleOdeSolver<V, I, S> {
    pub params: S,
    /// The cached kinematic states, paired with the particles by index.
    pub iterators: Vec<LookaheadBuffer<V>>,
    pub integrator: I,
    /// The collisions of the macro-step under way; empty between steps.
    pub temp_collision_indices: CollisionGraph,
    /// Ticks served from the buffers since the last force computation.
    pub integration_counter: usize,
}

/// Two particles collide when their distance is less than the sum of their
/// radii.
pub open spec fn overlapping<V, F, R: Scalar>(
    distance: R,
    p_i: Particle<V, F, R>,
    p_j: Particle<V, F, R>,
) -> bool {
    distance.spec_lt(p_i.radius.spec_plus(p_j.radius))
}

/// A slot at the start of a force computation: a live particle loses the
/// mark of its last collision and starts from the force that acts on it
/// alone.
pub open spec fn reset_slot<V, F, R, S>(slot: Option<Particle<V, F, R>>, params: S) -> Option<
    Particle<V, F, R>,
> where F: Force<Cause = Particle<V, F, R>, Params = S> {
    match slot {
        Some(p) => Some(
            F::spec_single(Particle { has_collided: false, force: F::spec_zero(), ..p }, params),
        ),
        None => None,
    }
}

/// All slots at the start of a force computation.
pub open spec fn reset_all<V, F, R, S>(slots: Seq<Option<Particle<V, F, R>>>, params: S) -> Seq<
    Option<Particle<V, F, R>>,
> where F: Force<Cause = Particle<V, F, R>, Params = S> {
    Seq::new(slots.len(), |k: int| reset_slot(slots[k], params))
}

/// Particle `i` meets its successor at offset `k`: the force between them
/// is added to both, and if collisions are looked for and the two overlap,
/// both are marked and the pair is recorded. An empty slot is passed over.
pub open spec fn tail_step<V, F, R, S>(
    p_i: Particle<V, F, R>,
    tail: Seq<Option<Particle<V, F, R>>>,
    graph: Map<usize, Set<usize>>,
    i: usize,
    k: int,
    params: S,
) -> (Particle<V, F, R>, Seq<Option<Particle<V, F, R>>>, Map<usize, Set<usize>>) where
    F: Force<Cause = Particle<V, F, R>, Params = S, Distance = R>,
    S: CollisionParams,
    R: Scalar,
 {
    match tail[k] {
        Some(p_j) => {
            let (q_i, q_j, distance) = F::spec_pairwise(p_i, p_j, params);
            if params.spec_perform_collision_detection() && overlapping(distance, q_i, q_j) {
                (
                    Particle { has_collided: true, ..q_i },
                    tail.update(k, Some(Particle { has_collided: true, ..q_j })),
                    graph_insert(graph, i, k as usize),
                )
            } else {
                (q_i, tail.update(k, Some(q_j)), graph)
            }
        },
        None => (p_i, tail, graph),
    }
}

/// Particle `i` meets its first `k` successors, in ascending order.
pub open spec fn tail_scan<V, F, R, S>(
    p_i: Particle<V, F, R>,
    tail: Seq<Option<Particle<V, F, R>>>,
    graph: Map<usize, Set<usize>>,
    i: usize,
    k: nat,
    params: S,
) -> (Particle<V, F, R>, Seq<Option<Particle<V, F, R>>>, Map<usize, Set<usize>>) where
    F: Force<Cause = Particle<V, F, R>, Params = S, Distance = R>,
    S: CollisionParams,
    R: Scalar,

    decreases k,
{
    if k == 0 {
        (p_i, tail, graph)
    } else {
        let before = tail_scan(p_i, tail, graph, i, (k - 1) as nat, params);
        tail_step(before.0, before.1, before.2, i, k - 1, params)
    }
}

/// The slot at index `i` meets all the slots behind it. An empty slot meets
/// nothing.
pub open spec fn row_step<V, F, R, S>(
    slots: Seq<Option<Particle<V, F, R>>>,
    graph: Map<usize, Set<usize>>,
    i: int,
    params: S,
) -> (Seq<Option<Particle<V, F, R>>>, Map<usize, Set<usize>>) where
    F: Force<Cause = Particle<V, F, R>, Params = S, Distance = R>,
    S: CollisionParams,
    R: Scalar,
 {
    match slots[i] {
        Some(p_i) => {
            let tail = slots.subrange(i + 1, slots.len() as int);
            let after = tail_scan(p_i, tail, graph, i as usize, tail.len(), params);
            (slots.subrange(0, i).push(Some(after.0)) + after.1, after.2)
        },
        None => (slots, graph),
    }
}

/// The first `rows` slots have each met all the slots behind them, in
/// ascending order: every pair with its first member among them has been
/// visited once.
pub open spec fn accumulate<V, F, R, S>(
    slots: Seq<Option<Particle<V, F, R>>>,
    graph: Map<usize, Set<usize>>,
    rows: nat,
    params: S,
) -> (Seq<Option<Particle<V, F, R>>>, Map<usize, Set<usize>>) where
    F: Force<Cause = Particle<V, F, R>, Params = S, Distance = R>,
    S: CollisionParams,
    R: Scalar,

    decreases rows,
{
    if rows == 0 {
        (slots, graph)
    } else {
        let before = accumulate(slots, graph, (rows - 1) as nat, params);
        row_step(before.0, before.1, rows - 1, params)
    }
}

/// Whether the same slots are occupied in both arrays.
pub open spec fn same_liveness<P>(a: Seq<Option<P>>, b: Seq<Option<P>>) -> bool {
    &&& a.len() == b.len()
    &&& forall|k: int| 0 <= k < a.len() ==> (#[trigger] a[k] is Some <==> b[k] is Some)
}

/// Particle `i` collides with its successor at offset `k`, if that offset is
/// among its pending successors and no successor has absorbed it yet. The
/// successor takes the part of the first particle of the collision, so that
/// it is the successor that survives a merge; `merged` then names it.
pub open spec fn successor_step<V, F, R, S>(
    p_i: Option<Particle<V, F, R>>,
    tail: Seq<Option<Particle<V, F, R>>>,
    merged: Option<usize>,
    offsets: Set<usize>,
    k: int,
    params: S,
) -> (Option<Particle<V, F, R>>, Seq<Option<Particle<V, F, R>>>, Option<usize>) where
    F: Force<Cause = Particle<V, F, R>, Params = S>,
 {
    if merged is Some || !offsets.contains(k as usize) {
        (p_i, tail, merged)
    } else {
        match tail[k] {
            Some(p_j) => match p_i {
                Some(p) => {
                    let (q_j, q_i) = F::spec_collision(p_j, p, params);
                    (
                        q_i,
                        tail.update(k, Some(q_j)),
                        if q_i is None {
                            Some(k as usize)
                        } else {
                            None
                        },
                    )
                },
                None => (None, tail, Some(k as usize)),
            },
            None => (p_i, tail, merged),
        }
    }
}

/// Particle `i` collides with its pending successors among the first `k`
/// slots behind it, in ascending order, until one of them absorbs it.
pub open spec fn successors_scan<V, F, R, S>(
    p_i: Option<Particle<V, F, R>>,
    tail: Seq<Option<Particle<V, F, R>>>,
    offsets: Set<usize>,
    k: nat,
    params: S,
) -> (Option<Particle<V, F, R>>, Seq<Option<Particle<V, F, R>>>, Option<usize>) where
    F: Force<Cause = Particle<V, F, R>, Params = S>,

    decreases k,
{
    if k == 0 {
        (p_i, tail, None)
    } else {
        let before = successors_scan(p_i, tail, offsets, (k - 1) as nat, params);
        successor_step(before.0, before.1, before.2, offsets, k - 1, params)
    }
}

/// The collisions recorded for slot `i` are resolved. A slot that has been
/// emptied in the meantime is passed over and its entry dropped. Where a
/// successor absorbs the particle, the successors still pending are handed
/// over to that successor, to be resolved when its turn comes.
pub open spec fn resolve_key<V, F, R, S>(
    slots: Seq<Option<Particle<V, F, R>>>,
    graph: Map<usize, Set<usize>>,
    i: int,
    params: S,
) -> (Seq<Option<Particle<V, F, R>>>, Map<usize, Set<usize>>) where
    F: Force<Cause = Particle<V, F, R>, Params = S>,
 {
    if !graph.contains_key(i as usize) {
        (slots, graph)
    } else if slots[i] is None {
        (slots, graph.remove(i as usize))
    } else {
        let tail = slots.subrange(i + 1, slots.len() as int);
        let after = successors_scan(slots[i], tail, graph[i as usize], tail.len(), params);
        let resolved = slots.subrange(0, i).push(after.0) + after.1;
        let rest = graph.remove(i as usize);
        match after.2 {
            Some(m) => (
                resolved,
                graph_attach(rest, (i + 1 + m) as usize, handed_over(graph[i as usize], m)),
            ),
            None => (resolved, rest),
        }
    }
}

/// The offset of the successor that absorbs particle `i` when its recorded
/// collisions are resolved, if one does.
pub open spec fn expected_merge<V, F, R, S>(
    slots: Seq<Option<Particle<V, F, R>>>,
    graph: Map<usize, Set<usize>>,
    i: int,
    params: S,
) -> Option<usize> where F: Force<Cause = Particle<V, F, R>, Params = S> {
    if graph.contains_key(i as usize) && slots[i] is Some {
        let tail = slots.subrange(i + 1, slots.len() as int);
        successors_scan(slots[i], tail, graph[i as usize], tail.len(), params).2
    } else {
        None
    }
}

/// The collisions recorded for the first `k` slots are resolved, in
/// ascending order of the slots.
pub open spec fn resolve_scan<V, F, R, S>(
    slots: Seq<Option<Particle<V, F, R>>>,
    graph: Map<usize, Set<usize>>,
    k: nat,
    params: S,
) -> (Seq<Option<Particle<V, F, R>>>, Map<usize, Set<usize>>) where
    F: Force<Cause = Particle<V, F, R>, Params = S>,

    decreases k,
{
    if k == 0 {
        (slots, graph)
    } else {
        let before = resolve_scan(slots, graph, (k - 1) as nat, params);
        resolve_key(before.0, before.1, k - 1, params)
    }
}

/// Offsets that are not pending, and offsets behind a merge, change nothing.
pub proof fn lemma_successors_skip<V, F, R, S>(
    p_i: Option<Particle<V, F, R>>,
    tail: Seq<Option<Particle<V, F, R>>>,
    offsets: Set<usize>,
    from: nat,
    to: nat,
    params: S,
) where F: Force<Cause = Particle<V, F, R>, Params = S>
    requires
        from <= to,
        successors_scan(p_i, tail, offsets, from, params).2 is Some || forall|o: usize|
            from <= o < to ==> !offsets.contains(o),
        to <= usize::MAX,
    ensures
        successors_scan(p_i, tail, offsets, to, params) == successors_scan(
            p_i,
            tail,
            offsets,
            from,
            params,
        ),
    decreases to,
{
    if from < to {
        lemma_successors_skip(p_i, tail, offsets, from, (to - 1) as nat, params);
        assert(((to - 1) as int) as usize == to - 1);
    }
}

/// Slots without an entry in the graph change nothing.
pub proof fn lemma_resolve_skip<V, F, R, S>(
    slots: Seq<Option<Particle<V, F, R>>>,
    graph: Map<usize, Set<usize>>,
    from: nat,
    to: nat,
    params: S,
) where F: Force<Cause = Particle<V, F, R>, Params = S>
    requires
        from <= to,
        to <= usize::MAX,
        forall|k: usize|
            from <= k < to ==> !resolve_scan(slots, graph, from, params).1.contains_key(k),
    ensures
        resolve_scan(slots, graph, to, params) == resolve_scan(slots, graph, from, params),
    decreases to,
{
    if from < to {
        lemma_resolve_skip(slots, graph, from, (to - 1) as nat, params);
        assert(((to - 1) as int) as usize == to - 1);
    }
}

/// The cached kinematic states of all particles, as plain values.
pub open spec fn buffers_view<V>(iterators: Vec<LookaheadBuffer<V>>) -> Seq<Seq<V>> {
    Seq::new(iterators@.len(), |k: int| iterators@[k]@)
}

/// One tick of one particle served from its buffer: a live particle takes
/// the next cached kinematic state if there is one, and dies, its buffer
/// cleared, if that state is not valid. An empty slot is left alone.
pub open spec fn pulled<V: ValidStateCheck, F, R>(
    slot: Option<Particle<V, F, R>>,
    buffer: Seq<V>,
) -> (Option<Particle<V, F, R>>, Seq<V>) {
    match slot {
        None => (None, buffer),
        Some(p) => if buffer.len() > 0 {
            if buffer[0].valid() {
                (Some(Particle { state: buffer[0], ..p }), buffer.skip(1))
            } else {
                (None, Seq::empty())
            }
        } else {
            (Some(p), buffer)
        },
    }
}

/// A particle and its buffer after a solver run from the particle's state:
/// the states of the run replace the buffer, and a failed run kills the
/// particle. An empty slot is left alone.
pub open spec fn reseeded<P, V>(
    slot: Option<P>,
    buffer: Seq<V>,
    outcome: Result<Seq<V>, IntegrationFailure>,
) -> (Option<P>, Seq<V>) {
    match slot {
        None => (None, buffer),
        Some(p) => match outcome {
            Ok(future) => (Some(p), future),
            Err(_) => (None, Seq::empty()),
        },
    }
}

/// A particle and its buffer after the solver run that was made from the
/// particle, whatever its outcome was.
pub open spec fn reseeded_by_a_run<P, V, I: Integrator<Input = P, Output = V>>(
    integrator: I,
    slot: Option<P>,
    buffer: Seq<V>,
    new_slot: Option<P>,
    new_buffer: Seq<V>,
) -> bool {
    exists|outcome: Result<Seq<V>, IntegrationFailure>|
        (slot is Some ==> integrator.may_return(slot->Some_0, outcome)) && #[trigger] reseeded(
            slot,
            buffer,
            outcome,
        ) == (new_slot, new_buffer)
}

/// The particles after the forces between them have been computed afresh
/// and the collisions found on the way have been resolved.
pub open spec fn macro_resolved<V, F, R, S>(slots: Seq<Option<Particle<V, F, R>>>, params: S) -> Seq<
    Option<Particle<V, F, R>>,
> where
    F: Force<Cause = Particle<V, F, R>, Params = S, Distance = R>,
    S: CollisionParams,
    R: Scalar,
 {
    let accumulated = accumulate(
        reset_all(slots, params),
        Map::<usize, Set<usize>>::empty(),
        slots.len(),
        params,
    );
    if params.spec_perform_collision_detection() {
        resolve_scan(accumulated.0, accumulated.1, slots.len(), params).0
    } else {
        accumulated.0
    }
}

/// One tick of the solver, from the particles, buffers, counter and
/// collision graph before it to those after it. While the counter is below
/// the length of the horizon, every particle that has a buffer pulls its
/// next state from it, the counter goes up by one, and the graph is left as
/// it is. When the counter has reached the length of the horizon, forces
/// and collisions are computed afresh, every particle that has a buffer
/// gets the states of a new solver run, the counter starts again at zero,
/// and the graph is empty: every collision found in the pass is resolved in
/// it.
pub open spec fn ticked<V, F, R, S, I>(
    params: S,
    integrator: I,
    before: (Seq<Option<Particle<V, F, R>>>, Seq<Seq<V>>, usize, Map<usize, Set<usize>>),
    after: (Seq<Option<Particle<V, F, R>>>, Seq<Seq<V>>, usize, Map<usize, Set<usize>>),
) -> bool where
    V: ValidStateCheck,
    F: Force<Cause = Particle<V, F, R>, Params = S, Distance = R>,
    S: CollisionParams + IntegrationParams,
    R: Scalar,
    I: Integrator<Input = Particle<V, F, R>, Output = V>,
 {
    let (slots, buffers, counter, graph) = before;
    let (new_slots, new_buffers, new_counter, new_graph) = after;
    &&& new_slots.len() == slots.len()
    &&& new_buffers.len() == buffers.len()
    &&& if counter < params.spec_integration_steps() {
        &&& new_counter == counter + 1
        &&& new_graph == graph
        &&& forall|k: int|
            0 <= k < slots.len() && k < buffers.len() ==> (#[trigger] new_slots[k], new_buffers[k])
                == pulled(slots[k], buffers[k])
        &&& forall|k: int| buffers.len() <= k < slots.len() ==> new_slots[k] == slots[k]
        &&& forall|k: int| slots.len() <= k < buffers.len() ==> new_buffers[k] == buffers[k]
    } else {
        let resolved = macro_resolved(slots, params);
        &&& new_counter == 0
        &&& new_graph == Map::<usize, Set<usize>>::empty()
        &&& forall|k: int|
            0 <= k < slots.len() && k < buffers.len() ==> reseeded_by_a_run(
                integrator,
                resolved[k],
                buffers[k],
                #[trigger] new_slots[k],
                new_buffers[k],
            )
        &&& forall|k: int| buffers.len() <= k < slots.len() ==> new_slots[k] == resolved[k]
        &&& forall|k: int| slots.len() <= k < buffers.len() ==> new_buffers[k] == buffers[k]
    }
}

/// `n` ticks of the solver, one after another.
pub open spec fn executed<V, F, R, S, I>(
    params: S,
    integrator: I,
    before: (Seq<Option<Particle<V, F, R>>>, Seq<Seq<V>>, usize, Map<usize, Set<usize>>),
    after: (Seq<Option<Particle<V, F, R>>>, Seq<Seq<V>>, usize, Map<usize, Set<usize>>),
    n: nat,
) -> bool where
    V: ValidStateCheck,
    F: Force<Cause = Particle<V, F, R>, Params = S, Distance = R>,
    S: CollisionParams + IntegrationParams,
    R: Scalar,
    I: Integrator<Input = Particle<V, F, R>, Output = V>,

    decreases n,
{
    if n == 0 {
        before == after
    } else {
        exists|between: (Seq<Option<Particle<V, F, R>>>, Seq<Seq<V>>, usize, Map<usize, Set<usize>>)|
            executed(params, integrator, before, between, (n - 1) as nat) && #[trigger] ticked(
                params,
                integrator,
                between,
                after,
            )
    }
}

impl<V, I, S> ParticleOdeSolver<V, I, S> where S: IntegrationParams, I: Integrator<Output = V> + Default {
    /// A solver that computes forces on the first tick it is asked for: its
    /// counter stands at the length of the horizon. Its integrator is the
    /// default one, told the number of steps of a horizon.
    pub fn new(params: S) -> (solver: Self)
        ensures
            solver.params == params,
            solver.iterators@.len() == 0,
            graph_view(solver.temp_collision_indices) == Map::<usize, Set<usize>>::empty(),
            solver.integration_counter == params.spec_integration_steps(),
            exists|base: I|
                call_ensures(I::default, (), base) && #[trigger] base.steps_set(
                    params.spec_integration_steps(),
                    solver.integrator,
                ),
    {
        let integration_steps = params.integration_steps();
        let mut integrator = I::default();
        let ghost base = integrator;
        integrator.set_steps(integration_steps);
        proof {
            assert(base.steps_set(params.spec_integration_steps(), integrator));
        }
        let temp_collision_indices: CollisionGraph = BTreeMap::new();
        proof {
            assert(graph_view(temp_collision_indices) =~= Map::<usize, Set<usize>>::empty());
        }
        let solver = Self {
            params,
            iterators: Vec::new(),
            integrator,
            temp_collision_indices,
            integration_counter: integration_steps,
        };
        proof {
            assert(call_ensures(I::default, (), base) && base.steps_set(
                solver.params.spec_integration_steps(),
                solver.integrator,
            ));
        }
        solver
    }
}

impl<V, I, S: CollisionParams> ParticleOdeSolver<V, I, S> {
    pub fn collision_detection<F, R: Scalar>(
        distance: &R,
        p_i: &Particle<V, F, R>,
        p_j: &Particle<V, F, R>,
    ) -> (hit: bool)
        ensures
            hit == overlapping(*distance, *p_i, *p_j),
    {
        distance.lt(p_i.radius.plus(p_j.radius))
    }

    /// Prepares every live particle for a force computation.
    pub fn init_force_calculation<F, R>(&mut self, particles: &mut [Option<Particle<V, F, R>>]) where
        F: Force<Cause = Particle<V, F, R>, Params = S>,

        ensures
            *final(self) == *old(self),
            final(particles)@ == reset_all(old(particles)@, old(self).params),
    {
        let n = particles.len();
        let mut k: usize = 0;
        while k < n
            invariant
                k <= n,
                n == particles@.len(),
                particles@.len() == old(particles)@.len(),
                *self == *old(self),
                forall|j: int| 0 <= j < k ==> particles@[j] == reset_slot(old(particles)@[j], self.params),
                forall|j: int| k <= j < n ==> particles@[j] == old(particles)@[j],
            decreases n - k,
        {
            match &mut particles[k] {
                Some(p_i) => {
                    p_i.has_collided = false;
                    p_i.force = F::zero();
                    F::single(p_i, &self.params);
                },
                None => {},
            }
            k = k + 1;
        }
        proof {
            assert(particles@ =~= reset_all(old(particles)@, old(self).params));
        }
    }

    /// Records that particle `i` collides with its successor at offset
    /// `succ_j`.
    pub fn add_to_temp_collision_indices(&mut self, i: usize, succ_j: usize)
        ensures
            graph_view(final(self).temp_collision_indices) == graph_insert(
                graph_view(old(self).temp_collision_indices),
                i,
                succ_j,
            ),
            final(self).params == old(self).params,
            final(self).iterators == old(self).iterators,
            final(self).integrator == old(self).integrator,
            final(self).integration_counter == old(self).integration_counter,
    {
        record_collision(&mut self.temp_collision_indices, i, succ_j);
    }

    /// Lets particle `i` meet all its successors: adds the force of each
    /// pair to both of its members and records the pairs that collide.
    pub fn calc_pairwise_force_and_check_collision<F, R>(
        &mut self,
        i: usize,
        p_i: &mut Particle<V, F, R>,
        successors: &mut [Option<Particle<V, F, R>>],
    ) where F: Force<Cause = Particle<V, F, R>, Params = S, Distance = R>, R: Scalar
        ensures
            (*final(p_i), final(successors)@, graph_view(final(self).temp_collision_indices))
                == tail_scan(
                *old(p_i),
                old(successors)@,
                graph_view(old(self).temp_collision_indices),
                i,
                old(successors)@.len(),
                old(self).params,
            ),
            final(self).params == old(self).params,
            final(self).iterators == old(self).iterators,
            final(self).integrator == old(self).integrator,
            final(self).integration_counter == old(self).integration_counter,
            same_liveness(old(successors)@, final(successors)@),
            !old(self).params.spec_perform_collision_detection() ==> graph_view(
                final(self).temp_collision_indices,
            ) == graph_view(old(self).temp_collision_indices),
            forall|key: usize| #[trigger]
                graph_view(final(self).temp_collision_indices).contains_key(key) ==> graph_view(
                    old(self).temp_collision_indices,
                ).contains_key(key) || key == i,
            forall|key: usize, o: usize|
                graph_view(final(self).temp_collision_indices).contains_key(key) && #[trigger] graph_view(
                    final(self).temp_collision_indices,
                )[key].contains(o) ==> (graph_view(old(self).temp_collision_indices).contains_key(
                    key,
                ) && graph_view(old(self).temp_collision_indices)[key].contains(o)) || (key == i
                    && o < old(successors)@.len() && old(successors)@[o as int] is Some),
    {
        let m = successors.len();
        let mut succ_j: usize = 0;
        while succ_j < m
            invariant
                succ_j <= m,
                m == successors@.len(),
                m == old(successors)@.len(),
                (*p_i, successors@, graph_view(self.temp_collision_indices)) == tail_scan(
                    *old(p_i),
                    old(successors)@,
                    graph_view(old(self).temp_collision_indices),
                    i,
                    succ_j as nat,
                    old(self).params,
                ),
                self.params == old(self).params,
                self.iterators == old(self).iterators,
                self.integrator == old(self).integrator,
                self.integration_counter == old(self).integration_counter,
                same_liveness(old(successors)@, successors@),
                !self.params.spec_perform_collision_detection() ==> graph_view(
                    self.temp_collision_indices,
                ) == graph_view(old(self).temp_collision_indices),
                forall|key: usize| #[trigger]
                    graph_view(self.temp_collision_indices).contains_key(key) ==> graph_view(
                        old(self).temp_collision_indices,
                    ).contains_key(key) || key == i,
                forall|key: usize, o: usize|
                    graph_view(self.temp_collision_indices).contains_key(key) && #[trigger] graph_view(
                        self.temp_collision_indices,
                    )[key].contains(o) ==> (graph_view(
                        old(self).temp_collision_indices,
                    ).contains_key(key) && graph_view(old(self).temp_collision_indices)[key].contains(
                        o,
                    )) || (key == i && o < old(successors)@.len() && old(successors)@[o as int]
                        is Some),
            decreases m - succ_j,
        {
            let ghost tail_before = successors@;
            let mut hit = false;
            match &mut successors[succ_j] {
                Some(p_j) => {
                    let distance = F::pairwise(p_i, p_j, &self.params);
                    if self.params.perform_collision_detection() && Self::collision_detection(
                        &distance,
                        p_i,
                        p_j,
                    ) {
                        hit = true;
                        p_i.has_collided = true;
                        p_j.has_collided = true;
                    }
                },
                None => {},
            }
            if hit {
                self.add_to_temp_collision_indices(i, succ_j);
            }
            proof {
                assert(same_liveness(old(successors)@, successors@)) by {
                    assert forall|k: int| 0 <= k < m implies (#[trigger] old(successors)@[k] is Some
                        <==> successors@[k] is Some) by {
                        assert(old(successors)@[k] is Some <==> tail_before[k] is Some);
                    }
                }
            }
            succ_j = succ_j + 1;
        }
    }


    /// Resolves the pending collisions of one particle with the slots
    /// behind it, in ascending order, and stops as soon as a successor has
    /// absorbed the particle. Returns the offset of that successor, and
    /// leaves in `succ_indices` the successors that were not reached.
    pub fn handle_successor_collisions<F, R>(
        &mut self,
        particle_i: &mut Option<Particle<V, F, R>>,
        succ_indices: &mut BTreeSet<usize>,
        succ_particles: &mut [Option<Particle<V, F, R>>],
    ) -> (merged: Option<usize>) where F: Force<Cause = Particle<V, F, R>, Params = S>
        requires
            forall|o: usize| #[trigger]
                old(succ_indices)@.contains(o) ==> o < old(succ_particles)@.len()
                    && old(succ_particles)@[o as int] is Some,
        ensures
            *final(self) == *old(self),
            (*final(particle_i), final(succ_particles)@, merged) == successors_scan(
                *old(particle_i),
                old(succ_particles)@,
                old(succ_indices)@,
                old(succ_particles)@.len(),
                old(self).params,
            ),
            same_liveness(old(succ_particles)@, final(succ_particles)@),
            merged is Some ==> *final(particle_i) is None,
            merged is None ==> (*final(particle_i) is Some <==> *old(particle_i) is Some),
            match merged {
                Some(m) => old(succ_indices)@.contains(m) && forall|o: usize|
                    final(succ_indices)@.contains(o) <==> old(succ_indices)@.contains(o) && m < o,
                None => final(succ_indices)@ == Set::<usize>::empty(),
            },
    {
        let m = succ_particles.len();
        let ghost offsets = succ_indices@;
        let ghost mut done: nat = 0;
        loop
            invariant
                *self == *old(self),
                m == succ_particles@.len(),
                m == old(succ_particles)@.len(),
                offsets == old(succ_indices)@,
                done <= m,
                forall|o: usize| #[trigger]
                    offsets.contains(o) ==> o < m && old(succ_particles)@[o as int] is Some,
                forall|o: usize| succ_indices@.contains(o) <==> offsets.contains(o) && done <= o,
                (*particle_i, succ_particles@, None::<usize>) == successors_scan(
                    *old(particle_i),
                    old(succ_particles)@,
                    offsets,
                    done,
                    self.params,
                ),
                same_liveness(old(succ_particles)@, succ_particles@),
                (done == 0 && *particle_i == *old(particle_i)) || (*particle_i is Some
                    && *old(particle_i) is Some),
            decreases m - done,
        {
            let ghost pending = succ_indices@;
            let popped = pop_first_offset(succ_indices);
            match popped {
                Some(succ_j) => {
                    proof {
                        assert(offsets.contains(succ_j));
                        lemma_successors_skip(
                            *old(particle_i),
                            old(succ_particles)@,
                            offsets,
                            done,
                            succ_j as nat,
                            self.params,
                        );
                    }
                    let ghost tail_before = succ_particles@;
                    let ghost key_before = *particle_i;
                    match &mut succ_particles[succ_j] {
                        Some(p_j) => {
                            F::collision(p_j, particle_i, &self.params);
                        },
                        None => {},
                    }
                    proof {
                        assert(tail_before[succ_j as int] is Some);
                        assert(same_liveness(old(succ_particles)@, succ_particles@)) by {
                            assert forall|k: int| 0 <= k < m implies (
                            #[trigger] old(succ_particles)@[k] is Some
                                <==> succ_particles@[k] is Some) by {
                                assert(old(succ_particles)@[k] is Some <==> tail_before[k] is Some);
                            }
                        }
                        let step = successor_step(
                            key_before,
                            tail_before,
                            None::<usize>,
                            offsets,
                            succ_j as int,
                            self.params,
                        );
                        assert(succ_particles@ =~= step.1);
                        assert(*particle_i == step.0);
                        assert forall|o: usize| succ_indices@.contains(o) <==> offsets.contains(o)
                            && succ_j < o by {
                            assert(succ_indices@.contains(o) <==> pending.contains(o) && o != succ_j);
                        }
                    }
                    if particle_i.is_none() {
                        proof {
                            lemma_successors_skip(
                                *old(particle_i),
                                old(succ_particles)@,
                                offsets,
                                (succ_j + 1) as nat,
                                m as nat,
                                self.params,
                            );
                        }
                        return Some(succ_j);
                    }
                    proof {
                        done = (succ_j + 1) as nat;
                    }
                },
                None => {
                    proof {
                        lemma_successors_skip(
                            *old(particle_i),
                            old(succ_particles)@,
                            offsets,
                            done,
                            m as nat,
                            self.params,
                        );
                        assert(succ_indices@ =~= Set::<usize>::empty());
                    }
                    return None;
                },
            }
        }
    }

    /// Hands the successors that particle `i` had not reached over to the
    /// successor at offset `merged` that absorbed it.
    pub fn reattach_successors(
        &mut self,
        i: usize,
        merged: usize,
        succ_indices: &mut BTreeSet<usize>,
        bound: usize,
    )
        requires
            i + 1 + merged <= usize::MAX,
            forall|o: usize| #[trigger] old(succ_indices)@.contains(o) ==> merged < o < bound,
        ensures
            final(self).params == old(self).params,
            final(self).iterators == old(self).iterators,
            final(self).integrator == old(self).integrator,
            final(self).integration_counter == old(self).integration_counter,
            graph_view(final(self).temp_collision_indices) == graph_attach(
                graph_view(old(self).temp_collision_indices),
                (i + 1 + merged) as usize,
                handed_over(old(succ_indices)@, merged),
            ),
    {
        let j = i + 1 + merged;
        let ghost rest = graph_view(self.temp_collision_indices);
        let ghost pending = succ_indices@;
        let ghost mut floor: nat = 0;
        loop
            invariant
                self.params == old(self).params,
                self.iterators == old(self).iterators,
                self.integrator == old(self).integrator,
                self.integration_counter == old(self).integration_counter,
                j == i + 1 + merged,
                pending == old(succ_indices)@,
                rest == graph_view(old(self).temp_collision_indices),
                forall|o: usize| #[trigger] pending.contains(o) ==> merged < o < bound,
                forall|o: usize| succ_indices@.contains(o) <==> pending.contains(o) && floor <= o,
                floor <= bound,
                graph_view(self.temp_collision_indices) == graph_attach(
                    rest,
                    j,
                    Set::new(
                        |o: usize|
                            o + merged + 1 < floor && pending.contains((o + merged + 1) as usize),
                    ),
                ),
            decreases bound - floor,
        {
            let ghost graph_before = graph_view(self.temp_collision_indices);
            let ghost moved_before = Set::new(
                |o: usize| o + merged + 1 < floor && pending.contains((o + merged + 1) as usize),
            );
            let popped = pop_first_offset(succ_indices);
            match popped {
                Some(succ_i) => {
                    proof {
                        assert(pending.contains(succ_i));
                    }
                    let successor_index_for_j = succ_i - merged - 1;
                    self.add_to_temp_collision_indices(j, successor_index_for_j);
                    proof {
                        let next_floor = (succ_i + 1) as nat;
                        let moved = Set::new(
                            |o: usize|
                                o + merged + 1 < next_floor && pending.contains(
                                    (o + merged + 1) as usize,
                                ),
                        );
                        assert(moved =~= moved_before.insert(successor_index_for_j)) by {
                            assert forall|o: usize| moved.contains(o) <==> moved_before.insert(
                                successor_index_for_j,
                            ).contains(o) by {
                                if o + merged + 1 < next_floor && pending.contains(
                                    (o + merged + 1) as usize,
                                ) {
                                    if o + merged + 1 >= floor {
                                        assert(succ_indices@.contains((o + merged + 1) as usize)
                                            || o + merged + 1 == succ_i);
                                    }
                                }
                            }
                        }
                        assert(moved.contains(successor_index_for_j));
                        assert(!(moved =~= Set::<usize>::empty()));
                        if moved_before =~= Set::<usize>::empty() {
                            assert(graph_before == rest);
                            if rest.contains_key(j) {
                                assert(rest[j].insert(successor_index_for_j) =~= rest[j].union(
                                    moved,
                                ));
                            } else {
                                assert(Set::<usize>::empty().insert(successor_index_for_j)
                                    =~= moved);
                            }
                        } else {
                            if rest.contains_key(j) {
                                assert(rest[j].union(moved_before).insert(successor_index_for_j)
                                    =~= rest[j].union(moved));
                            } else {
                                assert(moved_before.insert(successor_index_for_j) =~= moved);
                            }
                        }
                        assert(graph_view(self.temp_collision_indices) =~= graph_attach(
                            rest,
                            j,
                            moved,
                        ));
                        floor = next_floor;
                    }
                },
                None => {
                    proof {
                        assert(moved_before =~= handed_over(pending, merged)) by {
                            assert forall|o: usize| moved_before.contains(o) <==> handed_over(
                                pending,
                                merged,
                            ).contains(o) by {
                                if o + merged + 1 <= usize::MAX && pending.contains(
                                    (o + merged + 1) as usize,
                                ) {
                                    assert(!succ_indices@.contains((o + merged + 1) as usize));
                                }
                            }
                        }
                    }
                    return ;
                },
            }
        }
    }

    /// Resolves the collisions recorded for particle `i`, which have been
    /// taken out of the graph as `succ_indices`.
    pub fn resolve_entry<F, R>(
        &mut self,
        particles: &mut [Option<Particle<V, F, R>>],
        i: usize,
        succ_indices: BTreeSet<usize>,
    ) where F: Force<Cause = Particle<V, F, R>, Params = S>
        requires
            i < old(particles)@.len(),
            !graph_view(old(self).temp_collision_indices).contains_key(i),
            forall|o: usize| #[trigger]
                succ_indices@.contains(o) ==> i + 1 + o < old(particles)@.len()
                    && old(particles)@[i + 1 + o] is Some,
        ensures
            final(self).params == old(self).params,
            final(self).iterators == old(self).iterators,
            final(self).integrator == old(self).integrator,
            final(self).integration_counter == old(self).integration_counter,
            final(particles)@.len() == old(particles)@.len(),
            (final(particles)@, graph_view(final(self).temp_collision_indices)) == resolve_key(
                old(particles)@,
                graph_view(old(self).temp_collision_indices).insert(i, succ_indices@),
                i as int,
                old(self).params,
            ),
            forall|k: int| 0 <= k < i ==> final(particles)@[k] == old(particles)@[k],
            final(particles)@[i as int] is Some ==> old(particles)@[i as int] is Some,
            forall|k: int|
                i < k < old(particles)@.len() ==> (#[trigger] final(particles)@[k] is Some
                    <==> old(particles)@[k] is Some),
            forall|key: usize, o: usize|
                graph_view(final(self).temp_collision_indices).contains_key(key) && #[trigger] graph_view(
                    final(self).temp_collision_indices,
                )[key].contains(o) ==> (graph_view(old(self).temp_collision_indices).contains_key(
                    key,
                ) && graph_view(old(self).temp_collision_indices)[key].contains(o)) || (i < key
                    && key + 1 + o < old(particles)@.len() && old(particles)@[key + 1 + o]
                    is Some),
            forall|key: usize| #[trigger]
                graph_view(final(self).temp_collision_indices).contains_key(key) ==> graph_view(
                    old(self).temp_collision_indices,
                ).contains_key(key) || (i < key < old(particles)@.len()),
    {
        let n = particles.len();
        let mut succ_indices = succ_indices;
        let ghost before = particles@;
        let ghost rest = graph_view(self.temp_collision_indices);
        let ghost offsets = succ_indices@;
        let ghost graph_before = rest.insert(i, offsets);
        proof {
            assert(graph_before.remove(i) =~= rest);
        }
        let (particle_i, succ_particles) = particles.split_at_mut(i + 1);
        let ghost head = particle_i@;
        let ghost tail = succ_particles@;
        proof {
            assert(head =~= before.subrange(0, i + 1));
            assert(tail =~= before.subrange(i + 1, n as int));
            assert forall|o: usize| #[trigger] offsets.contains(o) implies o < tail.len()
                && tail[o as int] is Some by {
                assert(before[i + 1 + o] == tail[o as int]);
            }
        }
        let last = particle_i.last_mut();
        match last {
            Some(slot) => {
                if slot.is_some() {
                    let merged_with_succ_i = self.handle_successor_collisions(
                        slot,
                        &mut succ_indices,
                        succ_particles,
                    );
                    match merged_with_succ_i {
                        Some(merged_succ_i_index) => {
                            proof {
                                assert forall|o: usize| #[trigger]
                                    succ_indices@.contains(o) implies merged_succ_i_index < o
                                    < tail.len() by {
                                    assert(offsets.contains(o));
                                }
                                assert(handed_over(succ_indices@, merged_succ_i_index)
                                    =~= handed_over(offsets, merged_succ_i_index));
                            }
                            self.reattach_successors(
                                i,
                                merged_succ_i_index,
                                &mut succ_indices,
                                n - i - 1,
                            );
                        },
                        None => {},
                    }
                }
            },
            None => {},
        }
        proof {
            let expected = resolve_key(before, graph_before, i as int, self.params);
            assert(particles@ =~= expected.0);
            assert(graph_view(self.temp_collision_indices) == expected.1);
            let after = particles@;
            let graph_after = graph_view(self.temp_collision_indices);
            assert forall|k: int| i < k < n implies (#[trigger] after[k] is Some <==> before[k]
                is Some) by {
                assert(before[k] == tail[k - i - 1]);
            }
            let m = expected_merge(before, graph_before, i as int, self.params);
            assert forall|key: usize, o: usize|
                graph_after.contains_key(key) && #[trigger] graph_after[key].contains(
                    o,
                ) implies (rest.contains_key(key) && rest[key].contains(o)) || (i < key && key + 1
                + o < n && before[key + 1 + o] is Some) by {
                if !(rest.contains_key(key) && rest[key].contains(o)) {
                    assert(m is Some);
                    let shifted = (o + m->Some_0 + 1) as usize;
                    assert(offsets.contains(shifted));
                    assert(before[i + 1 + shifted] is Some);
                }
            }
        }
    }

    /// Resolves every recorded collision, in ascending order of the
    /// particles for which they were recorded, and leaves the graph empty.
    /// Does nothing where collisions are not looked for.
    pub fn handle_collisions<F, R>(&mut self, particles: &mut [Option<Particle<V, F, R>>]) where
        F: Force<Cause = Particle<V, F, R>, Params = S>,

        requires
            old(self).params.spec_perform_collision_detection() ==> {
                &&& forall|key: usize| #[trigger]
                    graph_view(old(self).temp_collision_indices).contains_key(key) ==> key
                        < old(particles)@.len()
                &&& graph_fits(
                    graph_view(old(self).temp_collision_indices),
                    old(particles)@.len() as int,
                    |k: int| old(particles)@[k] is Some,
                )
            },
        ensures
            final(self).params == old(self).params,
            final(self).iterators == old(self).iterators,
            final(self).integrator == old(self).integrator,
            final(self).integration_counter == old(self).integration_counter,
            final(particles)@.len() == old(particles)@.len(),
            forall|k: int|
                0 <= k < old(particles)@.len() && old(particles)@[k] is None ==> final(particles)@[k] is None,
            old(self).params.spec_perform_collision_detection() ==> {
                &&& graph_view(final(self).temp_collision_indices) == Map::<
                    usize,
                    Set<usize>,
                >::empty()
                &&& (final(particles)@, graph_view(final(self).temp_collision_indices))
                    == resolve_scan(
                    old(particles)@,
                    graph_view(old(self).temp_collision_indices),
                    old(particles)@.len(),
                    old(self).params,
                )
            },
            !old(self).params.spec_perform_collision_detection() ==> {
                &&& final(particles)@ == old(particles)@
                &&& final(self).temp_collision_indices == old(self).temp_collision_indices
            },
    {
        if !self.params.perform_collision_detection() {
            return ;
        }
        let n = particles.len();
        let ghost start = old(particles)@;
        let ghost graph_start = graph_view(old(self).temp_collision_indices);
        let ghost mut done: nat = 0;
        loop
            invariant
                self.params == old(self).params,
                self.params.spec_perform_collision_detection(),
                self.iterators == old(self).iterators,
                self.integrator == old(self).integrator,
                self.integration_counter == old(self).integration_counter,
                start == old(particles)@,
                graph_start == graph_view(old(self).temp_collision_indices),
                n == particles@.len(),
                n == start.len(),
                done <= n,
                (particles@, graph_view(self.temp_collision_indices)) == resolve_scan(
                    start,
                    graph_start,
                    done,
                    self.params,
                ),
                forall|key: usize| #[trigger]
                    graph_view(self.temp_collision_indices).contains_key(key) ==> done <= key < n,
                graph_fits(
                    graph_view(self.temp_collision_indices),
                    n as int,
                    |k: int| particles@[k] is Some,
                ),
                forall|k: int| 0 <= k < n && start[k] is None ==> particles@[k] is None,
            decreases n - done,
        {
            let ghost before = particles@;
            let ghost graph_before = graph_view(self.temp_collision_indices);
            let popped = pop_first_entry(&mut self.temp_collision_indices);
            match popped {
                None => {
                    proof {
                        assert(graph_view(self.temp_collision_indices) =~= Map::<
                            usize,
                            Set<usize>,
                        >::empty());
                        lemma_resolve_skip(start, graph_start, done, n as nat, self.params);
                    }
                    return ;
                },
                Some((i, succ_indices)) => {
                    let ghost offsets = succ_indices@;
                    let ghost rest = graph_before.remove(i);
                    proof {
                        assert(graph_before.contains_key(i));
                        assert(offsets == graph_before[i]);
                        assert(graph_view(self.temp_collision_indices) =~= rest);
                        assert(rest.insert(i, offsets) =~= graph_before);
                        assert forall|k: usize| done <= k < i implies !graph_before.contains_key(
                            k,
                        ) by {
                            if graph_before.contains_key(k) {
                                assert(i <= k);
                            }
                        }
                        lemma_resolve_skip(start, graph_start, done, i as nat, self.params);
                        assert forall|o: usize| #[trigger] offsets.contains(o) implies i + 1 + o < n
                            && before[i + 1 + o] is Some by {
                            assert(graph_before[i].contains(o));
                        }
                    }
                    self.resolve_entry(particles, i, succ_indices);
                    proof {
                        let after = particles@;
                        let graph_after = graph_view(self.temp_collision_indices);
                        assert forall|key: usize| #[trigger]
                            graph_after.contains_key(key) implies i + 1 <= key < n by {
                            if rest.contains_key(key) {
                                assert(graph_before.contains_key(key));
                                assert(i <= key);
                            }
                        }
                        assert forall|key: usize, o: usize| #[trigger]
                            graph_after.contains_key(key) && #[trigger] graph_after[key].contains(
                                o,
                            ) implies key + 1 + o < n && after[key + 1 + o] is Some by {
                            if rest.contains_key(key) && rest[key].contains(o) {
                                assert(graph_before.contains_key(key) && graph_before[key].contains(
                                    o,
                                ));
                                assert(i <= key);
                                assert(before[key + 1 + o] is Some);
                            }
                            assert(after[key + 1 + o] is Some <==> before[key + 1 + o] is Some);
                        }
                        done = (i + 1) as nat;
                    }
                },
            }
        }
    }

    /// Visits every pair of particles once: zero forces are built up to the
    /// force on each particle, and the pairs that collide are recorded.
    pub fn calc_pairwise_forces_and_check_collisions<F, R>(
        &mut self,
        particles: &mut [Option<Particle<V, F, R>>],
    ) where F: Force<Cause = Particle<V, F, R>, Params = S, Distance = R>, R: Scalar
        ensures
            (final(particles)@, graph_view(final(self).temp_collision_indices)) == accumulate(
                old(particles)@,
                graph_view(old(self).temp_collision_indices),
                old(particles)@.len(),
                old(self).params,
            ),
            final(self).params == old(self).params,
            final(self).iterators == old(self).iterators,
            final(self).integrator == old(self).integrator,
            final(self).integration_counter == old(self).integration_counter,
            same_liveness(old(particles)@, final(particles)@),
            !old(self).params.spec_perform_collision_detection() ==> graph_view(
                final(self).temp_collision_indices,
            ) == graph_view(old(self).temp_collision_indices),
            forall|key: usize| #[trigger]
                graph_view(final(self).temp_collision_indices).contains_key(key) ==> graph_view(
                    old(self).temp_collision_indices,
                ).contains_key(key) || key < old(particles)@.len(),
            graph_fits(
                graph_view(old(self).temp_collision_indices),
                old(particles)@.len() as int,
                |k: int| old(particles)@[k] is Some,
            ) ==> graph_fits(
                graph_view(final(self).temp_collision_indices),
                final(particles)@.len() as int,
                |k: int| final(particles)@[k] is Some,
            ),
    {
        let n = particles.len();
        let mut i: usize = 0;
        while i < n
            invariant
                i <= n,
                n == particles@.len(),
                n == old(particles)@.len(),
                (particles@, graph_view(self.temp_collision_indices)) == accumulate(
                    old(particles)@,
                    graph_view(old(self).temp_collision_indices),
                    i as nat,
                    old(self).params,
                ),
                self.params == old(self).params,
                self.iterators == old(self).iterators,
                self.integrator == old(self).integrator,
                self.integration_counter == old(self).integration_counter,
                same_liveness(old(particles)@, particles@),
                !self.params.spec_perform_collision_detection() ==> graph_view(
                    self.temp_collision_indices,
                ) == graph_view(old(self).temp_collision_indices),
                forall|key: usize| #[trigger]
                    graph_view(self.temp_collision_indices).contains_key(key) ==> graph_view(
                        old(self).temp_collision_indices,
                    ).contains_key(key) || key < n,
                graph_fits(
                    graph_view(old(self).temp_collision_indices),
                    n as int,
                    |k: int| old(particles)@[k] is Some,
                ) ==> graph_fits(
                    graph_view(self.temp_collision_indices),
                    n as int,
                    |k: int| particles@[k] is Some,
                ),
            decreases n - i,
        {
            let ghost before = particles@;
            let ghost graph_before = graph_view(self.temp_collision_indices);
            let (particle_i, particles_j) = particles.split_at_mut(i + 1);
            let ghost head = particle_i@;
            let ghost tail = particles_j@;
            let last = particle_i.last_mut();
            match last {
                Some(slot) => {
                    match slot {
                        Some(p_i) => {
                            self.calc_pairwise_force_and_check_collision(i, p_i, particles_j);
                        },
                        None => {},
                    }
                },
                None => {},
            }
            proof {
                assert(head =~= before.subrange(0, i + 1));
                assert(tail =~= before.subrange(i + 1, n as int));
                let expected = row_step(before, graph_before, i as int, self.params);
                assert(particles@ =~= expected.0);
                assert(graph_view(self.temp_collision_indices) == expected.1);
                assert(same_liveness(old(particles)@, particles@)) by {
                    assert forall|k: int| 0 <= k < n implies (#[trigger] old(particles)@[k] is Some
                        <==> particles@[k] is Some) by {
                        assert(old(particles)@[k] is Some <==> before[k] is Some);
                        if k > i {
                            assert(before[k] == tail[k - i - 1]);
                        }
                    }
                }
                if graph_fits(
                    graph_view(old(self).temp_collision_indices),
                    n as int,
                    |k: int| old(particles)@[k] is Some,
                ) {
                    assert forall|key: usize, o: usize| #[trigger]
                        graph_view(self.temp_collision_indices).contains_key(key) && #[trigger] graph_view(
                            self.temp_collision_indices,
                        )[key].contains(o) implies key + 1 + o < n && particles@[key + 1 + o]
                        is Some by {
                        if graph_before.contains_key(key) && graph_before[key].contains(o) {
                            assert(before[key + 1 + o] is Some);
                        } else {
                            assert(key == i && o < tail.len() && tail[o as int] is Some);
                            assert(before[i + 1 + o] == tail[o as int]);
                        }
                        assert(old(particles)@[key + 1 + o] is Some <==> particles@[key + 1 + o]
                            is Some);
                        assert(old(particles)@[key + 1 + o] is Some <==> before[key + 1 + o] is Some);
                    }
                }
            }
            i = i + 1;
        }
    }
}

impl<V: ValidStateCheck, I, S> ParticleOdeSolver<V, I, S> {
    /// Lets every particle that has a buffer pull its next kinematic state.
    pub fn set_states_from_integration_results<F, R>(
        &mut self,
        states: &mut [Option<Particle<V, F, R>>],
    )
        ensures
            final(self).params == old(self).params,
            final(self).integrator == old(self).integrator,
            final(self).temp_collision_indices == old(self).temp_collision_indices,
            final(self).integration_counter == old(self).integration_counter,
            final(states)@.len() == old(states)@.len(),
            final(self).iterators@.len() == old(self).iterators@.len(),
            forall|k: int|
                0 <= k < old(states)@.len() && k < old(self).iterators@.len() ==> (
                    #[trigger] final(states)@[k],
                    final(self).iterators@[k]@,
                ) == pulled(old(states)@[k], old(self).iterators@[k]@),
            forall|k: int|
                old(self).iterators@.len() <= k < old(states)@.len() ==> final(states)@[k] == old(states)@[k],
            forall|k: int|
                old(states)@.len() <= k < old(self).iterators@.len() ==> final(self).iterators@[k]
                    == old(self).iterators@[k],
    {
        let n = if states.len() < self.iterators.len() {
            states.len()
        } else {
            self.iterators.len()
        };
        let mut k: usize = 0;
        while k < n
            invariant
                k <= n,
                n <= states@.len(),
                n <= self.iterators@.len(),
                self.params == old(self).params,
                self.integrator == old(self).integrator,
                self.temp_collision_indices == old(self).temp_collision_indices,
                self.integration_counter == old(self).integration_counter,
                states@.len() == old(states)@.len(),
                self.iterators@.len() == old(self).iterators@.len(),
                forall|j: int|
                    0 <= j < k ==> (#[trigger] states@[j], self.iterators@[j]@) == pulled(
                        old(states)@[j],
                        old(self).iterators@[j]@,
                    ),
                forall|j: int| k <= j < states@.len() ==> states@[j] == old(states)@[j],
                forall|j: int|
                    k <= j < self.iterators@.len() ==> self.iterators@[j] == old(self).iterators@[j],
            decreases n - k,
        {
            let mut dead = false;
            match &mut states[k] {
                Some(p_i) => {
                    let head = self.iterators[k].next();
                    match head {
                        Some(next_state) => {
                            if next_state.is_valid() {
                                p_i.state = next_state;
                            } else {
                                dead = true;
                            }
                        },
                        None => {},
                    }
                },
                None => {},
            }
            if dead {
                states[k] = None;
                self.iterators[k] = empty_into_iter();
            }
            k = k + 1;
        }
    }
}

impl<V, I, S> ParticleOdeSolver<V, I, S> {
    /// Takes over what a solver run from a particle's state handed back.
    pub fn absorb_run<P>(
        particle: &mut Option<P>,
        iter: &mut LookaheadBuffer<V>,
        outcome: Result<LookaheadBuffer<V>, IntegrationFailure>,
    )
        ensures
            (*final(particle), final(iter)@) == reseeded(
                *old(particle),
                old(iter)@,
                outcome_view(outcome),
            ),
    {
        if particle.is_none() {
            return ;
        }
        match outcome {
            Ok(new_iter) => {
                *iter = new_iter;
            },
            Err(_) => {
                *particle = None;
                *iter = empty_into_iter();
            },
        }
    }

    /// Runs the solver for every particle that has a buffer, from its
    /// current state, and replaces the buffer by the states of the run. A
    /// particle whose run fails dies.
    pub fn integrate<F, R>(&mut self, particles: &mut [Option<Particle<V, F, R>>]) where
        I: Integrator<Input = Particle<V, F, R>, Output = V>,

        ensures
            final(self).params == old(self).params,
            final(self).integrator == old(self).integrator,
            final(self).temp_collision_indices == old(self).temp_collision_indices,
            final(self).integration_counter == old(self).integration_counter,
            final(particles)@.len() == old(particles)@.len(),
            final(self).iterators@.len() == old(self).iterators@.len(),
            forall|k: int|
                0 <= k < old(particles)@.len() && k < old(self).iterators@.len()
                    ==> reseeded_by_a_run(
                    old(self).integrator,
                    old(particles)@[k],
                    old(self).iterators@[k]@,
                    #[trigger] final(particles)@[k],
                    final(self).iterators@[k]@,
                ),
            forall|k: int|
                old(self).iterators@.len() <= k < old(particles)@.len() ==> final(particles)@[k]
                    == old(particles)@[k],
            forall|k: int|
                old(particles)@.len() <= k < old(self).iterators@.len()
                    ==> final(self).iterators@[k] == old(self).iterators@[k],
    {
        let n = if particles.len() < self.iterators.len() {
            particles.len()
        } else {
            self.iterators.len()
        };
        let mut k: usize = 0;
        while k < n
            invariant
                k <= n,
                n <= particles@.len(),
                n <= self.iterators@.len(),
                self.params == old(self).params,
                self.integrator == old(self).integrator,
                self.temp_collision_indices == old(self).temp_collision_indices,
                self.integration_counter == old(self).integration_counter,
                particles@.len() == old(particles)@.len(),
                self.iterators@.len() == old(self).iterators@.len(),
                forall|j: int|
                    0 <= j < k ==> reseeded_by_a_run(
                        self.integrator,
                        old(particles)@[j],
                        old(self).iterators@[j]@,
                        #[trigger] particles@[j],
                        self.iterators@[j]@,
                    ),
                forall|j: int| k <= j < particles@.len() ==> particles@[j] == old(particles)@[j],
                forall|j: int|
                    k <= j < self.iterators@.len() ==> self.iterators@[j] == old(self).iterators@[j],
            decreases n - k,
        {
            let ghost outcome: Result<Seq<V>, IntegrationFailure>;
            match &particles[k] {
                Some(p) => {
                    let result = self.integrator.integrate(p);
                    proof {
                        outcome = outcome_view(result);
                    }
                    Self::absorb_run(&mut particles[k], &mut self.iterators[k], result);
                },
                None => {
                    proof {
                        outcome = Err(IntegrationFailure::StepSizeUnderflow);
                    }
                },
            }
            proof {
                assert(old(particles)@[k as int] is Some ==> self.integrator.may_return(
                    old(particles)@[k as int]->Some_0,
                    outcome,
                ));
                assert(reseeded(old(particles)@[k as int], old(self).iterators@[k as int]@, outcome)
                    == (particles@[k as int], self.iterators@[k as int]@));
            }
            k = k + 1;
        }
    }
}

impl<V, I, S> ParticleOdeSolver<V, I, S> where
    V: ValidStateCheck,
    S: IntegrationParams + CollisionParams,
 {
    /// One tick: the next cached state for every particle while the counter
    /// is below the length of the horizon, and a fresh computation of forces
    /// and collisions, followed by a solver run for every particle, when
    /// the counter has reached it.
    pub fn step<F, R>(&mut self, states: &mut [Option<Particle<V, F, R>>]) where
        F: Force<Cause = Particle<V, F, R>, Params = S, Distance = R>,
        I: Integrator<Input = Particle<V, F, R>, Output = V>,
        R: Scalar,

        ensures
            final(self).params == old(self).params,
            final(self).integrator == old(self).integrator,
            final(states)@.len() == old(states)@.len(),
            forall|k: int|
                0 <= k < old(states)@.len() && old(states)@[k] is None ==> final(states)@[k] is None,
            ticked(
                old(self).params,
                old(self).integrator,
                (
                    old(states)@,
                    buffers_view(old(self).iterators),
                    old(self).integration_counter,
                    graph_view(old(self).temp_collision_indices),
                ),
                (
                    final(states)@,
                    buffers_view(final(self).iterators),
                    final(self).integration_counter,
                    graph_view(final(self).temp_collision_indices),
                ),
            ),
            old(self).integration_counter >= old(self).params.spec_integration_steps()
                ==> graph_view(final(self).temp_collision_indices) == Map::<
                usize,
                Set<usize>,
            >::empty(),
    {
        if self.integration_counter < self.params.integration_steps() {
            self.integration_counter = self.integration_counter + 1;
            self.set_states_from_integration_results(states);
        } else {
            self.integration_counter = 0;
            self.temp_collision_indices.clear();
            proof {
                assert(graph_view(self.temp_collision_indices) =~= Map::<
                    usize,
                    Set<usize>,
                >::empty());
            }
            self.init_force_calculation(states);
            let ghost prepared = states@;
            self.calc_pairwise_forces_and_check_collisions(states);
            let ghost accumulated = states@;
            self.handle_collisions(states);
            let ghost resolved = states@;
            proof {
                assert(resolved == macro_resolved(old(states)@, self.params));
                assert(graph_view(self.temp_collision_indices) == Map::<
                    usize,
                    Set<usize>,
                >::empty());
                assert forall|k: int| 0 <= k < old(states)@.len() && old(states)@[k]
                    is None implies resolved[k] is None by {
                    assert(prepared[k] is None);
                    assert(prepared[k] is Some <==> accumulated[k] is Some);
                }
            }
            self.integrate(states);
        }
    }
}

impl<V, F, I, S, R> OdeSolverTrait for ParticleOdeSolver<V, I, S> where
    V: ValidStateCheck,
    F: Force<Cause = Particle<V, F, R>, Params = S, Distance = R>,
    I: Integrator<Input = Particle<V, F, R>, Output = V> + Default,
    S: IntegrationParams + CollisionParams,
    R: Scalar,
 {
    type State = Particle<V, F, R>;

    /// The ensemble is taken through `n` ticks, one after another, under
    /// the same parameters and with the same integrator. A collision graph
    /// that was empty before is empty after: no collision is carried from
    /// one force computation to the next.
    open spec fn advances(
        &self,
        states: Seq<Option<Particle<V, F, R>>>,
        after: Self,
        new_states: Seq<Option<Particle<V, F, R>>>,
        n: nat,
    ) -> bool {
        &&& after.params == self.params
        &&& after.integrator == self.integrator
        &&& executed(
            self.params,
            self.integrator,
            (
                states,
                buffers_view(self.iterators),
                self.integration_counter,
                graph_view(self.temp_collision_indices),
            ),
            (
                new_states,
                buffers_view(after.iterators),
                after.integration_counter,
                graph_view(after.temp_collision_indices),
            ),
            n,
        )
        &&& graph_view(self.temp_collision_indices) == Map::<usize, Set<usize>>::empty()
            ==> graph_view(after.temp_collision_indices) == Map::<usize, Set<usize>>::empty()
        &&& n == 0 ==> after == *self
    }

    /// The buffers of the named particles are emptied, and nothing else
    /// changes.
    open spec fn reinitialises(
        &self,
        states: Seq<Option<Particle<V, F, R>>>,
        new_indices: Seq<usize>,
        after: Self,
    ) -> bool {
        &&& after.params == self.params
        &&& after.integrator == self.integrator
        &&& after.temp_collision_indices == self.temp_collision_indices
        &&& after.integration_counter == self.integration_counter
        &&& emptied_at(self.iterators@, new_indices, after.iterators@)
    }

    /// Every particle gets an empty buffer, and the integrator is set to a
    /// fixed horizon of the configured number of steps; the particles, the
    /// parameters, the counter and the graph stay as they are.
    open spec fn seeds(
        &self,
        states: Seq<Option<Particle<V, F, R>>>,
        after: Self,
        new_states: Seq<Option<Particle<V, F, R>>>,
    ) -> bool {
        &&& new_states == states
        &&& exists|with_steps: I| #[trigger]
            self.integrator.steps_set(self.params.spec_integration_steps(), with_steps)
                && with_steps.randomness_set(false, after.integrator)
        &&& after.params == self.params
        &&& after.temp_collision_indices == self.temp_collision_indices
        &&& after.integration_counter == self.integration_counter
        &&& after.iterators@.len() == states.len()
        &&& forall|k: int|
            0 <= k < after.iterators@.len() ==> (#[trigger] after.iterators@[k])@ == Seq::<
                V,
            >::empty()
    }

    /// Advances the ensemble by `num_executions` ticks.
    fn execute(&mut self, states: &mut [Option<Particle<V, F, R>>], num_executions: usize) {
        let mut done: usize = 0;
        while done < num_executions
            invariant
                done <= num_executions,
                self.params == old(self).params,
                self.integrator == old(self).integrator,
                states@.len() == old(states)@.len(),
                forall|k: int|
                    0 <= k < old(states)@.len() && old(states)@[k] is None ==> states@[k] is None,
                executed(
                    old(self).params,
                    old(self).integrator,
                    (
                        old(states)@,
                        buffers_view(old(self).iterators),
                        old(self).integration_counter,
                        graph_view(old(self).temp_collision_indices),
                    ),
                    (
                        states@,
                        buffers_view(self.iterators),
                        self.integration_counter,
                        graph_view(self.temp_collision_indices),
                    ),
                    done as nat,
                ),
                graph_view(old(self).temp_collision_indices) == Map::<usize, Set<usize>>::empty()
                    ==> graph_view(self.temp_collision_indices) == Map::<
                    usize,
                    Set<usize>,
                >::empty(),
                done == 0 ==> *self == *old(self) && states@ == old(states)@,
            decreases num_executions - done,
        {
            let ghost between = (
                states@,
                buffers_view(self.iterators),
                self.integration_counter,
                graph_view(self.temp_collision_indices),
            );
            self.step(states);
            proof {
                assert(ticked(
                    old(self).params,
                    old(self).integrator,
                    between,
                    (
                        states@,
                        buffers_view(self.iterators),
                        self.integration_counter,
                        graph_view(self.temp_collision_indices),
                    ),
                ));
            }
            done = done + 1;
        }
    }

    /// Gives every particle an empty buffer and sets the integrator to a
    /// fixed horizon of the configured number of steps. The buffers are
    /// filled when forces are first computed.
    fn initial_states(&mut self, particles: &mut [Option<Particle<V, F, R>>]) {
        let n = particles.len();
        let mut iterators: Vec<LookaheadBuffer<V>> = Vec::new();
        let mut k: usize = 0;
        while k < n
            invariant
                k <= n,
                iterators@.len() == k,
                forall|j: int| 0 <= j < k ==> (#[trigger] iterators@[j])@ == Seq::<V>::empty(),
            decreases n - k,
        {
            iterators.push(empty_into_iter());
            k = k + 1;
        }
        self.iterators = iterators;
        self.integrator.set_steps(self.params.integration_steps());
        let ghost with_steps = self.integrator;
        self.integrator.set_randomness(false);
        proof {
            assert(old(self).integrator.steps_set(
                self.params.spec_integration_steps(),
                with_steps,
            ) && with_steps.randomness_set(false, self.integrator));
        }
    }

    /// Discards the cached states of the given particles, so that each
    /// keeps its new value until forces are next computed. An index without
    /// a buffer is passed over.
    fn reinit_states(
        &mut self,
        _particles: &mut [Option<Particle<V, F, R>>],
        new_indices: Vec<usize>,
    ) {
        empty_buffers_at(&mut self.iterators, &new_indices);
    }
}

} // verus!
