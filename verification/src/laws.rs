//! Laws of the engine that relate several of its parts.
use vstd::prelude::*;
use crate::chaos_data::{empty_slots, live_samples};
use crate::coulomb::{small_scale, NewtonColoumb};
use crate::discrete::DiscreteMap;
use crate::exec::stepped;
use crate::integrator::{advanced, run, run_allowed, IntegrationFailure, Integrator};
use crate::newton::{CollisionParams, Force, IntegrationParams, NewtonParams, NewtonState};
use crate::particle::Particle;
use crate::scalar::Scalar;
use crate::solver::{
    accumulate, executed, macro_resolved, reseeded, row_step, same_liveness, tail_scan, tail_step,
    ticked,
};
use crate::states::ValidStateCheck;

verus! {

/// Newton's third law for one pair: the force of the pair is one vector,
/// added to the force on the first particle and taken from the force on the
/// second. Nothing else of the two particles changes, and their distance is
/// the length of the vector between their positions.
pub proof fn law_pairwise_forces_are_opposite<A: Copy, V, Param>(
    p_i: Particle<V, NewtonColoumb<A, V, Param>, V::Number>,
    p_j: Particle<V, NewtonColoumb<A, V, Param>, V::Number>,
    params: Param,
) where
    V: NewtonState<CartesianState = A>,
    V::Number: Scalar,
    Param: NewtonParams<Number = V::Number> + CollisionParams<Number = V::Number>,

    ensures
        ({
            let after = NewtonColoumb::<A, V, Param>::spec_pairwise(p_i, p_j, params);
            let f = NewtonColoumb::<A, V, Param>::force_between(p_i, p_j, params);
            &&& after.0.force.state == V::spec_sum(p_i.force.state, f)
            &&& after.1.force.state == V::spec_difference(p_j.force.state, f)
            &&& after.0 == (Particle { force: after.0.force, ..p_i })
            &&& after.1 == (Particle { force: after.1.force, ..p_j })
            &&& after.2 == V::spec_norm(NewtonColoumb::<A, V, Param>::separation(p_i, p_j))
        }),
{
}

/// A pass over all pairs neither creates nor destroys a particle: the array
/// keeps its length, and the same slots are occupied before and after.
pub proof fn law_accumulation_keeps_the_particles<V, F, R, S>(
    slots: Seq<Option<Particle<V, F, R>>>,
    graph: Map<usize, Set<usize>>,
    rows: nat,
    params: S,
) where
    F: Force<Cause = Particle<V, F, R>, Params = S, Distance = R>,
    S: CollisionParams,
    R: Scalar,

    requires
        rows <= slots.len(),
    ensures
        same_liveness(slots, accumulate(slots, graph, rows, params).0),
    decreases rows,
{
    if rows > 0 {
        let i = rows - 1;
        law_accumulation_keeps_the_particles(slots, graph, i as nat, params);
        let before = accumulate(slots, graph, i as nat, params);
        let after = row_step(before.0, before.1, i, params);
        if before.0[i] is Some {
            let tail = before.0.subrange(i + 1, before.0.len() as int);
            lemma_tail_scan_keeps_the_particles(
                before.0[i]->Some_0,
                tail,
                before.1,
                i as usize,
                tail.len(),
                params,
            );
            let scanned = tail_scan(
                before.0[i]->Some_0,
                tail,
                before.1,
                i as usize,
                tail.len(),
                params,
            );
            assert forall|k: int| 0 <= k < slots.len() implies (#[trigger] slots[k] is Some
                <==> after.0[k] is Some) by {
                assert(slots[k] is Some <==> before.0[k] is Some);
                if k > i {
                    assert(before.0[k] == tail[k - i - 1]);
                    assert(after.0[k] == scanned.1[k - i - 1]);
                }
            }
        }
    }
}

/// A particle that meets its successors neither creates nor destroys one of
/// them.
pub proof fn lemma_tail_scan_keeps_the_particles<V, F, R, S>(
    p_i: Particle<V, F, R>,
    tail: Seq<Option<Particle<V, F, R>>>,
    graph: Map<usize, Set<usize>>,
    i: usize,
    k: nat,
    params: S,
) where
    F: Force<Cause = Particle<V, F, R>, Params = S, Distance = R>,
    S: CollisionParams,
    R: Scalar,

    requires
        k <= tail.len(),
    ensures
        same_liveness(tail, tail_scan(p_i, tail, graph, i, k, params).1),
    decreases k,
{
    if k > 0 {
        lemma_tail_scan_keeps_the_particles(p_i, tail, graph, i, (k - 1) as nat, params);
        let before = tail_scan(p_i, tail, graph, i, (k - 1) as nat, params);
        let after = tail_step(before.0, before.1, before.2, i, k - 1, params);
        assert forall|j: int| 0 <= j < tail.len() implies (#[trigger] tail[j] is Some
            <==> after.1[j] is Some) by {
            assert(tail[j] is Some <==> before.1[j] is Some);
        }
    }
}

/// An inelastic merge conserves mass: where the parities of two particles
/// make them merge, the first particle of the collision is all that
/// remains, and its mass is the sum of the masses of the two.
pub proof fn law_merge_conserves_mass<A: Copy, V, Param>(
    p_i: Particle<V, NewtonColoumb<A, V, Param>, V::Number>,
    p_j: Particle<V, NewtonColoumb<A, V, Param>, V::Number>,
    params: Param,
) where
    V: NewtonState<CartesianState = A>,
    V::Number: Scalar,
    Param: NewtonParams<Number = V::Number> + CollisionParams<Number = V::Number>,

    requires
        <V::Number as Scalar>::spec_zero().spec_lt(
            small_scale(params.spec_collision_factor(), p_i.short, p_j.short),
        ),
    ensures
        NewtonColoumb::<A, V, Param>::spec_collision(p_i, p_j, params).1 is None,
        NewtonColoumb::<A, V, Param>::spec_collision(p_i, p_j, params).0.mass == p_i.mass.spec_plus(
            p_j.mass,
        ),
        NewtonColoumb::<A, V, Param>::spec_collision(p_i, p_j, params).0.radius
            == p_i.mass.spec_plus(p_j.mass).spec_sqrt(),
{
}

/// An elastic collision, and a collision of particles of which one has no
/// parity, keeps both particles and their masses.
pub proof fn law_other_collisions_keep_both_particles<A: Copy, V, Param>(
    p_i: Particle<V, NewtonColoumb<A, V, Param>, V::Number>,
    p_j: Particle<V, NewtonColoumb<A, V, Param>, V::Number>,
    params: Param,
) where
    V: NewtonState<CartesianState = A>,
    V::Number: Scalar,
    Param: NewtonParams<Number = V::Number> + CollisionParams<Number = V::Number>,

    requires
        !<V::Number as Scalar>::spec_zero().spec_lt(
            small_scale(params.spec_collision_factor(), p_i.short, p_j.short),
        ),
    ensures
        NewtonColoumb::<A, V, Param>::spec_collision(p_i, p_j, params).1 is Some,
        NewtonColoumb::<A, V, Param>::spec_collision(p_i, p_j, params).0.mass == p_i.mass,
        NewtonColoumb::<A, V, Param>::spec_collision(p_i, p_j, params).1->Some_0.mass == p_j.mass,
{
}

/// An elastic collision exchanges one impulse along the line between the
/// two particles: the velocity of the first changes by the unit vector from
/// the first to the second times the impulse taken from it, over its mass,
/// and the velocity of the second by the same unit vector times the same
/// impulse given to it, over its mass. Nothing else of the two particles
/// changes, and particles at the very same place are left as they are.
pub proof fn law_bounce_exchanges_one_impulse<A: Copy, V, Param>(
    p_i: Particle<V, NewtonColoumb<A, V, Param>, V::Number>,
    p_j: Particle<V, NewtonColoumb<A, V, Param>, V::Number>,
    s: V::Number,
) where
    V: NewtonState<CartesianState = A>,
    V::Number: Scalar,
    Param: NewtonParams<Number = V::Number> + CollisionParams<Number = V::Number>,

    ensures
        ({
            let after = NewtonColoumb::<A, V, Param>::bounced(p_i, p_j, s);
            let delta = NewtonColoumb::<A, V, Param>::separation(p_i, p_j);
            let distance = V::spec_norm(delta);
            let n = V::spec_scaled(delta, <V::Number as Scalar>::spec_one().spec_over(distance));
            let impulse = NewtonColoumb::<A, V, Param>::impulse(p_i, p_j, n, s);
            &&& after.0 == (Particle { state: after.0.state, ..p_i })
            &&& after.1 == (Particle { state: after.1.state, ..p_j })
            &&& distance.spec_equals(<V::Number as Scalar>::spec_zero()) ==> after == (p_i, p_j)
            &&& !distance.spec_equals(<V::Number as Scalar>::spec_zero()) ==> {
                &&& after.0.state == p_i.state.spec_with_velocity(
                    V::spec_sum(
                        V::spec_scaled(n, impulse.spec_neg().spec_over(p_i.mass)),
                        p_i.state.spec_velocity(),
                    ),
                )
                &&& after.1.state == p_j.state.spec_with_velocity(
                    V::spec_sum(
                        V::spec_scaled(n, impulse.spec_over(p_j.mass)),
                        p_j.state.spec_velocity(),
                    ),
                )
            }
        }),
{
}

/// Zero ticks of the batched integrator leave a sample and its buffer as
/// they are.
pub proof fn law_zero_ticks_of_the_integrator<
    V: ValidStateCheck,
    T: Integrator<Input = V, Output = V>,
>(system: T, state: Option<V>, buffer: Seq<V>, new_state: Option<V>, new_buffer: Seq<V>)
    requires
        advanced(system, state, buffer, new_state, new_buffer, 0),
    ensures
        new_state == state,
        new_buffer == buffer,
{
    let outcomes = choose|outcomes: Seq<Result<Seq<V>, IntegrationFailure>>|
        outcomes.len() == 0 && run_allowed(system, state, buffer, outcomes, 0) && #[trigger] run(
            state,
            buffer,
            outcomes,
            0,
        ) == (new_state, new_buffer);
    assert(run(state, buffer, outcomes, 0) == (state, buffer));
}

/// The share of an impulse that falls to one of two particles of the same
/// mass `m`, where the impulse is worked out for the speed `c` at which they
/// approach and for a collision scalar of magnitude one: twice the
/// effective mass, times `c`, over `m`.
pub open spec fn equal_mass_share<R: Scalar>(m: R, c: R) -> R {
    let one = R::spec_one();
    let m_eff = one.spec_over(one.spec_over(m).spec_plus(one.spec_over(m)));
    one.spec_plus(one).spec_times(m_eff).spec_times(c).spec_over(m)
}

/// The same share with the impulse taken rather than given.
pub open spec fn equal_mass_share_taken<R: Scalar>(m: R, c: R) -> R {
    let one = R::spec_one();
    let m_eff = one.spec_over(one.spec_over(m).spec_plus(one.spec_over(m)));
    one.spec_plus(one).spec_times(m_eff).spec_times(c).spec_neg().spec_over(m)
}

/// The equal-mass elastic exchange: two particles of the same mass that
/// collide elastically with a collision scalar of magnitude one swap the
/// parts of their velocities along the line between them. With `n` the unit
/// vector from the first to the second and `c` the speed at which they
/// approach along it, the first loses `c` times `n` and the second gains
/// it. This holds wherever the share of the impulse computes without
/// rounding, that is, comes out as `c`.
pub proof fn law_equal_masses_swap_normal_velocities<A: Copy, V, Param>(
    p_i: Particle<V, NewtonColoumb<A, V, Param>, V::Number>,
    p_j: Particle<V, NewtonColoumb<A, V, Param>, V::Number>,
    s: V::Number,
) where
    V: NewtonState<CartesianState = A>,
    V::Number: Scalar,
    Param: NewtonParams<Number = V::Number> + CollisionParams<Number = V::Number>,

    requires
        p_i.mass == p_j.mass,
        s.spec_abs() == <V::Number as Scalar>::spec_one(),
        !V::spec_norm(NewtonColoumb::<A, V, Param>::separation(p_i, p_j)).spec_equals(
            <V::Number as Scalar>::spec_zero(),
        ),
        ({
            let delta = NewtonColoumb::<A, V, Param>::separation(p_i, p_j);
            let n = V::spec_scaled(
                delta,
                <V::Number as Scalar>::spec_one().spec_over(V::spec_norm(delta)),
            );
            let c = V::spec_dot(
                n,
                V::spec_difference(p_i.state.spec_velocity(), p_j.state.spec_velocity()),
            );
            &&& equal_mass_share(p_i.mass, c) == c
            &&& equal_mass_share_taken(p_i.mass, c) == c.spec_neg()
        }),
    ensures
        ({
            let after = NewtonColoumb::<A, V, Param>::bounced(p_i, p_j, s);
            let delta = NewtonColoumb::<A, V, Param>::separation(p_i, p_j);
            let n = V::spec_scaled(
                delta,
                <V::Number as Scalar>::spec_one().spec_over(V::spec_norm(delta)),
            );
            let c = V::spec_dot(
                n,
                V::spec_difference(p_i.state.spec_velocity(), p_j.state.spec_velocity()),
            );
            &&& after.0.state == p_i.state.spec_with_velocity(
                V::spec_sum(V::spec_scaled(n, c.spec_neg()), p_i.state.spec_velocity()),
            )
            &&& after.1.state == p_j.state.spec_with_velocity(
                V::spec_sum(V::spec_scaled(n, c), p_j.state.spec_velocity()),
            )
        }),
{
}

/// No sample comes back to life: a sample that has died within the first
/// `m` ticks, be it of a failed solver run or of a state that is not valid,
/// is dead after any later tick, whatever a solver would return for it, and
/// its buffer stays empty or as it was.
pub proof fn law_a_dead_sample_stays_dead<V: ValidStateCheck>(
    state: Option<V>,
    buffer: Seq<V>,
    outcomes: Seq<Result<Seq<V>, IntegrationFailure>>,
    m: nat,
    n: nat,
)
    requires
        m <= n,
        run(state, buffer, outcomes, m).0 is None,
    ensures
        run(state, buffer, outcomes, n) == run(state, buffer, outcomes, m),
    decreases n,
{
    if n > m {
        law_a_dead_sample_stays_dead(state, buffer, outcomes, m, (n - 1) as nat);
    }
}

/// Zero ticks of a discrete map leave a sample as it is.
pub proof fn law_zero_ticks_of_a_map<V: ValidStateCheck, D: DiscreteMap<State = V>>(
    map: D,
    slot: Option<V>,
    t0: D::Time,
) where D::Time: Scalar
    ensures
        stepped(map, slot, t0, 0) == slot,
{
}

/// Zero ticks of the particle solver leave particles, buffers, counter and
/// collision graph as they are.
pub proof fn law_zero_ticks_of_the_particle_solver<V, F, R, S, I>(
    params: S,
    integrator: I,
    before: (Seq<Option<Particle<V, F, R>>>, Seq<Seq<V>>, usize, Map<usize, Set<usize>>),
    after: (Seq<Option<Particle<V, F, R>>>, Seq<Seq<V>>, usize, Map<usize, Set<usize>>),
) where
    V: ValidStateCheck,
    F: Force<Cause = Particle<V, F, R>, Params = S, Distance = R>,
    S: CollisionParams + IntegrationParams,
    R: Scalar,
    I: Integrator<Input = Particle<V, F, R>, Output = V>,

    requires
        executed(params, integrator, before, after, 0),
    ensures
        after == before,
{
}

/// No collision is carried from one force computation to the next: a
/// collision graph that is empty before any number of ticks of the
/// particle solver is empty after them, whatever pairs the force
/// computations on the way record.
pub proof fn law_no_collision_is_carried_over<V, F, R, S, I>(
    params: S,
    integrator: I,
    before: (Seq<Option<Particle<V, F, R>>>, Seq<Seq<V>>, usize, Map<usize, Set<usize>>),
    after: (Seq<Option<Particle<V, F, R>>>, Seq<Seq<V>>, usize, Map<usize, Set<usize>>),
    n: nat,
) where
    V: ValidStateCheck,
    F: Force<Cause = Particle<V, F, R>, Params = S, Distance = R>,
    S: CollisionParams + IntegrationParams,
    R: Scalar,
    I: Integrator<Input = Particle<V, F, R>, Output = V>,

    requires
        executed(params, integrator, before, after, n),
        before.3 == Map::<usize, Set<usize>>::empty(),
    ensures
        after.3 == Map::<usize, Set<usize>>::empty(),
    decreases n,
{
    if n > 0 {
        let between = choose|
            between: (Seq<Option<Particle<V, F, R>>>, Seq<Seq<V>>, usize, Map<usize, Set<usize>>),
        |
            executed(params, integrator, before, between, (n - 1) as nat) && #[trigger] ticked(
                params,
                integrator,
                between,
                after,
            );
        law_no_collision_is_carried_over(params, integrator, before, between, (n - 1) as nat);
    }
}

/// A tick on which the forces are computed afresh leaves every particle as
/// the forces and the collisions made it, or dead: the solver run that
/// follows changes no particle, and a particle dies of it only where it has
/// a buffer and its run fails. So where every particle outlives the tick,
/// the particles after it are those that the forces and the collisions
/// made.
pub proof fn law_a_force_computation_keeps_or_kills<V, F, R, S, I>(
    params: S,
    integrator: I,
    before: (Seq<Option<Particle<V, F, R>>>, Seq<Seq<V>>, usize, Map<usize, Set<usize>>),
    after: (Seq<Option<Particle<V, F, R>>>, Seq<Seq<V>>, usize, Map<usize, Set<usize>>),
) where
    V: ValidStateCheck,
    F: Force<Cause = Particle<V, F, R>, Params = S, Distance = R>,
    S: CollisionParams + IntegrationParams,
    R: Scalar,
    I: Integrator<Input = Particle<V, F, R>, Output = V>,

    requires
        ticked(params, integrator, before, after),
        before.2 >= params.spec_integration_steps(),
    ensures
        after.0.len() == before.0.len(),
        after.2 == 0,
        forall|k: int|
            0 <= k < before.0.len() ==> #[trigger] after.0[k] == macro_resolved(before.0, params)[k]
                || (after.0[k] is None && k < before.1.len()),
{
    let resolved = macro_resolved(before.0, params);
    assert forall|k: int| 0 <= k < before.0.len() implies #[trigger] after.0[k] == resolved[k] || (
    after.0[k] is None && k < before.1.len()) by {
        if k < before.1.len() {
            let outcome = choose|outcome: Result<Seq<V>, IntegrationFailure>|
                (resolved[k] is Some ==> integrator.may_return(resolved[k]->Some_0, outcome))
                    && #[trigger] reseeded(resolved[k], before.1[k], outcome) == (
                    after.0[k],
                    after.1[k],
                );
            assert(reseeded(resolved[k], before.1[k], outcome) == (after.0[k], after.1[k]));
        }
    }
}

/// Every slot of an ensemble is either live or empty: the number of samples
/// that a reinitialisation creates, one per empty slot, and the number of
/// live samples add up to the number of slots.
pub proof fn law_slots_are_live_or_empty<V>(slots: Seq<Option<V>>)
    ensures
        empty_slots(slots).len() + live_samples(slots).len() == slots.len(),
    decreases slots.len(),
{
    if slots.len() > 0 {
        law_slots_are_live_or_empty(slots.drop_last());
    }
}

} // verus!
