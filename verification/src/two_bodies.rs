//! An ensemble of two particles under the force law of charges and masses:
//! what one computation of the forces with its collision makes of it.
use vstd::prelude::*;
use crate::collision_graph::{graph_insert, handed_over};
use crate::coulomb::{small_scale, NewtonColoumb};
use crate::detection::touching;
use crate::laws::{
    equal_mass_share, equal_mass_share_taken, law_equal_masses_swap_normal_velocities,
};
use crate::newton::{CollisionParams, Force, NewtonParams, NewtonState};
use crate::particle::Particle;
use crate::scalar::Scalar;
use crate::solver::{
    accumulate, macro_resolved, reset_all, resolve_key, resolve_scan, row_step, successor_step,
    successors_scan, tail_scan, tail_step,
};

verus! {

/// Two particles after the force between them has been worked out afresh:
/// each carries the force that the other exerts on it, and both are marked
/// exactly where they collide.
pub open spec fn after_the_forces<A: Copy, V, Param>(
    p: Particle<V, NewtonColoumb<A, V, Param>, V::Number>,
    q: Particle<V, NewtonColoumb<A, V, Param>, V::Number>,
    params: Param,
) -> (
    Particle<V, NewtonColoumb<A, V, Param>, V::Number>,
    Particle<V, NewtonColoumb<A, V, Param>, V::Number>,
) where
    V: NewtonState<CartesianState = A>,
    V::Number: Scalar,
    Param: NewtonParams<Number = V::Number> + CollisionParams<Number = V::Number>,
 {
    let unmarked_p = Particle {
        has_collided: false,
        force: NewtonColoumb::<A, V, Param>::spec_zero(),
        ..p
    };
    let unmarked_q = Particle {
        has_collided: false,
        force: NewtonColoumb::<A, V, Param>::spec_zero(),
        ..q
    };
    let met = NewtonColoumb::<A, V, Param>::spec_pairwise(unmarked_p, unmarked_q, params);
    let hit = touching(p, q, params);
    (Particle { has_collided: hit, ..met.0 }, Particle { has_collided: hit, ..met.1 })
}

/// The ensemble of the particles `p` and `q`, in this order.
pub open spec fn ensemble_of_two<P>(p: P, q: P) -> Seq<Option<P>> {
    seq![Some(p), Some(q)]
}

/// An ensemble of two after one computation of the forces: where the two
/// do not collide, both are left with the force between them; where they
/// do, the second particle collides with the first, in the part of the
/// first particle of the collision, and the first slot holds what the
/// collision leaves of the first particle.
pub proof fn law_an_ensemble_of_two<A: Copy, V, Param>(
    p: Particle<V, NewtonColoumb<A, V, Param>, V::Number>,
    q: Particle<V, NewtonColoumb<A, V, Param>, V::Number>,
    params: Param,
) where
    V: NewtonState<CartesianState = A>,
    V::Number: Scalar,
    Param: NewtonParams<Number = V::Number> + CollisionParams<Number = V::Number>,

    ensures
        ({
            let met = after_the_forces(p, q, params);
            let collided = NewtonColoumb::<A, V, Param>::spec_collision(met.1, met.0, params);
            macro_resolved(ensemble_of_two(p, q), params) == if touching(p, q, params) {
                seq![collided.1, Some(collided.0)]
            } else {
                ensemble_of_two(met.0, met.1)
            }
        }),
{
    let slots = ensemble_of_two(p, q);
    let start = reset_all(slots, params);
    let met = after_the_forces(p, q, params);
    let hit = touching(p, q, params);
    let empty = Map::<usize, Set<usize>>::empty();
    assert(start =~= seq![Some(start[0]->Some_0), Some(start[1]->Some_0)]);
    // The first row: the first particle meets the second.
    let tail = start.subrange(1, 2);
    assert(tail =~= seq![start[1]]);
    let scanned = tail_scan(start[0]->Some_0, tail, empty, 0, 1, params);
    assert(scanned == tail_step(start[0]->Some_0, tail, empty, 0, 0, params)) by {
        reveal_with_fuel(tail_scan, 2);
    }
    assert(scanned.0 == met.0);
    assert(scanned.1 =~= seq![Some(met.1)]);
    let first = row_step(start, empty, 0, params);
    assert(first.0 =~= ensemble_of_two(met.0, met.1));
    // The second row: nothing is behind the second particle.
    let last_tail = first.0.subrange(2, 2);
    assert(tail_scan(met.1, last_tail, first.1, 1, 0, params) == (met.1, last_tail, first.1));
    let second = row_step(first.0, first.1, 1, params);
    assert(second.0 =~= first.0);
    assert(second.1 == first.1);
    assert(accumulate(start, empty, 2, params) == second) by {
        reveal_with_fuel(accumulate, 3);
    }
    if params.spec_perform_collision_detection() {
        let graph = second.1;
        if hit {
            assert(graph == graph_insert(empty, 0, 0));
            let offsets = graph[0];
            assert(offsets =~= set![0usize]);
            let behind = second.0.subrange(1, 2);
            assert(behind =~= seq![Some(met.1)]);
            let collided = NewtonColoumb::<A, V, Param>::spec_collision(met.1, met.0, params);
            let pending = successors_scan(Some(met.0), behind, offsets, 1, params);
            assert(pending == successor_step(Some(met.0), behind, None, offsets, 0, params)) by {
                reveal_with_fuel(successors_scan, 2);
            }
            assert(pending.0 == collided.1);
            assert(pending.1 =~= seq![Some(collided.0)]);
            assert(handed_over(offsets, 0) =~= Set::empty());
            let one = resolve_key(second.0, graph, 0, params);
            assert(one.0 =~= seq![collided.1, Some(collided.0)]);
            assert(one.1 =~= empty);
            let two = resolve_key(one.0, one.1, 1, params);
            assert(two == one);
            assert(resolve_scan(second.0, graph, 2, params) == two) by {
                reveal_with_fuel(resolve_scan, 3);
            }
        } else {
            assert(graph == empty);
            let one = resolve_key(second.0, graph, 0, params);
            let two = resolve_key(one.0, one.1, 1, params);
            assert(two == second);
            assert(resolve_scan(second.0, graph, 2, params) == two) by {
                reveal_with_fuel(resolve_scan, 3);
            }
        }
    }
}

/// Mass is conserved where two particles become one: an ensemble of two
/// particles that collide and whose parities make them merge is left with
/// the second particle alone, marked, which carries the sums of the masses,
/// of the parities and of the charges of both, the radius of the summed
/// mass, and the sum of the forces on both.
pub proof fn law_two_particles_become_one<A: Copy, V, Param>(
    p: Particle<V, NewtonColoumb<A, V, Param>, V::Number>,
    q: Particle<V, NewtonColoumb<A, V, Param>, V::Number>,
    params: Param,
) where
    V: NewtonState<CartesianState = A>,
    V::Number: Scalar,
    Param: NewtonParams<Number = V::Number> + CollisionParams<Number = V::Number>,

    requires
        touching(p, q, params),
        <V::Number as Scalar>::spec_zero().spec_lt(
            small_scale(params.spec_collision_factor(), q.short, p.short),
        ),
    ensures
        ({
            let after = macro_resolved(ensemble_of_two(p, q), params);
            let met = after_the_forces(p, q, params);
            &&& after.len() == 2
            &&& after[0] is None
            &&& after[1] == Some(NewtonColoumb::<A, V, Param>::merged(met.1, met.0))
            &&& after[1]->Some_0.mass == q.mass.spec_plus(p.mass)
            &&& after[1]->Some_0.short == q.short.spec_plus(p.short)
            &&& after[1]->Some_0.mid == q.mid.spec_plus(p.mid)
            &&& after[1]->Some_0.radius == q.mass.spec_plus(p.mass).spec_sqrt()
            &&& after[1]->Some_0.force.state == V::spec_sum(met.1.force.state, met.0.force.state)
            &&& after[1]->Some_0.has_collided
        }),
{
    law_an_ensemble_of_two(p, q, params);
}

/// The exchange of two particles of the same mass: an ensemble of two
/// particles of the same mass that collide, not at the very same place,
/// and bounce with a collision scalar of magnitude one keeps both, marked
/// and with their masses and positions, and they swap the parts of their
/// velocities along the line between them.
/// With `n` the unit vector from the second to the first and `c` the speed
/// at which they approach along it, the second loses `c` times `n` and the
/// first gains it. This holds wherever the share of the impulse computes
/// without rounding, that is, comes out as `c`.
pub proof fn law_two_equal_particles_swap<A: Copy, V, Param>(
    p: Particle<V, NewtonColoumb<A, V, Param>, V::Number>,
    q: Particle<V, NewtonColoumb<A, V, Param>, V::Number>,
    params: Param,
) where
    V: NewtonState<CartesianState = A>,
    V::Number: Scalar,
    Param: NewtonParams<Number = V::Number> + CollisionParams<Number = V::Number>,

    requires
        touching(p, q, params),
        p.mass == q.mass,
        small_scale(params.spec_collision_factor(), q.short, p.short).spec_lt(
            <V::Number as Scalar>::spec_zero(),
        ),
        !<V::Number as Scalar>::spec_zero().spec_lt(
            small_scale(params.spec_collision_factor(), q.short, p.short),
        ),
        small_scale(params.spec_collision_factor(), q.short, p.short).spec_abs()
            == <V::Number as Scalar>::spec_one(),
        !V::spec_norm(NewtonColoumb::<A, V, Param>::separation(q, p)).spec_equals(
            <V::Number as Scalar>::spec_zero(),
        ),
        ({
            let delta = NewtonColoumb::<A, V, Param>::separation(q, p);
            let n = V::spec_scaled(
                delta,
                <V::Number as Scalar>::spec_one().spec_over(V::spec_norm(delta)),
            );
            let c = V::spec_dot(
                n,
                V::spec_difference(q.state.spec_velocity(), p.state.spec_velocity()),
            );
            &&& equal_mass_share(q.mass, c) == c
            &&& equal_mass_share_taken(q.mass, c) == c.spec_neg()
        }),
    ensures
        ({
            let after = macro_resolved(ensemble_of_two(p, q), params);
            let delta = NewtonColoumb::<A, V, Param>::separation(q, p);
            let n = V::spec_scaled(
                delta,
                <V::Number as Scalar>::spec_one().spec_over(V::spec_norm(delta)),
            );
            let c = V::spec_dot(
                n,
                V::spec_difference(q.state.spec_velocity(), p.state.spec_velocity()),
            );
            &&& after.len() == 2
            &&& after[0] is Some
            &&& after[1] is Some
            &&& after[0]->Some_0.has_collided
            &&& after[1]->Some_0.has_collided
            &&& after[0]->Some_0.mass == p.mass
            &&& after[1]->Some_0.mass == q.mass
            &&& after[1]->Some_0.state == q.state.spec_with_velocity(
                V::spec_sum(V::spec_scaled(n, c.spec_neg()), q.state.spec_velocity()),
            )
            &&& after[0]->Some_0.state == p.state.spec_with_velocity(
                V::spec_sum(V::spec_scaled(n, c), p.state.spec_velocity()),
            )
        }),
{
    law_an_ensemble_of_two(p, q, params);
    let met = after_the_forces(p, q, params);
    let s = small_scale(params.spec_collision_factor(), q.short, p.short);
    law_equal_masses_swap_normal_velocities::<A, V, Param>(met.1, met.0, s);
}

} // verus!
