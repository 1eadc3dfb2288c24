//! The balance of forces: computed without rounding, the forces of all
//! particles add up to nothing.
use vstd::prelude::*;
use crate::coulomb::NewtonColoumb;
use crate::integrator::Integrator;
use crate::laws::law_a_force_computation_keeps_or_kills;
use crate::newton::{CollisionParams, Force, IntegrationParams, NewtonParams, NewtonState};
use crate::particle::Particle;
use crate::scalar::Scalar;
use crate::solver::{
    accumulate, macro_resolved, reset_all, reset_slot, resolve_key, resolve_scan, row_step,
    successor_step, successors_scan, tail_scan, tail_step, ticked,
};
use crate::states::ValidStateCheck;

verus! {

/// Whether the sums of Cartesian vectors are exact: the order and the
/// grouping of the summands do not matter, adding nothing changes nothing,
/// and what is added to one summand and taken from another leaves the sum
/// as it was. Arithmetic that rounds does not have these properties.
#[verifier::opaque]
pub open spec fn sums_are_exact<V: NewtonState>() -> bool {
    &&& forall|a: V::CartesianState, b: V::CartesianState| #[trigger]
        V::spec_sum(a, b) == V::spec_sum(b, a)
    &&& forall|a: V::CartesianState, b: V::CartesianState, c: V::CartesianState| #[trigger]
        V::spec_sum(V::spec_sum(a, b), c) == V::spec_sum(a, V::spec_sum(b, c))
    &&& forall|a: V::CartesianState| #[trigger]
        V::spec_sum(a, V::spec_cartesian_zero()) == a
    &&& forall|a: V::CartesianState, b: V::CartesianState, f: V::CartesianState| #[trigger]
        V::spec_sum(V::spec_sum(a, f), V::spec_difference(b, f)) == V::spec_sum(a, b)
}

proof fn lemma_commute<V: NewtonState>(a: V::CartesianState, b: V::CartesianState)
    requires
        sums_are_exact::<V>(),
    ensures
        V::spec_sum(a, b) == V::spec_sum(b, a),
{
    reveal(sums_are_exact);
}

proof fn lemma_regroup<V: NewtonState>(
    a: V::CartesianState,
    b: V::CartesianState,
    c: V::CartesianState,
)
    requires
        sums_are_exact::<V>(),
    ensures
        V::spec_sum(V::spec_sum(a, b), c) == V::spec_sum(a, V::spec_sum(b, c)),
{
    reveal(sums_are_exact);
}

proof fn lemma_add_nothing<V: NewtonState>(a: V::CartesianState)
    requires
        sums_are_exact::<V>(),
    ensures
        V::spec_sum(a, V::spec_cartesian_zero()) == a,
{
    reveal(sums_are_exact);
}

proof fn lemma_give_and_take<V: NewtonState>(
    a: V::CartesianState,
    b: V::CartesianState,
    f: V::CartesianState,
)
    requires
        sums_are_exact::<V>(),
    ensures
        V::spec_sum(V::spec_sum(a, f), V::spec_difference(b, f)) == V::spec_sum(a, b),
{
    reveal(sums_are_exact);
}

/// The force on the particle of a slot; nothing where the slot is empty.
pub open spec fn force_of<A: Copy, V, Param>(
    slot: Option<Particle<V, NewtonColoumb<A, V, Param>, V::Number>>,
) -> A where V: NewtonState<CartesianState = A> {
    match slot {
        Some(p) => p.force.state,
        None => V::spec_cartesian_zero(),
    }
}

/// The sum of the forces on the particles of the first `k` slots.
pub open spec fn total_force<A: Copy, V, Param>(
    slots: Seq<Option<Particle<V, NewtonColoumb<A, V, Param>, V::Number>>>,
    k: nat,
) -> A where V: NewtonState<CartesianState = A>
    decreases k,
{
    if k == 0 {
        V::spec_cartesian_zero()
    } else {
        V::spec_sum(total_force(slots, (k - 1) as nat), force_of(slots[k - 1]))
    }
}

proof fn lemma_total_prefix<A: Copy, V, Param>(
    a: Seq<Option<Particle<V, NewtonColoumb<A, V, Param>, V::Number>>>,
    b: Seq<Option<Particle<V, NewtonColoumb<A, V, Param>, V::Number>>>,
    k: nat,
) where V: NewtonState<CartesianState = A>
    requires
        k <= a.len(),
        k <= b.len(),
        forall|i: int| 0 <= i < k ==> force_of(a[i]) == force_of(b[i]),
    ensures
        total_force(a, k) == total_force(b, k),
    decreases k,
{
    if k > 0 {
        lemma_total_prefix(a, b, (k - 1) as nat);
    }
}

/// What one slot gives up, added elsewhere, leaves the total with that
/// addition as it was.
proof fn lemma_total_after_giving<A: Copy, V, Param>(
    slots: Seq<Option<Particle<V, NewtonColoumb<A, V, Param>, V::Number>>>,
    j: int,
    given: Option<Particle<V, NewtonColoumb<A, V, Param>, V::Number>>,
    a: A,
    f: A,
    m: nat,
) where V: NewtonState<CartesianState = A>
    requires
        sums_are_exact::<V>(),
        0 <= j < m <= slots.len(),
        force_of(given) == V::spec_difference(force_of(slots[j]), f),
    ensures
        V::spec_sum(V::spec_sum(a, f), total_force(slots.update(j, given), m)) == V::spec_sum(
            a,
            total_force(slots, m),
        ),
    decreases m,
{
    let after = slots.update(j, given);
    let af = V::spec_sum(a, f);
    if m == j + 1 {
        let t0 = total_force(slots, j as nat);
        lemma_total_prefix(after, slots, j as nat);
        let b = force_of(slots[j]);
        let bf = V::spec_difference(b, f);
        assert(total_force(after, m) == V::spec_sum(t0, bf));
        assert(total_force(slots, m) == V::spec_sum(t0, b));
        lemma_regroup::<V>(af, t0, bf);
        lemma_commute::<V>(af, t0);
        lemma_regroup::<V>(t0, a, f);
        lemma_give_and_take::<V>(V::spec_sum(t0, a), b, f);
        lemma_regroup::<V>(a, t0, b);
        lemma_commute::<V>(a, t0);
    } else {
        lemma_total_after_giving(slots, j, given, a, f, (m - 1) as nat);
        let c = force_of(slots[m - 1]);
        assert(force_of(after[m - 1]) == c);
        lemma_regroup::<V>(af, total_force(after, (m - 1) as nat), c);
        lemma_regroup::<V>(a, total_force(slots, (m - 1) as nat), c);
    }
}

/// While a particle meets its successors, its force and theirs keep their
/// sum.
proof fn lemma_tail_scan_keeps_the_total<A: Copy, V, Param>(
    p_i: Particle<V, NewtonColoumb<A, V, Param>, V::Number>,
    tail: Seq<Option<Particle<V, NewtonColoumb<A, V, Param>, V::Number>>>,
    graph: Map<usize, Set<usize>>,
    i: usize,
    k: nat,
    params: Param,
) where
    V: NewtonState<CartesianState = A>,
    V::Number: Scalar,
    Param: NewtonParams<Number = V::Number> + CollisionParams<Number = V::Number>,

    requires
        sums_are_exact::<V>(),
        k <= tail.len(),
    ensures
        ({
            let after = tail_scan(p_i, tail, graph, i, k, params);
            &&& after.1.len() == tail.len()
            &&& V::spec_sum(after.0.force.state, total_force(after.1, tail.len())) == V::spec_sum(
                p_i.force.state,
                total_force(tail, tail.len()),
            )
        }),
    decreases k,
{
    if k > 0 {
        lemma_tail_scan_keeps_the_total(p_i, tail, graph, i, (k - 1) as nat, params);
        let before = tail_scan(p_i, tail, graph, i, (k - 1) as nat, params);
        let after = tail_step(before.0, before.1, before.2, i, k - 1, params);
        match before.1[k - 1] {
            Some(p_j) => {
                let f = NewtonColoumb::<A, V, Param>::force_between(before.0, p_j, params);
                assert(after.0.force.state == V::spec_sum(before.0.force.state, f));
                assert(after.1 == before.1.update(k - 1, after.1[k - 1]));
                assert(force_of(after.1[k - 1]) == V::spec_difference(p_j.force.state, f));
                lemma_total_after_giving(
                    before.1,
                    k - 1,
                    after.1[k - 1],
                    before.0.force.state,
                    f,
                    tail.len(),
                );
            },
            None => {},
        }
    }
}

/// The total over two arrays, one after the other, is the sum of their
/// totals.
proof fn lemma_total_of_two<A: Copy, V, Param>(
    x: Seq<Option<Particle<V, NewtonColoumb<A, V, Param>, V::Number>>>,
    y: Seq<Option<Particle<V, NewtonColoumb<A, V, Param>, V::Number>>>,
    k: nat,
) where V: NewtonState<CartesianState = A>
    requires
        sums_are_exact::<V>(),
        k <= y.len(),
    ensures
        total_force(x + y, x.len() + k) == V::spec_sum(
            total_force(x, x.len()),
            total_force(y, k),
        ),
    decreases k,
{
    if k == 0 {
        lemma_total_prefix(x + y, x, x.len());
        lemma_add_nothing::<V>(total_force(x, x.len()));
    } else {
        lemma_total_of_two(x, y, (k - 1) as nat);
        assert((x + y)[x.len() + k - 1] == y[k - 1]);
        lemma_regroup::<V>(
            total_force(x, x.len()),
            total_force(y, (k - 1) as nat),
            force_of(y[k - 1]),
        );
    }
}

/// A slot that meets the slots behind it leaves the total as it was.
proof fn lemma_row_keeps_the_total<A: Copy, V, Param>(
    slots: Seq<Option<Particle<V, NewtonColoumb<A, V, Param>, V::Number>>>,
    graph: Map<usize, Set<usize>>,
    i: int,
    params: Param,
) where
    V: NewtonState<CartesianState = A>,
    V::Number: Scalar,
    Param: NewtonParams<Number = V::Number> + CollisionParams<Number = V::Number>,

    requires
        sums_are_exact::<V>(),
        0 <= i < slots.len(),
    ensures
        row_step(slots, graph, i, params).0.len() == slots.len(),
        total_force(row_step(slots, graph, i, params).0, slots.len()) == total_force(
            slots,
            slots.len(),
        ),
{
    match slots[i] {
        Some(p_i) => {
            let head = slots.subrange(0, i);
            let tail = slots.subrange(i + 1, slots.len() as int);
            let scanned = tail_scan(p_i, tail, graph, i as usize, tail.len(), params);
            lemma_tail_scan_keeps_the_total(p_i, tail, graph, i as usize, tail.len(), params);
            let front = head.push(Some(p_i));
            let new_front = head.push(Some(scanned.0));
            assert(slots =~= front + tail);
            lemma_total_of_two(front, tail, tail.len());
            lemma_total_of_two(new_front, scanned.1, tail.len());
            lemma_total_prefix(front, head, head.len());
            lemma_total_prefix(new_front, head, head.len());
            let h = total_force(head, head.len());
            assert(total_force(front, front.len()) == V::spec_sum(h, p_i.force.state));
            assert(total_force(new_front, new_front.len()) == V::spec_sum(
                h,
                scanned.0.force.state,
            ));
            lemma_regroup::<V>(h, p_i.force.state, total_force(tail, tail.len()));
            lemma_regroup::<V>(h, scanned.0.force.state, total_force(scanned.1, tail.len()));
        },
        None => {},
    }
}

/// Computed without rounding, the forces of all particles add up to
/// nothing once every pair has been visited: each pair adds a force to one
/// particle and takes the same force from the other, whatever collisions
/// are recorded on the way.
pub proof fn law_forces_add_up_to_nothing<A: Copy, V, Param>(
    slots: Seq<Option<Particle<V, NewtonColoumb<A, V, Param>, V::Number>>>,
    graph: Map<usize, Set<usize>>,
    rows: nat,
    params: Param,
) where
    V: NewtonState<CartesianState = A>,
    V::Number: Scalar,
    Param: NewtonParams<Number = V::Number> + CollisionParams<Number = V::Number>,

    requires
        sums_are_exact::<V>(),
        rows <= slots.len(),
    ensures
        accumulate(reset_all(slots, params), graph, rows, params).0.len() == slots.len(),
        total_force(accumulate(reset_all(slots, params), graph, rows, params).0, slots.len())
            == V::spec_cartesian_zero(),
    decreases rows,
{
    let start = reset_all(slots, params);
    if rows == 0 {
        lemma_total_of_rest(slots, params, slots.len());
    } else {
        law_forces_add_up_to_nothing(slots, graph, (rows - 1) as nat, params);
        let before = accumulate(start, graph, (rows - 1) as nat, params);
        lemma_row_keeps_the_total(before.0, before.1, rows - 1, params);
    }
}

/// At the start of a force computation no force acts on any particle.
proof fn lemma_total_of_rest<A: Copy, V, Param>(
    slots: Seq<Option<Particle<V, NewtonColoumb<A, V, Param>, V::Number>>>,
    params: Param,
    k: nat,
) where
    V: NewtonState<CartesianState = A>,
    V::Number: Scalar,
    Param: NewtonParams<Number = V::Number> + CollisionParams<Number = V::Number>,

    requires
        sums_are_exact::<V>(),
        k <= slots.len(),
    ensures
        total_force(reset_all(slots, params), k) == V::spec_cartesian_zero(),
    decreases k,
{
    if k > 0 {
        lemma_total_of_rest(slots, params, (k - 1) as nat);
        let slot = reset_all(slots, params)[k - 1];
        assert(slot == reset_slot(slots[k - 1], params));
        assert(force_of(slot) == V::spec_cartesian_zero());
        lemma_add_nothing::<V>(V::spec_cartesian_zero());
    }
}

/// What one slot takes over from elsewhere is added to the total.
proof fn lemma_total_after_taking<A: Copy, V, Param>(
    slots: Seq<Option<Particle<V, NewtonColoumb<A, V, Param>, V::Number>>>,
    j: int,
    given: Option<Particle<V, NewtonColoumb<A, V, Param>, V::Number>>,
    a: A,
    m: nat,
) where V: NewtonState<CartesianState = A>
    requires
        sums_are_exact::<V>(),
        0 <= j < m <= slots.len(),
        force_of(given) == V::spec_sum(force_of(slots[j]), a),
    ensures
        total_force(slots.update(j, given), m) == V::spec_sum(a, total_force(slots, m)),
    decreases m,
{
    let after = slots.update(j, given);
    if m == j + 1 {
        let t0 = total_force(slots, j as nat);
        lemma_total_prefix(after, slots, j as nat);
        let b = force_of(slots[j]);
        assert(total_force(after, m) == V::spec_sum(t0, V::spec_sum(b, a)));
        assert(total_force(slots, m) == V::spec_sum(t0, b));
        lemma_regroup::<V>(t0, b, a);
        lemma_commute::<V>(V::spec_sum(t0, b), a);
    } else {
        lemma_total_after_taking(slots, j, given, a, (m - 1) as nat);
        let c = force_of(slots[m - 1]);
        assert(force_of(after[m - 1]) == c);
        lemma_regroup::<V>(a, total_force(slots, (m - 1) as nat), c);
    }
}

/// While the collisions of a particle with its successors are resolved,
/// its force and theirs keep their sum: a merge hands the force of the
/// particle to the successor that absorbs it, and every other collision
/// leaves the forces as they are.
proof fn lemma_successors_keep_the_total<A: Copy, V, Param>(
    p_i: Option<Particle<V, NewtonColoumb<A, V, Param>, V::Number>>,
    tail: Seq<Option<Particle<V, NewtonColoumb<A, V, Param>, V::Number>>>,
    offsets: Set<usize>,
    k: nat,
    params: Param,
) where
    V: NewtonState<CartesianState = A>,
    V::Number: Scalar,
    Param: NewtonParams<Number = V::Number> + CollisionParams<Number = V::Number>,

    requires
        sums_are_exact::<V>(),
        k <= tail.len(),
    ensures
        ({
            let after = successors_scan(p_i, tail, offsets, k, params);
            &&& after.1.len() == tail.len()
            &&& V::spec_sum(force_of(after.0), total_force(after.1, tail.len())) == V::spec_sum(
                force_of(p_i),
                total_force(tail, tail.len()),
            )
        }),
    decreases k,
{
    if k > 0 {
        lemma_successors_keep_the_total(p_i, tail, offsets, (k - 1) as nat, params);
        let before = successors_scan(p_i, tail, offsets, (k - 1) as nat, params);
        let after = successor_step(before.0, before.1, before.2, offsets, k - 1, params);
        if before.2 is None && offsets.contains((k - 1) as usize) && before.1[k - 1] is Some
            && before.0 is Some {
            let p = before.0->Some_0;
            let p_j = before.1[k - 1]->Some_0;
            let collided = NewtonColoumb::<A, V, Param>::spec_collision(p_j, p, params);
            assert(after.0 == collided.1);
            assert(after.1 == before.1.update(k - 1, Some(collided.0)));
            let total = total_force(before.1, tail.len());
            if collided.1 is None {
                assert(force_of(Some(collided.0)) == V::spec_sum(p_j.force.state, p.force.state));
                lemma_total_after_taking(
                    before.1,
                    k - 1,
                    Some(collided.0),
                    p.force.state,
                    tail.len(),
                );
                let moved = V::spec_sum(p.force.state, total);
                lemma_commute::<V>(V::spec_cartesian_zero(), moved);
                lemma_add_nothing::<V>(moved);
            } else {
                assert(force_of(after.0) == p.force.state);
                assert(force_of(Some(collided.0)) == p_j.force.state);
                assert forall|x: int| 0 <= x < tail.len() implies force_of(after.1[x]) == force_of(
                    before.1[x],
                ) by {}
                lemma_total_prefix(after.1, before.1, tail.len());
            }
        } else {
            assert(after.0 == before.0);
            assert(after.1 == before.1);
        }
    }
}

/// To resolve the collisions recorded for one slot leaves the total as it
/// was.
proof fn lemma_key_keeps_the_total<A: Copy, V, Param>(
    slots: Seq<Option<Particle<V, NewtonColoumb<A, V, Param>, V::Number>>>,
    graph: Map<usize, Set<usize>>,
    i: int,
    params: Param,
) where
    V: NewtonState<CartesianState = A>,
    V::Number: Scalar,
    Param: NewtonParams<Number = V::Number> + CollisionParams<Number = V::Number>,

    requires
        sums_are_exact::<V>(),
        0 <= i < slots.len(),
    ensures
        resolve_key(slots, graph, i, params).0.len() == slots.len(),
        total_force(resolve_key(slots, graph, i, params).0, slots.len()) == total_force(
            slots,
            slots.len(),
        ),
{
    if graph.contains_key(i as usize) && slots[i] is Some {
        let head = slots.subrange(0, i);
        let tail = slots.subrange(i + 1, slots.len() as int);
        let offsets = graph[i as usize];
        let scanned = successors_scan(slots[i], tail, offsets, tail.len(), params);
        lemma_successors_keep_the_total(slots[i], tail, offsets, tail.len(), params);
        let front = head.push(slots[i]);
        let new_front = head.push(scanned.0);
        assert(slots =~= front + tail);
        assert(resolve_key(slots, graph, i, params).0 == new_front + scanned.1);
        lemma_total_of_two(front, tail, tail.len());
        lemma_total_of_two(new_front, scanned.1, tail.len());
        lemma_total_prefix(front, head, head.len());
        lemma_total_prefix(new_front, head, head.len());
        let h = total_force(head, head.len());
        assert(total_force(front, front.len()) == V::spec_sum(h, force_of(slots[i])));
        assert(total_force(new_front, new_front.len()) == V::spec_sum(h, force_of(scanned.0)));
        lemma_regroup::<V>(h, force_of(slots[i]), total_force(tail, tail.len()));
        lemma_regroup::<V>(h, force_of(scanned.0), total_force(scanned.1, tail.len()));
    }
}

/// To resolve the collisions recorded for the first `k` slots leaves the
/// total as it was.
proof fn lemma_resolution_keeps_the_total<A: Copy, V, Param>(
    slots: Seq<Option<Particle<V, NewtonColoumb<A, V, Param>, V::Number>>>,
    graph: Map<usize, Set<usize>>,
    k: nat,
    params: Param,
) where
    V: NewtonState<CartesianState = A>,
    V::Number: Scalar,
    Param: NewtonParams<Number = V::Number> + CollisionParams<Number = V::Number>,

    requires
        sums_are_exact::<V>(),
        k <= slots.len(),
    ensures
        resolve_scan(slots, graph, k, params).0.len() == slots.len(),
        total_force(resolve_scan(slots, graph, k, params).0, slots.len()) == total_force(
            slots,
            slots.len(),
        ),
    decreases k,
{
    if k > 0 {
        lemma_resolution_keeps_the_total(slots, graph, (k - 1) as nat, params);
        let before = resolve_scan(slots, graph, (k - 1) as nat, params);
        lemma_key_keeps_the_total(before.0, before.1, k - 1, params);
    }
}

/// Computed without rounding, the forces of all particles add up to
/// nothing after the forces have been computed afresh and the collisions
/// resolved: each pair adds a force to one particle and takes the same
/// force from the other, a merged particle carries the forces of both, and
/// every other collision leaves the forces as they are.
pub proof fn law_resolved_forces_add_up_to_nothing<A: Copy, V, Param>(
    slots: Seq<Option<Particle<V, NewtonColoumb<A, V, Param>, V::Number>>>,
    params: Param,
) where
    V: NewtonState<CartesianState = A>,
    V::Number: Scalar,
    Param: NewtonParams<Number = V::Number> + CollisionParams<Number = V::Number>,

    requires
        sums_are_exact::<V>(),
    ensures
        macro_resolved(slots, params).len() == slots.len(),
        total_force(macro_resolved(slots, params), slots.len()) == V::spec_cartesian_zero(),
{
    let empty = Map::<usize, Set<usize>>::empty();
    law_forces_add_up_to_nothing(slots, empty, slots.len(), params);
    let accumulated = accumulate(reset_all(slots, params), empty, slots.len(), params);
    lemma_resolution_keeps_the_total(accumulated.0, accumulated.1, slots.len(), params);
}

/// Computed without rounding, the forces of all particles add up to
/// nothing after a tick of the solver on which the forces are computed
/// afresh, where every particle outlives the tick. A particle that dies of
/// a failed solver run takes its force with it.
pub proof fn law_a_tick_balances_the_forces<A: Copy, V, Param, I>(
    params: Param,
    integrator: I,
    before: (
        Seq<Option<Particle<V, NewtonColoumb<A, V, Param>, V::Number>>>,
        Seq<Seq<V>>,
        usize,
        Map<usize, Set<usize>>,
    ),
    after: (
        Seq<Option<Particle<V, NewtonColoumb<A, V, Param>, V::Number>>>,
        Seq<Seq<V>>,
        usize,
        Map<usize, Set<usize>>,
    ),
) where
    V: NewtonState<CartesianState = A> + ValidStateCheck,
    V::Number: Scalar,
    Param: NewtonParams<Number = V::Number> + CollisionParams<Number = V::Number>
        + IntegrationParams,
    I: Integrator<Input = Particle<V, NewtonColoumb<A, V, Param>, V::Number>, Output = V>,

    requires
        sums_are_exact::<V>(),
        ticked(params, integrator, before, after),
        before.2 >= params.spec_integration_steps(),
        forall|k: int|
            0 <= k < before.0.len() && #[trigger] macro_resolved(before.0, params)[k] is Some
                ==> after.0[k] is Some,
    ensures
        total_force(after.0, before.0.len()) == V::spec_cartesian_zero(),
{
    let resolved = macro_resolved(before.0, params);
    law_a_force_computation_keeps_or_kills(params, integrator, before, after);
    law_resolved_forces_add_up_to_nothing(before.0, params);
    assert forall|k: int| 0 <= k < before.0.len() implies force_of(after.0[k]) == force_of(
        resolved[k],
    ) by {
        if after.0[k] != resolved[k] {
            assert(after.0[k] is None);
            assert(resolved[k] is None);
        }
    }
    lemma_total_prefix(after.0, resolved, before.0.len());
}

} // verus!
