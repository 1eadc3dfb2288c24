//! What collisions conserve: computed without rounding, the particles of an
//! ensemble carry as much parity, charge and mass after their collisions as
//! before.
use vstd::prelude::*;
use crate::collision_graph::{graph_attach, handed_over};
use crate::coulomb::NewtonColoumb;
use crate::detection::{law_the_pass_finds_the_collisions, pair_collides, recorded, same_bodies};
use crate::integrator::Integrator;
use crate::laws::law_a_force_computation_keeps_or_kills;
use crate::newton::{CollisionParams, Force, IntegrationParams, NewtonParams, NewtonState};
use crate::particle::Particle;
use crate::resolution::lemma_successors_scan_shape;
use crate::scalar::Scalar;
use crate::solver::{
    accumulate, macro_resolved, reset_all, resolve_key, resolve_scan, successor_step,
    successors_scan, ticked,
};
use crate::states::ValidStateCheck;

verus! {

/// Whether the sums of numbers are exact: the order and the grouping of
/// the summands do not matter, and adding nothing changes nothing.
/// Arithmetic that rounds does not have these properties.
#[verifier::opaque]
pub open spec fn additions_are_exact<R: Scalar>() -> bool {
    &&& forall|a: R, b: R| #[trigger] a.spec_plus(b) == b.spec_plus(a)
    &&& forall|a: R, b: R, c: R| #[trigger]
        a.spec_plus(b).spec_plus(c) == a.spec_plus(b.spec_plus(c))
    &&& forall|a: R| #[trigger] a.spec_plus(R::spec_zero()) == a
}

proof fn lemma_commute<R: Scalar>(a: R, b: R)
    requires
        additions_are_exact::<R>(),
    ensures
        a.spec_plus(b) == b.spec_plus(a),
{
    reveal(additions_are_exact);
}

proof fn lemma_regroup<R: Scalar>(a: R, b: R, c: R)
    requires
        additions_are_exact::<R>(),
    ensures
        a.spec_plus(b).spec_plus(c) == a.spec_plus(b.spec_plus(c)),
{
    reveal(additions_are_exact);
}

proof fn lemma_add_nothing<R: Scalar>(a: R)
    requires
        additions_are_exact::<R>(),
    ensures
        a.spec_plus(R::spec_zero()) == a,
{
    reveal(additions_are_exact);
}

/// The scalar attributes of a particle that add up when particles merge.
pub enum Attribute {
    Parity,
    Charge,
    Mass,
}

/// What a particle carries of an attribute.
pub open spec fn amount<V, F, R: Scalar>(p: Particle<V, F, R>, which: Attribute) -> R {
    match which {
        Attribute::Parity => p.short,
        Attribute::Charge => p.mid,
        Attribute::Mass => p.mass,
    }
}

/// What the particle of a slot carries of an attribute; nothing where the
/// slot is empty.
pub open spec fn amount_of<V, F, R: Scalar>(slot: Option<Particle<V, F, R>>, which: Attribute) -> R {
    match slot {
        Some(p) => amount(p, which),
        None => R::spec_zero(),
    }
}

/// The sum of what the particles of the first `k` slots carry of an
/// attribute.
pub open spec fn total<V, F, R: Scalar>(
    slots: Seq<Option<Particle<V, F, R>>>,
    which: Attribute,
    k: nat,
) -> R
    decreases k,
{
    if k == 0 {
        R::spec_zero()
    } else {
        total(slots, which, (k - 1) as nat).spec_plus(amount_of(slots[k - 1], which))
    }
}

proof fn lemma_total_prefix<V, F, R: Scalar>(
    a: Seq<Option<Particle<V, F, R>>>,
    b: Seq<Option<Particle<V, F, R>>>,
    k: nat,
    which: Attribute,
)
    requires
        k <= a.len(),
        k <= b.len(),
        forall|i: int| 0 <= i < k ==> amount_of(a[i], which) == amount_of(b[i], which),
    ensures
        total(a, which, k) == total(b, which, k),
    decreases k,
{
    if k > 0 {
        lemma_total_prefix(a, b, (k - 1) as nat, which);
    }
}

/// The total over two arrays, one after the other, is the sum of their
/// totals.
proof fn lemma_total_of_two<V, F, R: Scalar>(
    x: Seq<Option<Particle<V, F, R>>>,
    y: Seq<Option<Particle<V, F, R>>>,
    k: nat,
    which: Attribute,
)
    requires
        additions_are_exact::<R>(),
        k <= y.len(),
    ensures
        total(x + y, which, x.len() + k) == total(x, which, x.len()).spec_plus(total(y, which, k)),
    decreases k,
{
    if k == 0 {
        lemma_total_prefix(x + y, x, x.len(), which);
        lemma_add_nothing::<R>(total(x, which, x.len()));
    } else {
        lemma_total_of_two(x, y, (k - 1) as nat, which);
        assert((x + y)[x.len() + k - 1] == y[k - 1]);
        lemma_regroup::<R>(
            total(x, which, x.len()),
            total(y, which, (k - 1) as nat),
            amount_of(y[k - 1], which),
        );
    }
}

/// What one slot takes over from elsewhere is added to the total.
proof fn lemma_total_after_taking<V, F, R: Scalar>(
    slots: Seq<Option<Particle<V, F, R>>>,
    j: int,
    given: Option<Particle<V, F, R>>,
    a: R,
    m: nat,
    which: Attribute,
)
    requires
        additions_are_exact::<R>(),
        0 <= j < m <= slots.len(),
        amount_of(given, which) == amount_of(slots[j], which).spec_plus(a),
    ensures
        total(slots.update(j, given), which, m) == a.spec_plus(total(slots, which, m)),
    decreases m,
{
    let after = slots.update(j, given);
    if m == j + 1 {
        let t0 = total(slots, which, j as nat);
        lemma_total_prefix(after, slots, j as nat, which);
        let b = amount_of(slots[j], which);
        assert(total(after, which, m) == t0.spec_plus(b.spec_plus(a)));
        assert(total(slots, which, m) == t0.spec_plus(b));
        lemma_regroup::<R>(t0, b, a);
        lemma_commute::<R>(t0.spec_plus(b), a);
    } else {
        lemma_total_after_taking(slots, j, given, a, (m - 1) as nat, which);
        let c = amount_of(slots[m - 1], which);
        assert(amount_of(after[m - 1], which) == c);
        lemma_regroup::<R>(a, total(slots, which, (m - 1) as nat), c);
    }
}

/// While the collisions of a particle with its successors are resolved,
/// what it and they carry of an attribute keeps its sum: a merge hands the
/// share of the particle to the successor that absorbs it, and every other
/// collision leaves the attributes as they are.
proof fn lemma_successors_keep_the_total<A: Copy, V, Param>(
    p_i: Option<Particle<V, NewtonColoumb<A, V, Param>, V::Number>>,
    tail: Seq<Option<Particle<V, NewtonColoumb<A, V, Param>, V::Number>>>,
    offsets: Set<usize>,
    k: nat,
    params: Param,
    which: Attribute,
) where
    V: NewtonState<CartesianState = A>,
    V::Number: Scalar,
    Param: NewtonParams<Number = V::Number> + CollisionParams<Number = V::Number>,

    requires
        additions_are_exact::<V::Number>(),
        k <= tail.len(),
    ensures
        ({
            let after = successors_scan(p_i, tail, offsets, k, params);
            &&& after.1.len() == tail.len()
            &&& amount_of(after.0, which).spec_plus(total(after.1, which, tail.len()))
                == amount_of(p_i, which).spec_plus(total(tail, which, tail.len()))
        }),
    decreases k,
{
    if k > 0 {
        lemma_successors_keep_the_total(p_i, tail, offsets, (k - 1) as nat, params, which);
        let before = successors_scan(p_i, tail, offsets, (k - 1) as nat, params);
        let after = successor_step(before.0, before.1, before.2, offsets, k - 1, params);
        if before.2 is None && offsets.contains((k - 1) as usize) && before.1[k - 1] is Some
            && before.0 is Some {
            let p = before.0->Some_0;
            let p_j = before.1[k - 1]->Some_0;
            let collided = NewtonColoumb::<A, V, Param>::spec_collision(p_j, p, params);
            assert(after.0 == collided.1);
            assert(after.1 == before.1.update(k - 1, Some(collided.0)));
            let total = total(before.1, which, tail.len());
            if collided.1 is None {
                assert(amount_of(Some(collided.0), which) == amount(p_j, which).spec_plus(amount(p, which)));
                lemma_total_after_taking(
                    before.1,
                    k - 1,
                    Some(collided.0),
                    amount(p, which),
                    tail.len(),
                    which,
                );
                let moved = amount(p, which).spec_plus(total);
                lemma_commute::<V::Number>(<V::Number as Scalar>::spec_zero(), moved);
                lemma_add_nothing::<V::Number>(moved);
            } else {
                assert(amount_of(after.0, which) == amount(p, which));
                assert(amount_of(Some(collided.0), which) == amount(p_j, which));
                assert forall|x: int| 0 <= x < tail.len() implies amount_of(after.1[x], which)
                    == amount_of(before.1[x], which) by {}
                lemma_total_prefix(after.1, before.1, tail.len(), which);
            }
        } else {
            assert(after.0 == before.0);
            assert(after.1 == before.1);
        }
    }
}

/// To resolve the collisions recorded for one slot leaves the total as it
/// was.
proof fn lemma_key_keeps_the_total<A: Copy, V, Param>(
    slots: Seq<Option<Particle<V, NewtonColoumb<A, V, Param>, V::Number>>>,
    graph: Map<usize, Set<usize>>,
    i: int,
    params: Param,
    which: Attribute,
) where
    V: NewtonState<CartesianState = A>,
    V::Number: Scalar,
    Param: NewtonParams<Number = V::Number> + CollisionParams<Number = V::Number>,

    requires
        additions_are_exact::<V::Number>(),
        0 <= i < slots.len(),
    ensures
        resolve_key(slots, graph, i, params).0.len() == slots.len(),
        total(resolve_key(slots, graph, i, params).0, which, slots.len()) == total(slots, which, slots.len()),
{
    if graph.contains_key(i as usize) && slots[i] is Some {
        let head = slots.subrange(0, i);
        let tail = slots.subrange(i + 1, slots.len() as int);
        let offsets = graph[i as usize];
        let scanned = successors_scan(slots[i], tail, offsets, tail.len(), params);
        lemma_successors_keep_the_total(slots[i], tail, offsets, tail.len(), params, which);
        let front = head.push(slots[i]);
        let new_front = head.push(scanned.0);
        assert(slots =~= front + tail);
        assert(resolve_key(slots, graph, i, params).0 == new_front + scanned.1);
        lemma_total_of_two(front, tail, tail.len(), which);
        lemma_total_of_two(new_front, scanned.1, tail.len(), which);
        lemma_total_prefix(front, head, head.len(), which);
        lemma_total_prefix(new_front, head, head.len(), which);
        let h = total(head, which, head.len());
        assert(total(front, which, front.len()) == h.spec_plus(amount_of(slots[i], which)));
        assert(total(new_front, which, new_front.len()) == h.spec_plus(amount_of(scanned.0, which)));
        lemma_regroup::<V::Number>(h, amount_of(slots[i], which), total(tail, which, tail.len()));
        lemma_regroup::<V::Number>(h, amount_of(scanned.0, which), total(scanned.1, which, tail.len()));
    }
}

/// To resolve the collisions recorded for the first `k` slots leaves the
/// total as it was.
proof fn lemma_resolution_keeps_the_total<A: Copy, V, Param>(
    slots: Seq<Option<Particle<V, NewtonColoumb<A, V, Param>, V::Number>>>,
    graph: Map<usize, Set<usize>>,
    k: nat,
    params: Param,
    which: Attribute,
) where
    V: NewtonState<CartesianState = A>,
    V::Number: Scalar,
    Param: NewtonParams<Number = V::Number> + CollisionParams<Number = V::Number>,

    requires
        additions_are_exact::<V::Number>(),
        k <= slots.len(),
    ensures
        resolve_scan(slots, graph, k, params).0.len() == slots.len(),
        total(resolve_scan(slots, graph, k, params).0, which, slots.len()) == total(
            slots,
            which,
            slots.len(),
        ),
    decreases k,
{
    if k > 0 {
        lemma_resolution_keeps_the_total(slots, graph, (k - 1) as nat, params, which);
        let before = resolve_scan(slots, graph, (k - 1) as nat, params);
        lemma_key_keeps_the_total(before.0, before.1, k - 1, params, which);
    }
}

/// Parity, charge and mass are conserved: computed without rounding, the
/// particles of an ensemble carry as much of each after the forces have
/// been computed afresh and the collisions resolved as they did before,
/// however many of them have merged. A merged particle carries the
/// parities, the charges and the masses of both, and nothing else changes
/// an attribute.
pub proof fn law_the_ensemble_keeps_its_attributes<A: Copy, V, Param>(
    slots: Seq<Option<Particle<V, NewtonColoumb<A, V, Param>, V::Number>>>,
    params: Param,
    which: Attribute,
) where
    V: NewtonState<CartesianState = A>,
    V::Number: Scalar,
    Param: NewtonParams<Number = V::Number> + CollisionParams<Number = V::Number>,

    requires
        additions_are_exact::<V::Number>(),
        slots.len() <= usize::MAX,
    ensures
        macro_resolved(slots, params).len() == slots.len(),
        total(macro_resolved(slots, params), which, slots.len()) == total(slots, which, slots.len()),
{
    let empty = Map::<usize, Set<usize>>::empty();
    law_the_pass_finds_the_collisions(slots, params);
    let accumulated = accumulate(reset_all(slots, params), empty, slots.len(), params);
    assert(same_bodies(slots, accumulated.0));
    assert forall|k: int| 0 <= k < slots.len() implies amount_of(accumulated.0[k], which)
        == amount_of(slots[k], which) by {
        if slots[k] is Some {
            assert(amount(accumulated.0[k]->Some_0, which) == amount(slots[k]->Some_0, which));
        }
    }
    lemma_total_prefix(accumulated.0, slots, slots.len(), which);
    lemma_resolution_keeps_the_total(accumulated.0, accumulated.1, slots.len(), params, which);
}

/// The total of an array whose only particle is in slot `a` is what that
/// particle carries.
pub proof fn lemma_total_of_one<V, F, R: Scalar>(
    slots: Seq<Option<Particle<V, F, R>>>,
    which: Attribute,
    a: int,
    k: nat,
)
    requires
        additions_are_exact::<R>(),
        0 <= a < slots.len(),
        k <= slots.len(),
        forall|j: int| 0 <= j < slots.len() && j != a ==> slots[j] is None,
    ensures
        total(slots, which, k) == if a < k {
            amount_of(slots[a], which)
        } else {
            R::spec_zero()
        },
    decreases k,
{
    if k > 0 {
        lemma_total_of_one(slots, which, a, (k - 1) as nat);
        lemma_add_nothing::<R>(R::spec_zero());
        lemma_add_nothing::<R>(amount_of(slots[a], which));
        lemma_commute::<R>(R::spec_zero(), amount_of(slots[a], which));
    }
}

/// The slots of a group: the array with every slot emptied that is not of
/// the group. The first slot of the array is counted as slot `from`.
pub open spec fn within<P>(slots: Seq<Option<P>>, group: spec_fn(int) -> bool, from: int) -> Seq<
    Option<P>,
> {
    Seq::new(
        slots.len(),
        |j: int|
            if group(from + j) {
                slots[j]
            } else {
                None
            },
    )
}

/// The sum of what the particles of a group carry of an attribute.
pub open spec fn total_of_group<V, F, R: Scalar>(
    slots: Seq<Option<Particle<V, F, R>>>,
    which: Attribute,
    group: spec_fn(int) -> bool,
) -> R {
    total(within(slots, group, 0), which, slots.len())
}

/// Whether every recorded collision is one of two slots of the group or of
/// two slots outside it.
pub open spec fn keeps_to_groups(graph: Map<usize, Set<usize>>, group: spec_fn(int) -> bool) -> bool {
    forall|key: usize, o: usize| #[trigger]
        recorded(graph, key, o) ==> group(key as int) == group(key + 1 + o)
}

/// While the collisions of a particle with its successors are resolved,
/// the particle and its successors keep what they carry within the group, where
/// all its pending successors are of the group if and only if the particle
/// is.
proof fn lemma_successors_keep_the_group<A: Copy, V, Param>(
    p_i: Option<Particle<V, NewtonColoumb<A, V, Param>, V::Number>>,
    tail: Seq<Option<Particle<V, NewtonColoumb<A, V, Param>, V::Number>>>,
    offsets: Set<usize>,
    k: nat,
    params: Param,
    group: spec_fn(int) -> bool,
    i: int,
    which: Attribute,
) where
    V: NewtonState<CartesianState = A>,
    V::Number: Scalar,
    Param: NewtonParams<Number = V::Number> + CollisionParams<Number = V::Number>,

    requires
        additions_are_exact::<V::Number>(),
        k <= tail.len() <= usize::MAX,
        forall|o: usize| #[trigger] offsets.contains(o) ==> group(i + 1 + o) == group(i),
    ensures
        ({
            let after = successors_scan(p_i, tail, offsets, k, params);
            &&& after.1.len() == tail.len()
            &&& group(i) ==> amount_of(after.0, which).spec_plus(
                total(within(after.1, group, i + 1), which, tail.len()),
            ) == amount_of(p_i, which).spec_plus(total(within(tail, group, i + 1), which, tail.len()))
            &&& !group(i) ==> total(within(after.1, group, i + 1), which, tail.len()) == total(
                within(tail, group, i + 1),
                which,
                tail.len(),
            )
        }),
    decreases k,
{
    if k > 0 {
        lemma_successors_keep_the_group(p_i, tail, offsets, (k - 1) as nat, params, group, i, which);
        let before = successors_scan(p_i, tail, offsets, (k - 1) as nat, params);
        let after = successor_step(before.0, before.1, before.2, offsets, k - 1, params);
        let shown = within(before.1, group, i + 1);
        let shown_after = within(after.1, group, i + 1);
        if before.2 is None && offsets.contains((k - 1) as usize) && before.1[k - 1] is Some
            && before.0 is Some {
            let p = before.0->Some_0;
            let p_j = before.1[k - 1]->Some_0;
            let collided = NewtonColoumb::<A, V, Param>::spec_collision(p_j, p, params);
            assert(after.0 == collided.1);
            assert(after.1 == before.1.update(k - 1, Some(collided.0)));
            assert(((k - 1) as usize) as int == k - 1);
            assert(group(i + 1 + (k - 1)) == group(i));
            if group(i) {
                assert(shown_after =~= shown.update(k - 1, Some(collided.0)));
                assert(shown[k - 1] == before.1[k - 1]);
                let total = total(shown, which, tail.len());
                if collided.1 is None {
                    assert(amount_of(Some(collided.0), which) == amount(p_j, which).spec_plus(
                        amount(p, which),
                    ));
                    lemma_total_after_taking(
                        shown,
                        k - 1,
                        Some(collided.0),
                        amount(p, which),
                        tail.len(),
                        which,
                    );
                    let moved = amount(p, which).spec_plus(total);
                    lemma_commute::<V::Number>(<V::Number as Scalar>::spec_zero(), moved);
                    lemma_add_nothing::<V::Number>(moved);
                } else {
                    assert(amount_of(after.0, which) == amount(p, which));
                    assert(amount_of(Some(collided.0), which) == amount(p_j, which));
                    assert forall|x: int| 0 <= x < tail.len() implies amount_of(shown_after[x], which)
                        == amount_of(shown[x], which) by {}
                    lemma_total_prefix(shown_after, shown, tail.len(), which);
                }
            } else {
                assert(shown_after =~= shown);
            }
        } else {
            assert(after.0 == before.0);
            assert(after.1 == before.1);
        }
    }
}

/// To resolve the collisions recorded for one slot leaves the total of a
/// group as it was, and the collisions still keep to the groups.
proof fn lemma_key_keeps_the_group<A: Copy, V, Param>(
    slots: Seq<Option<Particle<V, NewtonColoumb<A, V, Param>, V::Number>>>,
    graph: Map<usize, Set<usize>>,
    i: int,
    params: Param,
    group: spec_fn(int) -> bool,
    which: Attribute,
) where
    V: NewtonState<CartesianState = A>,
    V::Number: Scalar,
    Param: NewtonParams<Number = V::Number> + CollisionParams<Number = V::Number>,

    requires
        additions_are_exact::<V::Number>(),
        0 <= i < slots.len() <= usize::MAX,
        keeps_to_groups(graph, group),
    ensures
        resolve_key(slots, graph, i, params).0.len() == slots.len(),
        total_of_group(resolve_key(slots, graph, i, params).0, which, group) == total_of_group(
            slots,
            which,
            group,
        ),
        keeps_to_groups(resolve_key(slots, graph, i, params).1, group),
{
    let after = resolve_key(slots, graph, i, params);
    let iu = i as usize;
    if graph.contains_key(iu) && slots[i] is Some {
        let head = slots.subrange(0, i);
        let tail = slots.subrange(i + 1, slots.len() as int);
        let offsets = graph[iu];
        assert forall|o: usize| #[trigger] offsets.contains(o) implies group(i + 1 + o) == group(
            i,
        ) by {
            assert(recorded(graph, iu, o));
        }
        let scanned = successors_scan(slots[i], tail, offsets, tail.len(), params);
        lemma_successors_keep_the_group(slots[i], tail, offsets, tail.len(), params, group, i, which);
        lemma_successors_scan_shape(slots[i], tail, offsets, tail.len(), params);
        assert(after.0 == head.push(scanned.0) + scanned.1);
        let shown_head = within(head, group, 0);
        let kept = if group(i) {
            slots[i]
        } else {
            None
        };
        let kept_after = if group(i) {
            scanned.0
        } else {
            None
        };
        let front = shown_head.push(kept);
        let new_front = shown_head.push(kept_after);
        let shown_tail = within(tail, group, i + 1);
        let shown_scanned = within(scanned.1, group, i + 1);
        assert(within(slots, group, 0) =~= front + shown_tail);
        assert(within(after.0, group, 0) =~= new_front + shown_scanned);
        lemma_total_of_two(front, shown_tail, tail.len(), which);
        lemma_total_of_two(new_front, shown_scanned, tail.len(), which);
        lemma_total_prefix(front, shown_head, shown_head.len(), which);
        lemma_total_prefix(new_front, shown_head, shown_head.len(), which);
        let h = total(shown_head, which, shown_head.len());
        assert(total(front, which, front.len()) == h.spec_plus(amount_of(kept, which)));
        assert(total(new_front, which, new_front.len()) == h.spec_plus(amount_of(kept_after, which)));
        lemma_regroup::<V::Number>(h, amount_of(kept, which), total(shown_tail, which, tail.len()));
        lemma_regroup::<V::Number>(
            h,
            amount_of(kept_after, which),
            total(shown_scanned, which, tail.len()),
        );
        let rest = graph.remove(iu);
        assert forall|key: usize, o: usize| #[trigger] recorded(after.1, key, o) implies group(
            key as int,
        ) == group(key + 1 + o) by {
            if recorded(rest, key, o) {
                assert(recorded(graph, key, o));
            } else {
                let m = scanned.2->Some_0;
                assert(scanned.2 is Some);
                assert(after.1 == graph_attach(rest, (i + 1 + m) as usize, handed_over(offsets, m)));
                assert(key == i + 1 + m);
                assert(handed_over(offsets, m).contains(o));
                let shifted = (o + m + 1) as usize;
                assert(offsets.contains(shifted));
                assert(offsets.contains(m));
                assert(recorded(graph, iu, m));
                assert(recorded(graph, iu, shifted));
            }
        }
    } else if graph.contains_key(iu) {
        assert forall|key: usize, o: usize| #[trigger] recorded(after.1, key, o) implies group(
            key as int,
        ) == group(key + 1 + o) by {
            assert(recorded(graph, key, o));
        }
    }
}

/// To resolve the collisions recorded for the first `k` slots leaves the
/// total of a group as it was.
proof fn lemma_resolution_keeps_the_group<A: Copy, V, Param>(
    slots: Seq<Option<Particle<V, NewtonColoumb<A, V, Param>, V::Number>>>,
    graph: Map<usize, Set<usize>>,
    k: nat,
    params: Param,
    group: spec_fn(int) -> bool,
    which: Attribute,
) where
    V: NewtonState<CartesianState = A>,
    V::Number: Scalar,
    Param: NewtonParams<Number = V::Number> + CollisionParams<Number = V::Number>,

    requires
        additions_are_exact::<V::Number>(),
        k <= slots.len() <= usize::MAX,
        keeps_to_groups(graph, group),
    ensures
        resolve_scan(slots, graph, k, params).0.len() == slots.len(),
        total_of_group(resolve_scan(slots, graph, k, params).0, which, group) == total_of_group(
            slots,
            which,
            group,
        ),
        keeps_to_groups(resolve_scan(slots, graph, k, params).1, group),
    decreases k,
{
    if k > 0 {
        lemma_resolution_keeps_the_group(slots, graph, (k - 1) as nat, params, group, which);
        let before = resolve_scan(slots, graph, (k - 1) as nat, params);
        lemma_key_keeps_the_group(before.0, before.1, k - 1, params, group, which);
    }
}

/// Each cluster keeps its parity, charge and mass. Sort the slots into
/// those of a group and the others, in any way that puts two particles
/// that collide on the same side: the particles that chains of collisions
/// link with a given one are such a group. Computed without rounding, the
/// particles of the group carry as much of each attribute after the forces
/// have been computed afresh and the collisions resolved as they did
/// before. So where one particle is left of a cluster, it carries the
/// parities, the charges and the masses of all.
pub proof fn law_a_cluster_keeps_its_attributes<A: Copy, V, Param>(
    slots: Seq<Option<Particle<V, NewtonColoumb<A, V, Param>, V::Number>>>,
    params: Param,
    group: spec_fn(int) -> bool,
    which: Attribute,
) where
    V: NewtonState<CartesianState = A>,
    V::Number: Scalar,
    Param: NewtonParams<Number = V::Number> + CollisionParams<Number = V::Number>,

    requires
        additions_are_exact::<V::Number>(),
        slots.len() <= usize::MAX,
        forall|a: int, b: int| #[trigger] pair_collides(slots, a, b, params) ==> group(a) == group(b),
    ensures
        macro_resolved(slots, params).len() == slots.len(),
        total_of_group(macro_resolved(slots, params), which, group) == total_of_group(slots, which, group),
{
    let empty = Map::<usize, Set<usize>>::empty();
    law_the_pass_finds_the_collisions(slots, params);
    let found = accumulate(reset_all(slots, params), empty, slots.len(), params);
    assert(same_bodies(slots, found.0));
    let shown = within(slots, group, 0);
    let shown_found = within(found.0, group, 0);
    assert forall|k: int| 0 <= k < slots.len() implies amount_of(shown_found[k], which)
        == amount_of(shown[k], which) by {
        if slots[k] is Some {
            assert(amount(found.0[k]->Some_0, which) == amount(slots[k]->Some_0, which));
        }
    }
    lemma_total_prefix(shown_found, shown, slots.len(), which);
    assert forall|key: usize, o: usize| #[trigger] recorded(found.1, key, o) implies group(
        key as int,
    ) == group(key + 1 + o) by {
        assert(pair_collides(slots, key as int, key + 1 + o, params));
    }
    lemma_resolution_keeps_the_group(found.0, found.1, slots.len(), params, group, which);
}

/// Computed without rounding, the particles of a group that collisions do
/// not lead out of carry as much parity, charge and mass after a tick of
/// the solver on which the forces are computed afresh as they did before
/// it, where every particle outlives the tick. A particle that dies of a
/// failed solver run takes what it carries with it.
pub proof fn law_a_tick_keeps_the_attributes<A: Copy, V, Param, I>(
    params: Param,
    integrator: I,
    before: (
        Seq<Option<Particle<V, NewtonColoumb<A, V, Param>, V::Number>>>,
        Seq<Seq<V>>,
        usize,
        Map<usize, Set<usize>>,
    ),
    after: (
        Seq<Option<Particle<V, NewtonColoumb<A, V, Param>, V::Number>>>,
        Seq<Seq<V>>,
        usize,
        Map<usize, Set<usize>>,
    ),
    group: spec_fn(int) -> bool,
    which: Attribute,
) where
    V: NewtonState<CartesianState = A> + ValidStateCheck,
    V::Number: Scalar,
    Param: NewtonParams<Number = V::Number> + CollisionParams<Number = V::Number>
        + IntegrationParams,
    I: Integrator<Input = Particle<V, NewtonColoumb<A, V, Param>, V::Number>, Output = V>,

    requires
        additions_are_exact::<V::Number>(),
        before.0.len() <= usize::MAX,
        ticked(params, integrator, before, after),
        before.2 >= params.spec_integration_steps(),
        forall|a: int, b: int| #[trigger]
            pair_collides(before.0, a, b, params) ==> group(a) == group(b),
        forall|k: int|
            0 <= k < before.0.len() && #[trigger] macro_resolved(before.0, params)[k] is Some
                ==> after.0[k] is Some,
    ensures
        after.0.len() == before.0.len(),
        total_of_group(after.0, which, group) == total_of_group(before.0, which, group),
{
    let resolved = macro_resolved(before.0, params);
    law_a_force_computation_keeps_or_kills(params, integrator, before, after);
    law_a_cluster_keeps_its_attributes(before.0, params, group, which);
    let shown = within(after.0, group, 0);
    let shown_resolved = within(resolved, group, 0);
    assert forall|k: int| 0 <= k < before.0.len() implies amount_of(shown[k], which) == amount_of(
        shown_resolved[k],
        which,
    ) by {
        if after.0[k] != resolved[k] {
            assert(after.0[k] is None);
            assert(resolved[k] is None);
        }
    }
    lemma_total_prefix(shown, shown_resolved, before.0.len(), which);
}

} // verus!
