//! What the pass over all pairs finds: under the force law of charges and
//! masses, the particles that are marked and the pairs that are recorded
//! are exactly those that overlap.
use vstd::prelude::*;
use crate::collision_graph::graph_insert;
use crate::coulomb::NewtonColoumb;
use crate::newton::{CollisionParams, NewtonParams, NewtonState};
use crate::particle::Particle;
use crate::scalar::Scalar;
use crate::solver::{accumulate, overlapping, reset_all, row_step, tail_scan, tail_step};

verus! {

/// Whether the graph holds the collision of particle `i` with its successor
/// at `offset`.
pub open spec fn recorded(graph: Map<usize, Set<usize>>, i: usize, offset: usize) -> bool {
    graph.contains_key(i) && graph[i].contains(offset)
}

/// Whether two particles are the same body: they differ at most in the
/// force that acts on them and in the mark of a collision.
pub open spec fn same_body<V, F, R>(a: Particle<V, F, R>, b: Particle<V, F, R>) -> bool {
    &&& a.short == b.short
    &&& a.mid == b.mid
    &&& a.mass == b.mass
    &&& a.state == b.state
    &&& a.radius == b.radius
}

/// Whether two particles collide: collisions are looked for, and the
/// distance of their positions is less than the sum of their radii.
pub open spec fn touching<A: Copy, V, Param>(
    a: Particle<V, NewtonColoumb<A, V, Param>, V::Number>,
    b: Particle<V, NewtonColoumb<A, V, Param>, V::Number>,
    params: Param,
) -> bool where
    V: NewtonState<CartesianState = A>,
    V::Number: Scalar,
    Param: NewtonParams<Number = V::Number> + CollisionParams<Number = V::Number>,
 {
    params.spec_perform_collision_detection() && overlapping(
        V::spec_norm(NewtonColoumb::<A, V, Param>::separation(a, b)),
        a,
        b,
    )
}

/// Whether the slots `a < b` both hold a particle and the two collide.
pub open spec fn pair_collides<A: Copy, V, Param>(
    slots: Seq<Option<Particle<V, NewtonColoumb<A, V, Param>, V::Number>>>,
    a: int,
    b: int,
    params: Param,
) -> bool where
    V: NewtonState<CartesianState = A>,
    V::Number: Scalar,
    Param: NewtonParams<Number = V::Number> + CollisionParams<Number = V::Number>,
 {
    &&& 0 <= a < b < slots.len()
    &&& slots[a] is Some
    &&& slots[b] is Some
    &&& touching(slots[a]->Some_0, slots[b]->Some_0, params)
}

/// Whether the particle of slot `k` collides with one before it, among the
/// first `r` slots.
pub open spec fn hit_from_before<A: Copy, V, Param>(
    slots: Seq<Option<Particle<V, NewtonColoumb<A, V, Param>, V::Number>>>,
    k: int,
    r: int,
    params: Param,
) -> bool where
    V: NewtonState<CartesianState = A>,
    V::Number: Scalar,
    Param: NewtonParams<Number = V::Number> + CollisionParams<Number = V::Number>,
 {
    exists|a: int| 0 <= a < r && #[trigger] pair_collides(slots, a, k, params)
}

/// Whether the particle of slot `k` collides with one behind it, among the
/// first `c` slots behind it.
pub open spec fn hit_from_behind<A: Copy, V, Param>(
    slots: Seq<Option<Particle<V, NewtonColoumb<A, V, Param>, V::Number>>>,
    k: int,
    c: int,
    params: Param,
) -> bool where
    V: NewtonState<CartesianState = A>,
    V::Number: Scalar,
    Param: NewtonParams<Number = V::Number> + CollisionParams<Number = V::Number>,
 {
    exists|b: int| k < b <= k + c && #[trigger] pair_collides(slots, k, b, params)
}

/// Whether the particle of slot `k` collides with any other particle.
pub open spec fn collides_with_another<A: Copy, V, Param>(
    slots: Seq<Option<Particle<V, NewtonColoumb<A, V, Param>, V::Number>>>,
    k: int,
    params: Param,
) -> bool where
    V: NewtonState<CartesianState = A>,
    V::Number: Scalar,
    Param: NewtonParams<Number = V::Number> + CollisionParams<Number = V::Number>,
 {
    hit_from_before(slots, k, k, params) || hit_from_behind(
        slots,
        k,
        slots.len() - k - 1,
        params,
    )
}

/// What a particle and the slots behind it are after the particle has met
/// the first `k` of them, said directly.
proof fn lemma_tail_scan_finds<A: Copy, V, Param>(
    slots: Seq<Option<Particle<V, NewtonColoumb<A, V, Param>, V::Number>>>,
    p_i: Particle<V, NewtonColoumb<A, V, Param>, V::Number>,
    tail: Seq<Option<Particle<V, NewtonColoumb<A, V, Param>, V::Number>>>,
    graph: Map<usize, Set<usize>>,
    i: usize,
    k: nat,
    params: Param,
) where
    V: NewtonState<CartesianState = A>,
    V::Number: Scalar,
    Param: NewtonParams<Number = V::Number> + CollisionParams<Number = V::Number>,

    requires
        i < slots.len() <= usize::MAX,
        tail.len() == slots.len() - i - 1,
        k <= tail.len(),
        slots[i as int] is Some,
        same_body(slots[i as int]->Some_0, p_i),
        forall|o: int|
            0 <= o < tail.len() ==> (#[trigger] tail[o] is Some <==> slots[i + 1 + o] is Some),
        forall|o: int|
            0 <= o < tail.len() && tail[o] is Some ==> same_body(
                slots[i + 1 + o]->Some_0,
                #[trigger] tail[o]->Some_0,
            ),
    ensures
        ({
            let after = tail_scan(p_i, tail, graph, i, k, params);
            &&& same_body(p_i, after.0)
            &&& after.1.len() == tail.len()
            &&& (forall|o: int|
                0 <= o < tail.len() ==> (#[trigger] after.1[o] is Some <==> tail[o] is Some))
            &&& (forall|o: int|
                0 <= o < tail.len() && tail[o] is Some ==> same_body(
                    tail[o]->Some_0,
                    #[trigger] after.1[o]->Some_0,
                ))
            &&& (forall|o: int| k <= o < tail.len() ==> #[trigger] after.1[o] == tail[o])
            &&& (forall|o: int|
                0 <= o < k && tail[o] is Some ==> (#[trigger] after.1[o]->Some_0.has_collided <==> (
                tail[o]->Some_0.has_collided || pair_collides(slots, i as int, i + 1 + o, params))))
            &&& (after.0.has_collided <==> (p_i.has_collided || hit_from_behind(
                slots,
                i as int,
                k as int,
                params,
            )))
            &&& (forall|key: usize, o: usize| #[trigger]
                recorded(after.2, key, o) <==> (recorded(graph, key, o) || (key == i && o < k
                    && pair_collides(slots, i as int, i + 1 + o, params))))
            &&& (forall|key: usize| #[trigger]
                after.2.contains_key(key) ==> graph.contains_key(key) || key == i)
        }),
    decreases k,
{
    if k > 0 {
        let o = (k - 1) as int;
        lemma_tail_scan_finds(slots, p_i, tail, graph, i, (k - 1) as nat, params);
        let before = tail_scan(p_i, tail, graph, i, (k - 1) as nat, params);
        let after = tail_step(before.0, before.1, before.2, i, o, params);
        assert(before.1[o] == tail[o]);
        let hit = pair_collides(slots, i as int, i + 1 + o, params);
        if tail[o] is Some {
            let p_j = tail[o]->Some_0;
            assert(same_body(slots[i + 1 + o]->Some_0, p_j));
            assert(hit == touching(before.0, p_j, params));
        } else {
            assert(!hit);
        }
        assert(after.0.has_collided <==> (before.0.has_collided || hit));
        assert(hit_from_behind(slots, i as int, k as int, params) <==> (hit_from_behind(
            slots,
            i as int,
            k - 1,
            params,
        ) || hit)) by {
            if hit_from_behind(slots, i as int, k - 1, params) {
                let b = choose|b: int|
                    i < b <= i + (k - 1) && #[trigger] pair_collides(slots, i as int, b, params);
                assert(pair_collides(slots, i as int, b, params));
            }
            if hit {
                assert(pair_collides(slots, i as int, i + 1 + o, params));
            }
            if hit_from_behind(slots, i as int, k as int, params) {
                let b = choose|b: int|
                    i < b <= i + k && #[trigger] pair_collides(slots, i as int, b, params);
                if b < i + k {
                    assert(pair_collides(slots, i as int, b, params));
                }
            }
        }
        assert forall|key: usize, x: usize| #[trigger]
            recorded(after.2, key, x) <==> (recorded(graph, key, x) || (key == i && x < k
                && pair_collides(slots, i as int, i + 1 + x, params))) by {
            assert(recorded(before.2, key, x) <==> (recorded(graph, key, x) || (key == i && x < k
                - 1 && pair_collides(slots, i as int, i + 1 + x, params))));
            if hit {
                assert(after.2 == graph_insert(before.2, i, o as usize));
            } else {
                assert(after.2 == before.2);
            }
        }
        assert forall|key: usize| #[trigger] after.2.contains_key(key) implies graph.contains_key(
            key,
        ) || key == i by {
            if key != i {
                assert(before.2.contains_key(key));
            }
        }
        assert forall|x: int| 0 <= x < k && tail[x] is Some implies (
        #[trigger] after.1[x]->Some_0.has_collided <==> (tail[x]->Some_0.has_collided
            || pair_collides(slots, i as int, i + 1 + x, params))) by {
            if x < o {
                assert(after.1[x] == before.1[x]);
                assert(before.1[x]->Some_0.has_collided <==> (tail[x]->Some_0.has_collided
                    || pair_collides(slots, i as int, i + 1 + x, params)));
            }
        }
        assert forall|x: int| 0 <= x < tail.len() && tail[x] is Some implies same_body(
            tail[x]->Some_0,
            #[trigger] after.1[x]->Some_0,
        ) by {
            assert(same_body(tail[x]->Some_0, before.1[x]->Some_0));
        }
        assert forall|x: int| 0 <= x < tail.len() implies (#[trigger] after.1[x] is Some
            <==> tail[x] is Some) by {
            assert(before.1[x] is Some <==> tail[x] is Some);
        }
    } else {
        assert(!hit_from_behind(slots, i as int, 0, params));
    }
}

/// Whether two arrays hold the same bodies in the same slots.
pub open spec fn same_bodies<V, F, R>(
    a: Seq<Option<Particle<V, F, R>>>,
    b: Seq<Option<Particle<V, F, R>>>,
) -> bool {
    &&& a.len() == b.len()
    &&& (forall|k: int| 0 <= k < a.len() ==> (#[trigger] b[k] is Some <==> a[k] is Some))
    &&& (forall|k: int|
        0 <= k < a.len() && a[k] is Some ==> same_body(a[k]->Some_0, #[trigger] b[k]->Some_0))
}

/// One more slot to look back at adds the collision with that slot.
proof fn lemma_one_more_before<A: Copy, V, Param>(
    slots: Seq<Option<Particle<V, NewtonColoumb<A, V, Param>, V::Number>>>,
    k: int,
    i: int,
    params: Param,
) where
    V: NewtonState<CartesianState = A>,
    V::Number: Scalar,
    Param: NewtonParams<Number = V::Number> + CollisionParams<Number = V::Number>,

    requires
        0 <= i,
    ensures
        hit_from_before(slots, k, i + 1, params) <==> (hit_from_before(slots, k, i, params)
            || pair_collides(slots, i, k, params)),
{
    if hit_from_before(slots, k, i, params) {
        let a = choose|a: int| 0 <= a < i && #[trigger] pair_collides(slots, a, k, params);
        assert(pair_collides(slots, a, k, params));
    }
    if pair_collides(slots, i, k, params) {
        assert(hit_from_before(slots, k, i + 1, params));
    }
    if hit_from_before(slots, k, i + 1, params) {
        let a = choose|a: int| 0 <= a < i + 1 && #[trigger] pair_collides(slots, a, k, params);
        if a < i {
            assert(pair_collides(slots, a, k, params));
        }
    }
}

/// What the slots and the graph are after the first `rows` slots have each
/// met all the slots behind them, said directly: a particle is marked
/// where it was marked before or collides with a particle of a pair that
/// has been visited, and a pair is recorded where it was recorded before or
/// has been visited and collides.
proof fn lemma_accumulate_finds<A: Copy, V, Param>(
    slots: Seq<Option<Particle<V, NewtonColoumb<A, V, Param>, V::Number>>>,
    start: Seq<Option<Particle<V, NewtonColoumb<A, V, Param>, V::Number>>>,
    graph: Map<usize, Set<usize>>,
    rows: nat,
    params: Param,
) where
    V: NewtonState<CartesianState = A>,
    V::Number: Scalar,
    Param: NewtonParams<Number = V::Number> + CollisionParams<Number = V::Number>,

    requires
        rows <= slots.len() <= usize::MAX,
        same_bodies(slots, start),
    ensures
        ({
            let after = accumulate(start, graph, rows, params);
            &&& same_bodies(slots, after.0)
            &&& (forall|k: int|
                0 <= k < slots.len() && slots[k] is Some ==> (
                #[trigger] after.0[k]->Some_0.has_collided <==> (start[k]->Some_0.has_collided
                    || hit_from_before(slots, k, rows as int, params) || (k < rows
                    && hit_from_behind(slots, k, slots.len() - k - 1, params)))))
            &&& (forall|key: usize, o: usize| #[trigger]
                recorded(after.1, key, o) <==> (recorded(graph, key, o) || (key < rows
                    && pair_collides(slots, key as int, key + 1 + o, params))))
            &&& (forall|key: usize| #[trigger]
                after.1.contains_key(key) ==> graph.contains_key(key) || (key < rows
                    && slots[key as int] is Some))
        }),
    decreases rows,
{
    let n = slots.len() as int;
    if rows > 0 {
        let i = (rows - 1) as int;
        lemma_accumulate_finds(slots, start, graph, (rows - 1) as nat, params);
        let before = accumulate(start, graph, (rows - 1) as nat, params);
        let after = row_step(before.0, before.1, i, params);
        assert(before.0[i] is Some <==> slots[i] is Some);
        assert forall|k: int| 0 <= k < n implies (hit_from_before(slots, k, rows as int, params)
            <==> (hit_from_before(slots, k, i, params) || #[trigger] pair_collides(
            slots,
            i,
            k,
            params,
        ))) by {
            lemma_one_more_before(slots, k, i, params);
        }
        match before.0[i] {
            Some(p_i) => {
                let tail = before.0.subrange(i + 1, n);
                assert(same_body(slots[i]->Some_0, before.0[i]->Some_0));
                assert forall|o: int| 0 <= o < tail.len() implies (#[trigger] tail[o] is Some
                    <==> slots[i + 1 + o] is Some) by {
                    assert(tail[o] == before.0[i + 1 + o]);
                }
                assert forall|o: int| 0 <= o < tail.len() && tail[o] is Some implies same_body(
                    slots[i + 1 + o]->Some_0,
                    #[trigger] tail[o]->Some_0,
                ) by {
                    assert(tail[o] == before.0[i + 1 + o]);
                    assert(same_body(slots[i + 1 + o]->Some_0, before.0[i + 1 + o]->Some_0));
                }
                lemma_tail_scan_finds(slots, p_i, tail, before.1, i as usize, tail.len(), params);
                let scanned = tail_scan(p_i, tail, before.1, i as usize, tail.len(), params);
                assert(after.0 == before.0.subrange(0, i).push(Some(scanned.0)) + scanned.1);
                assert(after.1 == scanned.2);
                assert forall|key: usize| #[trigger] after.1.contains_key(key) implies (
                graph.contains_key(key) || (key < rows && slots[key as int] is Some)) by {
                    if key != i {
                        assert(before.1.contains_key(key));
                    }
                }
                assert forall|k: int| 0 <= k < n implies (#[trigger] after.0[k] is Some
                    <==> slots[k] is Some) by {
                    assert(before.0[k] is Some <==> slots[k] is Some);
                    if k > i {
                        assert(after.0[k] == scanned.1[k - i - 1]);
                        assert(scanned.1[k - i - 1] is Some <==> tail[k - i - 1] is Some);
                    } else if k < i {
                        assert(after.0[k] == before.0[k]);
                    }
                }
                assert forall|k: int| 0 <= k < n && slots[k] is Some implies same_body(
                    slots[k]->Some_0,
                    #[trigger] after.0[k]->Some_0,
                ) by {
                    assert(same_body(slots[k]->Some_0, before.0[k]->Some_0));
                    if k > i {
                        assert(after.0[k] == scanned.1[k - i - 1]);
                        assert(tail[k - i - 1] == before.0[k]);
                        assert(same_body(tail[k - i - 1]->Some_0, scanned.1[k - i - 1]->Some_0));
                    } else if k < i {
                        assert(after.0[k] == before.0[k]);
                    }
                }
                assert forall|k: int| 0 <= k < n && slots[k] is Some implies (
                #[trigger] after.0[k]->Some_0.has_collided <==> (start[k]->Some_0.has_collided
                    || hit_from_before(slots, k, rows as int, params) || (k < rows
                    && hit_from_behind(slots, k, n - k - 1, params)))) by {
                    assert(before.0[k]->Some_0.has_collided <==> (start[k]->Some_0.has_collided
                        || hit_from_before(slots, k, i, params) || (k < i && hit_from_behind(
                        slots,
                        k,
                        n - k - 1,
                        params,
                    ))));
                    assert(hit_from_before(slots, k, rows as int, params) <==> (hit_from_before(
                        slots,
                        k,
                        i,
                        params,
                    ) || pair_collides(slots, i, k, params)));
                    if k > i {
                        let o = k - i - 1;
                        assert(after.0[k] == scanned.1[o]);
                        assert(tail[o] == before.0[k]);
                        assert(scanned.1[o]->Some_0.has_collided <==> (
                        tail[o]->Some_0.has_collided || pair_collides(
                            slots,
                            i,
                            i + 1 + o,
                            params,
                        )));
                    } else if k < i {
                        assert(after.0[k] == before.0[k]);
                        assert(!pair_collides(slots, i, k, params));
                    } else {
                        assert(after.0[k] == Some(scanned.0));
                        assert(!pair_collides(slots, i, k, params));
                    }
                }
                assert forall|key: usize, o: usize| #[trigger]
                    recorded(after.1, key, o) <==> (recorded(graph, key, o) || (key < rows
                        && pair_collides(slots, key as int, key + 1 + o, params))) by {
                    assert(recorded(before.1, key, o) <==> (recorded(graph, key, o) || (key < i
                        && pair_collides(slots, key as int, key + 1 + o, params))));
                    assert(recorded(scanned.2, key, o) <==> (recorded(before.1, key, o) || (key
                        == i && o < tail.len() && pair_collides(slots, i, i + 1 + o, params))));
                }
            },
            None => {
                assert(after == before);
                assert forall|k: int| 0 <= k < n && slots[k] is Some implies (
                #[trigger] after.0[k]->Some_0.has_collided <==> (start[k]->Some_0.has_collided
                    || hit_from_before(slots, k, rows as int, params) || (k < rows
                    && hit_from_behind(slots, k, n - k - 1, params)))) by {
                    assert(before.0[k]->Some_0.has_collided <==> (start[k]->Some_0.has_collided
                        || hit_from_before(slots, k, i, params) || (k < i && hit_from_behind(
                        slots,
                        k,
                        n - k - 1,
                        params,
                    ))));
                    assert(!pair_collides(slots, i, k, params));
                    assert(k != i);
                }
                assert forall|key: usize, o: usize| #[trigger]
                    recorded(after.1, key, o) <==> (recorded(graph, key, o) || (key < rows
                        && pair_collides(slots, key as int, key + 1 + o, params))) by {
                    assert(recorded(before.1, key, o) <==> (recorded(graph, key, o) || (key < i
                        && pair_collides(slots, key as int, key + 1 + o, params))));
                }
            },
        }
    } else {
        assert forall|k: int| 0 <= k < n implies !hit_from_before(slots, k, 0, params) by {}
    }
}

/// After all pairs of an ensemble of charges and masses have been visited,
/// starting from unmarked particles and an empty graph, the particles are
/// the bodies they were, a particle is marked exactly where it collides
/// with another one, and a pair is recorded, under its first member and
/// the offset of the second, exactly where the two collide. The graph holds
/// an entry for the slots of particles only. Two particles
/// collide where collisions are looked for and the distance of their
/// positions is less than the sum of their radii.
pub proof fn law_the_pass_finds_the_collisions<A: Copy, V, Param>(
    slots: Seq<Option<Particle<V, NewtonColoumb<A, V, Param>, V::Number>>>,
    params: Param,
) where
    V: NewtonState<CartesianState = A>,
    V::Number: Scalar,
    Param: NewtonParams<Number = V::Number> + CollisionParams<Number = V::Number>,

    requires
        slots.len() <= usize::MAX,
    ensures
        ({
            let after = accumulate(reset_all(slots, params), Map::empty(), slots.len(), params);
            &&& same_bodies(slots, after.0)
            &&& (forall|k: int|
                0 <= k < slots.len() && slots[k] is Some ==> (
                #[trigger] after.0[k]->Some_0.has_collided <==> collides_with_another(
                    slots,
                    k,
                    params,
                )))
            &&& (forall|key: usize, o: usize| #[trigger]
                recorded(after.1, key, o) <==> pair_collides(
                    slots,
                    key as int,
                    key + 1 + o,
                    params,
                ))
            &&& (forall|key: usize| #[trigger]
                after.1.contains_key(key) ==> key < slots.len() && slots[key as int] is Some)
        }),
{
    let start = reset_all(slots, params);
    assert(same_bodies(slots, start));
    lemma_accumulate_finds(slots, start, Map::empty(), slots.len(), params);
    let after = accumulate(start, Map::empty(), slots.len(), params);
    assert forall|k: int| 0 <= k < slots.len() && slots[k] is Some implies (
    #[trigger] after.0[k]->Some_0.has_collided <==> collides_with_another(slots, k, params)) by {
        assert(!start[k]->Some_0.has_collided);
        lemma_hits_before_are_before(slots, k, slots.len() as int, params);
    }
}

/// A particle collides only with particles before it when looking back: to
/// look back further than its own slot finds nothing more.
proof fn lemma_hits_before_are_before<A: Copy, V, Param>(
    slots: Seq<Option<Particle<V, NewtonColoumb<A, V, Param>, V::Number>>>,
    k: int,
    r: int,
    params: Param,
) where
    V: NewtonState<CartesianState = A>,
    V::Number: Scalar,
    Param: NewtonParams<Number = V::Number> + CollisionParams<Number = V::Number>,

    requires
        k <= r,
    ensures
        hit_from_before(slots, k, r, params) <==> hit_from_before(slots, k, k, params),
{
    if hit_from_before(slots, k, r, params) {
        let a = choose|a: int| 0 <= a < r && #[trigger] pair_collides(slots, a, k, params);
        assert(pair_collides(slots, a, k, params));
    }
    if hit_from_before(slots, k, k, params) {
        let a = choose|a: int| 0 <= a < k && #[trigger] pair_collides(slots, a, k, params);
        assert(pair_collides(slots, a, k, params));
    }
}

} // verus!
