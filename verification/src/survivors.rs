//! Who is left after the collisions of particles that merge: of the
//! particles that are linked by collisions, the last one, and it alone.
use vstd::prelude::*;
use crate::collision_graph::{graph_attach, handed_over};
use crate::components::{
    adjacent, collide, handed_on, lemma_join, lemma_linked_before, lemma_same_collisions,
    lemma_step, lemma_still_linked, lemma_turn, linked, linked_to_a_later, linked_within,
};
use crate::conservation::{
    additions_are_exact, amount, law_a_cluster_keeps_its_attributes, lemma_total_of_one,
    total_of_group, within, Attribute,
};
use crate::coulomb::NewtonColoumb;
use crate::detection::{law_the_pass_finds_the_collisions, pair_collides, recorded, same_body};
use crate::newton::{CollisionParams, Force, NewtonParams, NewtonState};
use crate::particle::Particle;
use crate::resolution::{graph_is_sound, lemma_resolve_key_keeps};
use crate::scalar::Scalar;
use crate::solver::{
    accumulate, macro_resolved, reset_all, resolve_key, resolve_scan, successor_step,
    successors_scan,
};

verus! {

/// Whether the particles of a kind merge with one another into particles of
/// the same kind: a collision of two of them leaves the first one alone,
/// and what it leaves is of the kind again.
pub open spec fn merges_its_kind<F: Force>(
    kind: spec_fn(F::Cause) -> bool,
    params: F::Params,
) -> bool {
    forall|p: F::Cause, q: F::Cause|
        kind(p) && kind(q) ==> (#[trigger] F::spec_collision(p, q, params)).1 is None && kind(
            F::spec_collision(p, q, params).0,
        )
}

/// Whether every particle of the array is of the kind.
pub open spec fn all_of_kind<P>(slots: Seq<Option<P>>, kind: spec_fn(P) -> bool) -> bool {
    forall|k: int| 0 <= k < slots.len() && (#[trigger] slots[k]) is Some ==> kind(slots[k]->Some_0)
}

/// Whether every slot for which the graph holds an entry is occupied.
pub open spec fn keys_are_live<P>(graph: Map<usize, Set<usize>>, slots: Seq<Option<P>>) -> bool {
    forall|key: usize| #[trigger]
        graph.contains_key(key) ==> key < slots.len() && slots[key as int] is Some
}

/// Whether the graph holds a collision of the slot `i` with a later one.
pub open spec fn has_successor(graph: Map<usize, Set<usize>>, i: usize) -> bool {
    exists|o: usize| #[trigger] recorded(graph, i, o)
}

/// Among particles of a kind that merges, a particle is absorbed by the
/// first of its pending successors, and no other successor is touched.
proof fn lemma_first_pending_absorbs<V, F, R, S>(
    p_i: Option<Particle<V, F, R>>,
    tail: Seq<Option<Particle<V, F, R>>>,
    offsets: Set<usize>,
    k: nat,
    params: S,
    kind: spec_fn(Particle<V, F, R>) -> bool,
) where F: Force<Cause = Particle<V, F, R>, Params = S>
    requires
        k <= tail.len() <= usize::MAX,
        merges_its_kind::<F>(kind, params),
        p_i is Some,
        kind(p_i->Some_0),
        all_of_kind(tail, kind),
        forall|o: usize| #[trigger] offsets.contains(o) && o < k ==> tail[o as int] is Some,
    ensures
        ({
            let after = successors_scan(p_i, tail, offsets, k, params);
            &&& after.1.len() == tail.len()
            &&& all_of_kind(after.1, kind)
            &&& (forall|j: int|
                0 <= j < tail.len() ==> (#[trigger] after.1[j] is Some <==> tail[j] is Some))
            &&& (after.2 is Some ==> after.2->Some_0 < k && offsets.contains(after.2->Some_0)
                && after.0 is None && (forall|o: usize| #[trigger]
                offsets.contains(o) ==> after.2->Some_0 <= o))
            &&& (after.2 is None ==> after == (p_i, tail, None::<usize>) && (forall|o: usize| #[trigger]
                offsets.contains(o) ==> k <= o))
        }),
    decreases k,
{
    if k > 0 {
        lemma_first_pending_absorbs(p_i, tail, offsets, (k - 1) as nat, params, kind);
        let before = successors_scan(p_i, tail, offsets, (k - 1) as nat, params);
        let after = successor_step(before.0, before.1, before.2, offsets, k - 1, params);
        assert(((k - 1) as int) as usize == k - 1);
        if before.2 is None {
            if offsets.contains((k - 1) as usize) {
                assert(tail[k - 1] is Some);
                let p = p_i->Some_0;
                let p_j = tail[k - 1]->Some_0;
                assert(kind(p_j));
                let collided = F::spec_collision(p_j, p, params);
                assert(collided.1 is None && kind(collided.0));
                assert(after.1 == tail.update(k - 1, Some(collided.0)));
                assert(after.2 == Some((k - 1) as usize));
                assert forall|j: int| 0 <= j < tail.len() && (#[trigger] after.1[j])
                    is Some implies kind(after.1[j]->Some_0) by {
                    if j != k - 1 {
                        assert(after.1[j] == tail[j]);
                    }
                }
            } else {
                assert(after == before);
                assert forall|o: usize| #[trigger] offsets.contains(o) implies k <= o by {
                    assert(k - 1 <= o);
                }
            }
        } else {
            assert(after == before);
        }
    }
}

/// What it does to resolve the collisions of slot `i` among particles of a
/// kind that merges: the particle is left exactly where no collision with
/// a later one is recorded for it, and its collisions are handed on to the
/// successor that absorbs it.
proof fn lemma_key_hands_on<V, F, R, S>(
    slots: Seq<Option<Particle<V, F, R>>>,
    graph: Map<usize, Set<usize>>,
    i: int,
    params: S,
    kind: spec_fn(Particle<V, F, R>) -> bool,
) where F: Force<Cause = Particle<V, F, R>, Params = S>
    requires
        0 <= i < slots.len() <= usize::MAX,
        graph_is_sound(graph, slots),
        keys_are_live(graph, slots),
        forall|key: usize| #[trigger] graph.contains_key(key) ==> i <= key,
        all_of_kind(slots, kind),
        merges_its_kind::<F>(kind, params),
    ensures
        ({
            let after = resolve_key(slots, graph, i, params);
            &&& after.0.len() == slots.len()
            &&& (forall|j: int| 0 <= j < i ==> after.0[j] == slots[j])
            &&& (forall|j: int|
                i < j < slots.len() ==> (#[trigger] after.0[j] is Some <==> slots[j] is Some))
            &&& (after.0[i] is Some <==> slots[i] is Some && !has_successor(graph, i as usize))
            &&& all_of_kind(after.0, kind)
            &&& graph_is_sound(after.1, after.0)
            &&& keys_are_live(after.1, after.0)
            &&& (forall|key: usize| #[trigger] after.1.contains_key(key) ==> i < key)
            &&& (exists|heir: int| handed_on(graph, after.1, i, heir))
        }),
{
    let after = resolve_key(slots, graph, i, params);
    lemma_resolve_key_keeps(slots, graph, i, params);
    let iu = i as usize;
    // No collision of an earlier slot with this one is pending.
    assert forall|x: int| !collide(graph, x, i) by {
        if collide(graph, x, i) {
            assert(graph.contains_key(x as usize));
        }
    }
    if !graph.contains_key(iu) {
        assert(after == (slots, graph));
        assert(!has_successor(graph, iu)) by {
            if has_successor(graph, iu) {
                let o = choose|o: usize| #[trigger] recorded(graph, iu, o);
                assert(recorded(graph, iu, o));
            }
        }
        assert(handed_on(graph, after.1, i, i));
    } else {
        assert(slots[i] is Some);
        let head = slots.subrange(0, i);
        let tail = slots.subrange(i + 1, slots.len() as int);
        let offsets = graph[iu];
        assert(all_of_kind(tail, kind)) by {
            assert forall|k: int| 0 <= k < tail.len() && (#[trigger] tail[k]) is Some implies kind(
                tail[k]->Some_0,
            ) by {
                assert(tail[k] == slots[i + 1 + k]);
            }
        }
        assert forall|o: usize| #[trigger] offsets.contains(o) && o < tail.len() implies tail[o as int]
            is Some by {
            assert(slots[i + 1 + o] is Some);
            assert(tail[o as int] == slots[i + 1 + o]);
        }
        lemma_first_pending_absorbs(slots[i], tail, offsets, tail.len(), params, kind);
        let scanned = successors_scan(slots[i], tail, offsets, tail.len(), params);
        let rest = graph.remove(iu);
        assert(after.0 == head.push(scanned.0) + scanned.1);
        assert forall|k: int| 0 <= k < slots.len() && (#[trigger] after.0[k]) is Some implies kind(
            after.0[k]->Some_0,
        ) by {
            if k < i {
                assert(after.0[k] == slots[k]);
            } else if k == i {
                assert(after.0[k] == scanned.0);
                assert(scanned.2 is None);
            } else {
                assert(after.0[k] == scanned.1[k - i - 1]);
            }
        }
        match scanned.2 {
            None => {
                assert(after.1 == rest);
                assert forall|o: usize| !recorded(graph, iu, o) by {
                    if recorded(graph, iu, o) {
                        assert(offsets.contains(o));
                        assert(i + 1 + o < slots.len());
                    }
                }
                assert(!has_successor(graph, iu));
                assert(after.0[i] == slots[i]);
                assert forall|x: int| !collide(graph, i, x) by {
                    if collide(graph, i, x) {
                        assert(recorded(graph, iu, (x - i - 1) as usize));
                    }
                }
                assert forall|x: int, y: int|
                    x != i && y != i && #[trigger] adjacent(graph, x, y) implies adjacent(
                    rest,
                    x,
                    y,
                ) by {
                    if collide(graph, x, y) {
                        assert(recorded(rest, x as usize, (y - x - 1) as usize));
                    } else {
                        assert(recorded(rest, y as usize, (x - y - 1) as usize));
                    }
                }
                assert forall|x: int, y: int| #[trigger] adjacent(rest, x, y) implies adjacent(
                    graph,
                    x,
                    y,
                ) by {
                    if collide(rest, x, y) {
                        assert(recorded(graph, x as usize, (y - x - 1) as usize));
                    } else {
                        assert(recorded(graph, y as usize, (x - y - 1) as usize));
                    }
                }
                assert(handed_on(graph, after.1, i, i));
                assert forall|key: usize| #[trigger] after.1.contains_key(key) implies key
                    < slots.len() && after.0[key as int] is Some by {
                    assert(graph.contains_key(key));
                    assert(i < key);
                    assert(slots[key as int] is Some);
                }
            },
            Some(m) => {
                let heir = i + 1 + m;
                let handed = handed_over(offsets, m);
                assert(offsets.contains(m));
                assert(heir < slots.len());
                assert(after.1 == graph_attach(rest, heir as usize, handed));
                assert(recorded(graph, iu, m));
                assert(has_successor(graph, iu));
                assert(after.0[i] == scanned.0);
                assert forall|key: usize, o: usize| recorded(rest, key, o) implies recorded(
                    after.1,
                    key,
                    o,
                ) by {}
                assert forall|key: usize, o: usize| recorded(after.1, key, o) implies recorded(
                    rest,
                    key,
                    o,
                ) || (key == heir && handed.contains(o)) by {}
                assert forall|o: usize| handed.contains(o) implies recorded(
                    after.1,
                    heir as usize,
                    o,
                ) by {
                    assert(!(handed =~= Set::<usize>::empty()));
                }
                assert forall|x: int, y: int|
                    x != i && y != i && #[trigger] adjacent(graph, x, y) implies adjacent(
                    after.1,
                    x,
                    y,
                ) by {
                    if collide(graph, x, y) {
                        assert(recorded(rest, x as usize, (y - x - 1) as usize));
                        assert(recorded(after.1, x as usize, (y - x - 1) as usize));
                    } else {
                        assert(recorded(rest, y as usize, (x - y - 1) as usize));
                        assert(recorded(after.1, y as usize, (x - y - 1) as usize));
                    }
                }
                assert forall|x: int| #[trigger] adjacent(graph, i, x) implies x == heir
                    || adjacent(after.1, heir, x) by {
                    assert(collide(graph, i, x));
                    let o = (x - i - 1) as usize;
                    assert(offsets.contains(o));
                    assert(m <= o);
                    if o != m {
                        let rel = (o - m - 1) as usize;
                        assert(rel + m + 1 == o);
                        assert(handed.contains(rel));
                        assert(recorded(after.1, heir as usize, rel));
                        assert(collide(after.1, heir, x));
                    }
                }
                assert forall|x: int, y: int| #[trigger] adjacent(after.1, x, y) implies adjacent(
                    graph,
                    x,
                    y,
                ) || (adjacent(graph, i, x) && adjacent(graph, i, y)) by {
                    let (lo, hi) = if collide(after.1, x, y) {
                        (x, y)
                    } else {
                        (y, x)
                    };
                    assert(collide(after.1, lo, hi));
                    let o = (hi - lo - 1) as usize;
                    assert(recorded(after.1, lo as usize, o));
                    if recorded(rest, lo as usize, o) {
                        assert(recorded(graph, lo as usize, o));
                        assert(collide(graph, lo, hi));
                    } else {
                        assert(lo == heir && handed.contains(o));
                        let shifted = (o + m + 1) as usize;
                        assert(offsets.contains(shifted));
                        assert(recorded(graph, iu, shifted));
                        assert(i + 1 + shifted < slots.len());
                        assert(collide(graph, i, hi));
                        assert(collide(graph, i, lo));
                    }
                }
                assert(handed_on(graph, after.1, i, heir));
                assert forall|key: usize| #[trigger] after.1.contains_key(key) implies key
                    < slots.len() && after.0[key as int] is Some by {
                    if rest.contains_key(key) {
                        assert(graph.contains_key(key));
                        assert(i < key);
                        assert(slots[key as int] is Some);
                    } else {
                        assert(key == heir);
                        assert(slots[heir] is Some);
                    }
                    assert(after.0[key as int] is Some <==> slots[key as int] is Some);
                }
            },
        }
    }
}

/// What it does to resolve the collisions of the first `k` slots among
/// particles of a kind that merges: the slots behind them are linked by the
/// collisions still pending exactly where they were linked at first, and
/// a particle among the first `k` is left exactly where no chain of
/// collisions led from it to a later slot.
proof fn lemma_resolution_hands_on<V, F, R, S>(
    slots: Seq<Option<Particle<V, F, R>>>,
    graph: Map<usize, Set<usize>>,
    k: nat,
    params: S,
    kind: spec_fn(Particle<V, F, R>) -> bool,
) where F: Force<Cause = Particle<V, F, R>, Params = S>
    requires
        k <= slots.len() <= usize::MAX,
        graph_is_sound(graph, slots),
        keys_are_live(graph, slots),
        all_of_kind(slots, kind),
        merges_its_kind::<F>(kind, params),
    ensures
        ({
            let after = resolve_scan(slots, graph, k, params);
            &&& after.0.len() == slots.len()
            &&& (forall|j: int|
                k <= j < slots.len() ==> (#[trigger] after.0[j] is Some <==> slots[j] is Some))
            &&& all_of_kind(after.0, kind)
            &&& graph_is_sound(after.1, after.0)
            &&& keys_are_live(after.1, after.0)
            &&& (forall|key: usize| #[trigger] after.1.contains_key(key) ==> k <= key)
            &&& (forall|a: int, b: int|
                k <= a && k <= b && #[trigger] linked(graph, a, b) ==> linked(after.1, a, b))
            &&& (forall|a: int, b: int| #[trigger] linked(after.1, a, b) ==> linked(graph, a, b))
            &&& (forall|a: int|
                0 <= a < k ==> (#[trigger] after.0[a] is Some <==> slots[a] is Some
                    && !linked_to_a_later(graph, a)))
        }),
    decreases k,
{
    if k > 0 {
        let i = (k - 1) as int;
        lemma_resolution_hands_on(slots, graph, (k - 1) as nat, params, kind);
        let before = resolve_scan(slots, graph, (k - 1) as nat, params);
        lemma_key_hands_on(before.0, before.1, i, params, kind);
        let after = resolve_key(before.0, before.1, i, params);
        let heir = choose|heir: int| handed_on(before.1, after.1, i, heir);
        assert forall|a: int, b: int| k <= a && k <= b && #[trigger] linked(
            graph,
            a,
            b,
        ) implies linked(after.1, a, b) by {
            assert(linked(before.1, a, b));
            lemma_still_linked(before.1, after.1, i, heir, a, b);
        }
        assert forall|a: int, b: int| #[trigger] linked(after.1, a, b) implies linked(
            graph,
            a,
            b,
        ) by {
            lemma_linked_before(before.1, after.1, i, heir, a, b);
            assert(linked(before.1, a, b));
        }
        assert(has_successor(before.1, i as usize) <==> linked_to_a_later(graph, i)) by {
            if has_successor(before.1, i as usize) {
                let o = choose|o: usize| #[trigger] recorded(before.1, i as usize, o);
                assert(recorded(before.1, i as usize, o));
                assert(i + 1 + o < slots.len());
                assert(collide(before.1, i, i + 1 + o));
                lemma_step(before.1, i, i + 1 + o);
                assert(linked(graph, i, i + 1 + o));
            }
            if linked_to_a_later(graph, i) {
                let b = choose|b: int| i < b && #[trigger] linked(graph, i, b);
                assert(linked(before.1, i, b));
                let n = choose|n: nat| linked_within(before.1, i, b, n);
                let c = choose|c: int| #[trigger]
                    adjacent(before.1, i, c) && linked_within(before.1, c, b, (n - 1) as nat);
                if collide(before.1, c, i) {
                    assert(before.1.contains_key(c as usize));
                }
                assert(collide(before.1, i, c));
                assert(recorded(before.1, i as usize, (c - i - 1) as usize));
            }
        }
        assert forall|a: int| 0 <= a < k implies (#[trigger] after.0[a] is Some <==> slots[a]
            is Some && !linked_to_a_later(graph, a)) by {
            if a < i {
                assert(after.0[a] == before.0[a]);
            } else {
                assert(before.0[i] is Some <==> slots[i] is Some);
            }
        }
        assert forall|j: int| k <= j < slots.len() implies (#[trigger] after.0[j] is Some
            <==> slots[j] is Some) by {
            assert(before.0[j] is Some <==> slots[j] is Some);
        }
    } else {
        assert(resolve_scan(slots, graph, 0, params) == (slots, graph));
    }
}

/// One particle is left of those that are linked by collisions. Where all
/// particles are of a kind that merges with its own kind into its own
/// kind, a particle is there after the collisions have been resolved
/// exactly where it was there before and no chain of recorded collisions
/// leads from it to a later particle: of the particles that such chains
/// link, the last one is left, and it alone. So no particle with a
/// recorded successor outlives the resolution, no slot that was empty is
/// filled, and nothing is left in the graph.
pub proof fn law_the_last_of_the_linked_is_left<V, F, R, S>(
    slots: Seq<Option<Particle<V, F, R>>>,
    graph: Map<usize, Set<usize>>,
    params: S,
    kind: spec_fn(Particle<V, F, R>) -> bool,
) where F: Force<Cause = Particle<V, F, R>, Params = S>
    requires
        slots.len() <= usize::MAX,
        graph_is_sound(graph, slots),
        keys_are_live(graph, slots),
        all_of_kind(slots, kind),
        merges_its_kind::<F>(kind, params),
    ensures
        resolve_scan(slots, graph, slots.len(), params).0.len() == slots.len(),
        resolve_scan(slots, graph, slots.len(), params).1 =~= Map::<usize, Set<usize>>::empty(),
        forall|a: int|
            0 <= a < slots.len() ==> (#[trigger] resolve_scan(
                slots,
                graph,
                slots.len(),
                params,
            ).0[a] is Some <==> slots[a] is Some && !linked_to_a_later(graph, a)),
        forall|key: usize, o: usize| #[trigger]
            recorded(graph, key, o) ==> resolve_scan(slots, graph, slots.len(), params).0[key as int]
                is None,
{
    lemma_resolution_hands_on(slots, graph, slots.len(), params, kind);
    let after = resolve_scan(slots, graph, slots.len(), params);
    assert forall|key: usize| !after.1.contains_key(key) by {
        if after.1.contains_key(key) {
            assert(slots.len() <= key);
            assert(key < after.0.len());
        }
    }
    assert forall|key: usize, o: usize| #[trigger] recorded(graph, key, o) implies after.0[key as int]
        is None by {
        assert(key + 1 + o < slots.len());
        assert(collide(graph, key as int, key + 1 + o));
        lemma_step(graph, key as int, key + 1 + o);
        assert(linked_to_a_later(graph, key as int));
    }
}

/// One particle is left of a cluster. Take an ensemble of charges and
/// masses whose particles are all of a kind that merges with its own kind
/// into its own kind, the kind of a particle being a matter of the body
/// alone, and let `graph` hold the pairs of particles that collide. After
/// the forces have been computed afresh and the collisions resolved, a
/// particle is there exactly where it was there before and no chain of
/// collisions leads from it to a later particle: of the particles that
/// such chains link, the last one is left, and it alone.
pub proof fn law_one_particle_is_left_of_a_cluster<A: Copy, V, Param>(
    slots: Seq<Option<Particle<V, NewtonColoumb<A, V, Param>, V::Number>>>,
    graph: Map<usize, Set<usize>>,
    params: Param,
    kind: spec_fn(Particle<V, NewtonColoumb<A, V, Param>, V::Number>) -> bool,
) where
    V: NewtonState<CartesianState = A>,
    V::Number: Scalar,
    Param: NewtonParams<Number = V::Number> + CollisionParams<Number = V::Number>,

    requires
        slots.len() <= usize::MAX,
        params.spec_perform_collision_detection(),
        forall|key: usize, o: usize| #[trigger]
            recorded(graph, key, o) <==> pair_collides(slots, key as int, key + 1 + o, params),
        all_of_kind(slots, kind),
        forall|
            p: Particle<V, NewtonColoumb<A, V, Param>, V::Number>,
            q: Particle<V, NewtonColoumb<A, V, Param>, V::Number>,
        | #[trigger] same_body(p, q) ==> kind(p) == kind(q),
        merges_its_kind::<NewtonColoumb<A, V, Param>>(kind, params),
    ensures
        macro_resolved(slots, params).len() == slots.len(),
        forall|a: int|
            0 <= a < slots.len() ==> (#[trigger] macro_resolved(slots, params)[a] is Some
                <==> slots[a] is Some && !linked_to_a_later(graph, a)),
{
    let empty = Map::<usize, Set<usize>>::empty();
    law_the_pass_finds_the_collisions(slots, params);
    let found = accumulate(reset_all(slots, params), empty, slots.len(), params);
    assert(macro_resolved(slots, params) == resolve_scan(found.0, found.1, slots.len(), params).0);
    assert forall|key: usize, o: usize|
        found.1.contains_key(key) && #[trigger] found.1[key].contains(o) implies key + 1 + o
        < found.0.len() && found.0[key + 1 + o] is Some by {
        assert(recorded(found.1, key, o));
        assert(pair_collides(slots, key as int, key + 1 + o, params));
    }
    assert(graph_is_sound(found.1, found.0));
    assert(keys_are_live(found.1, found.0));
    assert forall|k: int| 0 <= k < found.0.len() && (#[trigger] found.0[k]) is Some implies kind(
        found.0[k]->Some_0,
    ) by {
        assert(slots[k] is Some);
        assert(same_body(slots[k]->Some_0, found.0[k]->Some_0));
    }
    law_the_last_of_the_linked_is_left(found.0, found.1, params, kind);
    assert forall|key: usize, o: usize| #[trigger]
        recorded(found.1, key, o) <==> recorded(graph, key, o) by {}
    assert forall|a: int| 0 <= a < slots.len() implies (linked_to_a_later(found.1, a)
        <==> linked_to_a_later(graph, a)) by {
        if linked_to_a_later(found.1, a) {
            let b = choose|b: int| a < b && #[trigger] linked(found.1, a, b);
            lemma_same_collisions(found.1, graph, a, b);
        }
        if linked_to_a_later(graph, a) {
            let b = choose|b: int| a < b && #[trigger] linked(graph, a, b);
            lemma_same_collisions(graph, found.1, a, b);
        }
    }
}

/// The cluster of the slot `a`: the slots from which a chain of recorded
/// collisions leads to `a`.
pub open spec fn cluster_of(graph: Map<usize, Set<usize>>, a: int) -> spec_fn(int) -> bool {
    |x: int| linked(graph, x, a)
}

/// The particle that is left of a cluster carries all that the cluster
/// carried. Take an ensemble of charges and masses whose particles are all
/// of a kind that merges with its own kind into its own kind, and let
/// `graph` hold the pairs of particles that collide. Computed without
/// rounding, a particle that is there after the forces have been computed
/// afresh and the collisions resolved carries the parities, the charges
/// and the masses of all the particles that chains of collisions linked
/// with it.
pub proof fn law_the_survivor_carries_its_cluster<A: Copy, V, Param>(
    slots: Seq<Option<Particle<V, NewtonColoumb<A, V, Param>, V::Number>>>,
    graph: Map<usize, Set<usize>>,
    params: Param,
    kind: spec_fn(Particle<V, NewtonColoumb<A, V, Param>, V::Number>) -> bool,
    a: int,
    which: Attribute,
) where
    V: NewtonState<CartesianState = A>,
    V::Number: Scalar,
    Param: NewtonParams<Number = V::Number> + CollisionParams<Number = V::Number>,

    requires
        additions_are_exact::<V::Number>(),
        slots.len() <= usize::MAX,
        params.spec_perform_collision_detection(),
        forall|key: usize, o: usize| #[trigger]
            recorded(graph, key, o) <==> pair_collides(slots, key as int, key + 1 + o, params),
        all_of_kind(slots, kind),
        forall|
            p: Particle<V, NewtonColoumb<A, V, Param>, V::Number>,
            q: Particle<V, NewtonColoumb<A, V, Param>, V::Number>,
        | #[trigger] same_body(p, q) ==> kind(p) == kind(q),
        merges_its_kind::<NewtonColoumb<A, V, Param>>(kind, params),
        0 <= a < slots.len(),
        macro_resolved(slots, params)[a] is Some,
    ensures
        amount(macro_resolved(slots, params)[a]->Some_0, which) == total_of_group(
            slots,
            which,
            cluster_of(graph, a),
        ),
{
    let group = cluster_of(graph, a);
    let resolved = macro_resolved(slots, params);
    assert forall|x: int, y: int| #[trigger] pair_collides(slots, x, y, params) implies group(x)
        == group(y) by {
        assert(recorded(graph, x as usize, (y - x - 1) as usize));
        assert(collide(graph, x, y));
        lemma_step(graph, x, y);
        if linked(graph, x, a) {
            lemma_join(graph, y, x, a);
        }
        if linked(graph, y, a) {
            lemma_join(graph, x, y, a);
        }
    }
    law_a_cluster_keeps_its_attributes(slots, params, group, which);
    law_one_particle_is_left_of_a_cluster(slots, graph, params, kind);
    let shown = within(resolved, group, 0);
    assert(linked_within(graph, a, a, 0));
    assert(group(a));
    assert forall|x: int| 0 <= x < shown.len() && x != a implies shown[x] is None by {
        if group(x) && resolved[x] is Some {
            if x < a {
                assert(linked_to_a_later(graph, x));
            } else {
                lemma_turn(graph, x, a);
                assert(linked_to_a_later(graph, a));
            }
        }
    }
    lemma_total_of_one(shown, which, a, slots.len());
}

} // verus!
