//! What the resolution of collisions keeps, whatever the collisions do: the
//! shape of the array and the soundness of the graph.
use vstd::prelude::*;
use crate::collision_graph::handed_over;
use crate::newton::Force;
use crate::particle::Particle;
use crate::solver::{resolve_key, successor_step, successors_scan};

verus! {

/// Whether the graph names only slots of an array of `n` slots: every key is
/// within the array, and every recorded successor is within it and live.
pub open spec fn graph_is_sound<P>(graph: Map<usize, Set<usize>>, slots: Seq<Option<P>>) -> bool {
    &&& forall|key: usize| #[trigger] graph.contains_key(key) ==> key < slots.len()
    &&& forall|key: usize, o: usize|
        graph.contains_key(key) && #[trigger] graph[key].contains(o) ==> key + 1 + o < slots.len()
            && slots[key + 1 + o] is Some
}

/// A scan over the successors of a particle leaves every slot behind it
/// occupied or empty as it was, and changes no slot beyond the offsets
/// scanned.
pub proof fn lemma_successors_scan_shape<V, F, R, S>(
    p_i: Option<Particle<V, F, R>>,
    tail: Seq<Option<Particle<V, F, R>>>,
    offsets: Set<usize>,
    k: nat,
    params: S,
) where F: Force<Cause = Particle<V, F, R>, Params = S>
    requires
        k <= tail.len(),
        tail.len() <= usize::MAX,
    ensures
        successors_scan(p_i, tail, offsets, k, params).1.len() == tail.len(),
        forall|j: int|
            0 <= j < tail.len() ==> (#[trigger] successors_scan(
                p_i,
                tail,
                offsets,
                k,
                params,
            ).1[j] is Some <==> tail[j] is Some),
        successors_scan(p_i, tail, offsets, k, params).2 is Some ==> successors_scan(
            p_i,
            tail,
            offsets,
            k,
            params,
        ).2->Some_0 < k && offsets.contains(
            successors_scan(p_i, tail, offsets, k, params).2->Some_0,
        ),
    decreases k,
{
    if k > 0 {
        lemma_successors_scan_shape(p_i, tail, offsets, (k - 1) as nat, params);
        let before = successors_scan(p_i, tail, offsets, (k - 1) as nat, params);
        let after = successor_step(before.0, before.1, before.2, offsets, k - 1, params);
        assert forall|j: int| 0 <= j < tail.len() implies (#[trigger] after.1[j] is Some
            <==> tail[j] is Some) by {
            assert(before.1[j] is Some <==> tail[j] is Some);
        }
        assert(((k - 1) as int) as usize == k - 1);
    }
}

/// A particle stays alive as long as no successor has absorbed it, and is
/// gone once one has.
proof fn lemma_successors_scan_alive_until_merged<V, F, R, S>(
    p_i: Option<Particle<V, F, R>>,
    tail: Seq<Option<Particle<V, F, R>>>,
    offsets: Set<usize>,
    k: nat,
    params: S,
) where F: Force<Cause = Particle<V, F, R>, Params = S>
    requires
        k <= tail.len(),
        p_i is Some,
    ensures
        successors_scan(p_i, tail, offsets, k, params).2 is None <==> successors_scan(
            p_i,
            tail,
            offsets,
            k,
            params,
        ).0 is Some,
    decreases k,
{
    if k > 0 {
        lemma_successors_scan_alive_until_merged(p_i, tail, offsets, (k - 1) as nat, params);
    }
}

/// What resolving the collisions of slot `i` keeps: the array keeps its
/// length, the slots before `i` stay as they are, the slots behind `i` stay
/// occupied or empty as they were, every entry of a later slot stays
/// recorded, and the graph stays sound and names no slot up to `i`.
pub proof fn lemma_resolve_key_keeps<V, F, R, S>(
    slots: Seq<Option<Particle<V, F, R>>>,
    graph: Map<usize, Set<usize>>,
    i: int,
    params: S,
) where F: Force<Cause = Particle<V, F, R>, Params = S>
    requires
        0 <= i < slots.len(),
        slots.len() <= usize::MAX,
        graph_is_sound(graph, slots),
        forall|key: usize| #[trigger] graph.contains_key(key) ==> i <= key,
    ensures
        ({
            let after = resolve_key(slots, graph, i, params);
            &&& after.0.len() == slots.len()
            &&& forall|j: int| 0 <= j < i ==> after.0[j] == slots[j]
            &&& forall|j: int|
                i < j < slots.len() ==> (#[trigger] after.0[j] is Some <==> slots[j] is Some)
            &&& after.0[i] is Some ==> slots[i] is Some
            &&& forall|key: usize, o: usize|
                i < key && graph.contains_key(key) && #[trigger] graph[key].contains(o)
                    ==> after.1.contains_key(key) && after.1[key].contains(o)
            &&& graph_is_sound(after.1, after.0)
            &&& forall|key: usize| #[trigger] after.1.contains_key(key) ==> i < key
        }),
{
    let after = resolve_key(slots, graph, i, params);
    if graph.contains_key(i as usize) && slots[i] is Some {
        let tail = slots.subrange(i + 1, slots.len() as int);
        let offsets = graph[i as usize];
        let scanned = successors_scan(slots[i], tail, offsets, tail.len(), params);
        lemma_successors_scan_shape(slots[i], tail, offsets, tail.len(), params);
        lemma_successors_scan_alive_until_merged(slots[i], tail, offsets, tail.len(), params);
        let resolved = slots.subrange(0, i).push(scanned.0) + scanned.1;
        assert(after.0 == resolved);
        assert forall|j: int| i < j < slots.len() implies (#[trigger] after.0[j] is Some
            <==> slots[j] is Some) by {
            assert(resolved[j] == scanned.1[j - i - 1]);
            assert(slots[j] == tail[j - i - 1]);
        }
        let rest = graph.remove(i as usize);
        assert forall|key: usize, o: usize|
            after.1.contains_key(key) && #[trigger] after.1[key].contains(o) implies key + 1 + o
            < slots.len() && after.0[key + 1 + o] is Some by {
            if rest.contains_key(key) && rest[key].contains(o) {
                assert(graph.contains_key(key) && graph[key].contains(o));
                assert(i < key);
            } else {
                let m = scanned.2->Some_0;
                assert(scanned.2 is Some);
                assert(key == i + 1 + m);
                assert(handed_over(offsets, m).contains(o));
                let shifted = (o + m + 1) as usize;
                assert(offsets.contains(shifted));
                assert(i + 1 + shifted < slots.len() && slots[i + 1 + shifted] is Some);
            }
            assert(after.0[key + 1 + o] is Some <==> slots[key + 1 + o] is Some);
        }
        assert forall|key: usize| #[trigger] after.1.contains_key(key) implies i < key
            && key < slots.len() by {
            if rest.contains_key(key) {
                assert(graph.contains_key(key));
            } else {
                let m = scanned.2->Some_0;
                assert(scanned.2 is Some);
                assert(offsets.contains(m));
                assert(i + 1 + m < slots.len());
            }
        }
    }
}

} // verus!
