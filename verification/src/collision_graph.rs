//! The collision graph of one macro-step: which later particles each
//! particle is colliding with.
use vstd::prelude::*;
use std::collections::{BTreeMap, BTreeSet};

verus! {

/// The collisions recorded in one pass over all pairs: a particle's index is
/// mapped to the offsets of the later particles it collides with, where
/// offset `o` of particle `i` names particle `i + 1 + o`.
pub type CollisionGraph = BTreeMap<usize, BTreeSet<usize>>;

/// The graph as a mathematical map from indices to sets of offsets.
pub open spec fn graph_view(graph: CollisionGraph) -> Map<usize, Set<usize>> {
    Map::new(|k: usize| graph@.contains_key(k), |k: usize| graph@[k]@)
}

/// The graph with the collision of particle `i` and its successor at
/// `offset` added.
pub open spec fn graph_insert(
    graph: Map<usize, Set<usize>>,
    i: usize,
    offset: usize,
) -> Map<usize, Set<usize>> {
    graph.insert(
        i,
        if graph.contains_key(i) {
            graph[i].insert(offset)
        } else {
            Set::empty().insert(offset)
        },
    )
}

/// The graph with the given offsets added to those of particle `j`. Nothing
/// is recorded for `j` when there is nothing to add.
pub open spec fn graph_attach(
    graph: Map<usize, Set<usize>>,
    j: usize,
    offsets: Set<usize>,
) -> Map<usize, Set<usize>> {
    if offsets =~= Set::empty() {
        graph
    } else {
        graph.insert(
            j,
            if graph.contains_key(j) {
                graph[j].union(offsets)
            } else {
                offsets
            },
        )
    }
}

/// The offsets that particle `i` hands over to its successor at offset
/// `merged` when that successor absorbs it: those behind `merged`, counted
/// from the successor.
pub open spec fn handed_over(offsets: Set<usize>, merged: usize) -> Set<usize> {
    Set::new(|o: usize| o + merged + 1 <= usize::MAX && offsets.contains((o + merged + 1) as usize))
}

/// Whether every recorded collision names a particle within an array of `n`
/// slots whose slot `live` says is occupied.
pub open spec fn graph_fits(graph: Map<usize, Set<usize>>, n: int, live: spec_fn(int) -> bool) -> bool {
    forall|i: usize, o: usize| #[trigger]
        graph.contains_key(i) && #[trigger] graph[i].contains(o) ==> i + 1 + o < n && live(
            i + 1 + o,
        )
}

/// Removes the entry with the smallest key, as `BTreeMap::pop_first` of the
/// standard library does: nothing comes out of an empty map, which is left
/// as it is; otherwise the key that comes out is in the map, no key of the
/// map is smaller, the value is the one the map held for it, and the map is
/// left without that key.
#[verifier::external_body]
pub(crate) fn pop_first_entry(graph: &mut CollisionGraph) -> (first: Option<(usize, BTreeSet<usize>)>)
    ensures
        match first {
            Some((key, value)) => {
                &&& old(graph)@.contains_key(key)
                &&& old(graph)@[key] == value
                &&& forall|k: usize| old(graph)@.contains_key(k) ==> key <= k
                &&& final(graph)@ == old(graph)@.remove(key)
            },
            None => old(graph)@ == Map::<usize, BTreeSet<usize>>::empty() && final(graph)@
                == old(graph)@,
        },
{
    graph.pop_first()
}

/// Removes the smallest element, as `BTreeSet::pop_first` of the standard
/// library does: nothing comes out of an empty set, which is left as it is;
/// otherwise the element that comes out is in the set, no element of the set
/// is smaller, and the set is left without it.
#[verifier::external_body]
pub(crate) fn pop_first_offset(offsets: &mut BTreeSet<usize>) -> (first: Option<usize>)
    ensures
        match first {
            Some(offset) => {
                &&& old(offsets)@.contains(offset)
                &&& forall|o: usize| old(offsets)@.contains(o) ==> offset <= o
                &&& final(offsets)@ == old(offsets)@.remove(offset)
            },
            None => old(offsets)@ == Set::<usize>::empty() && final(offsets)@ == old(offsets)@,
        },
{
    offsets.pop_first()
}

/// Records that particle `i` collides with its successor at `offset`.
pub fn record_collision(graph: &mut CollisionGraph, i: usize, offset: usize)
    ensures
        graph_view(*final(graph)) == graph_insert(graph_view(*old(graph)), i, offset),
{
    broadcast use vstd::std_specs::btree::group_btree_axioms;

    let found = graph.remove(&i);
    match found {
        Some(set) => {
            let mut set = set;
            set.insert(offset);
            graph.insert(i, set);
        },
        None => {
            let mut set = BTreeSet::new();
            set.insert(offset);
            graph.insert(i, set);
        },
    }
    assert(graph_view(*graph) =~= graph_insert(graph_view(*old(graph)), i, offset));
}

} // verus!
