//! Particles that are linked by collisions: two particles are linked where
//! a chain of recorded collisions leads from one to the other.
use vstd::prelude::*;
use crate::detection::recorded;

verus! {

/// Whether the graph holds the collision of the slot `a` with the later
/// slot `b`.
pub open spec fn collide(graph: Map<usize, Set<usize>>, a: int, b: int) -> bool {
    &&& 0 <= a < b <= usize::MAX
    &&& recorded(graph, a as usize, (b - a - 1) as usize)
}

/// Whether the graph holds a collision of the two slots.
pub open spec fn adjacent(graph: Map<usize, Set<usize>>, a: int, b: int) -> bool {
    collide(graph, a, b) || collide(graph, b, a)
}

/// Whether a chain of at most `n` recorded collisions leads from `a` to
/// `b`.
pub open spec fn linked_within(graph: Map<usize, Set<usize>>, a: int, b: int, n: nat) -> bool
    decreases n,
{
    a == b || (n > 0 && exists|c: int| #[trigger]
        adjacent(graph, a, c) && linked_within(graph, c, b, (n - 1) as nat))
}

/// Whether a chain of recorded collisions leads from `a` to `b`.
pub open spec fn linked(graph: Map<usize, Set<usize>>, a: int, b: int) -> bool {
    exists|n: nat| linked_within(graph, a, b, n)
}

/// Whether a chain of recorded collisions leads from `a` to a later slot.
pub open spec fn linked_to_a_later(graph: Map<usize, Set<usize>>, a: int) -> bool {
    exists|b: int| a < b && #[trigger] linked(graph, a, b)
}

proof fn lemma_longer(graph: Map<usize, Set<usize>>, a: int, b: int, n: nat, m: nat)
    requires
        linked_within(graph, a, b, n),
        n <= m,
    ensures
        linked_within(graph, a, b, m),
    decreases n,
{
    if a != b {
        let c = choose|c: int| #[trigger]
            adjacent(graph, a, c) && linked_within(graph, c, b, (n - 1) as nat);
        lemma_longer(graph, c, b, (n - 1) as nat, (m - 1) as nat);
    }
}

proof fn lemma_join_within(
    graph: Map<usize, Set<usize>>,
    a: int,
    b: int,
    c: int,
    n: nat,
    m: nat,
)
    requires
        linked_within(graph, a, b, n),
        linked_within(graph, b, c, m),
    ensures
        linked_within(graph, a, c, n + m),
    decreases n,
{
    if a == b {
        lemma_longer(graph, b, c, m, n + m);
    } else {
        let x = choose|x: int| #[trigger]
            adjacent(graph, a, x) && linked_within(graph, x, b, (n - 1) as nat);
        lemma_join_within(graph, x, b, c, (n - 1) as nat, m);
        assert(adjacent(graph, a, x) && linked_within(graph, x, c, (n + m - 1) as nat));
    }
}

proof fn lemma_turn_within(graph: Map<usize, Set<usize>>, a: int, b: int, n: nat)
    requires
        linked_within(graph, a, b, n),
    ensures
        linked_within(graph, b, a, n),
    decreases n,
{
    if a != b {
        let x = choose|x: int| #[trigger]
            adjacent(graph, a, x) && linked_within(graph, x, b, (n - 1) as nat);
        lemma_turn_within(graph, x, b, (n - 1) as nat);
        assert(adjacent(graph, x, a) && linked_within(graph, a, a, 0));
        assert(linked_within(graph, x, a, 1));
        lemma_join_within(graph, b, x, a, (n - 1) as nat, 1);
    }
}

/// A chain and a chain that goes on from its end make one chain.
pub proof fn lemma_join(graph: Map<usize, Set<usize>>, a: int, b: int, c: int)
    requires
        linked(graph, a, b),
        linked(graph, b, c),
    ensures
        linked(graph, a, c),
{
    let n = choose|n: nat| linked_within(graph, a, b, n);
    let m = choose|m: nat| linked_within(graph, b, c, m);
    lemma_join_within(graph, a, b, c, n, m);
}

/// A chain can be walked from either end.
pub proof fn lemma_turn(graph: Map<usize, Set<usize>>, a: int, b: int)
    requires
        linked(graph, a, b),
    ensures
        linked(graph, b, a),
{
    let n = choose|n: nat| linked_within(graph, a, b, n);
    lemma_turn_within(graph, a, b, n);
}

/// One recorded collision is a chain.
pub proof fn lemma_step(graph: Map<usize, Set<usize>>, a: int, b: int)
    requires
        adjacent(graph, a, b),
    ensures
        linked(graph, a, b),
        linked(graph, b, a),
{
    assert(linked_within(graph, b, b, 0));
    assert(adjacent(graph, a, b) && linked_within(graph, b, b, 0));
    assert(linked_within(graph, a, b, 1));
    lemma_turn(graph, a, b);
}

/// Whether `after` is `before` with the slot `i` taken out and its
/// collisions handed to the slot `heir`: every collision that does not
/// involve `i` is kept, every slot that collided with `i` is the heir or
/// collides with it, and a new collision is one of two slots that both
/// collided with `i`.
pub open spec fn handed_on(
    before: Map<usize, Set<usize>>,
    after: Map<usize, Set<usize>>,
    i: int,
    heir: int,
) -> bool {
    &&& (forall|x: int, y: int|
        x != i && y != i && #[trigger] adjacent(before, x, y) ==> adjacent(after, x, y))
    &&& (forall|x: int| #[trigger] adjacent(before, i, x) ==> x == heir || adjacent(after, heir, x))
    &&& (forall|x: int, y: int| #[trigger]
        adjacent(after, x, y) ==> adjacent(before, x, y) || (adjacent(before, i, x) && adjacent(
            before,
            i,
            y,
        )))
}

/// Slots other than `i` that were linked stay linked when the collisions of
/// `i` are handed on.
proof fn lemma_still_linked_within(
    before: Map<usize, Set<usize>>,
    after: Map<usize, Set<usize>>,
    i: int,
    heir: int,
    a: int,
    b: int,
    n: nat,
)
    requires
        handed_on(before, after, i, heir),
        a != i,
        b != i,
        linked_within(before, a, b, n),
    ensures
        linked(after, a, b),
    decreases n,
{
    if a == b {
        assert(linked_within(after, a, b, 0));
    } else {
        let c = choose|c: int| #[trigger]
            adjacent(before, a, c) && linked_within(before, c, b, (n - 1) as nat);
        if c != i {
            assert(adjacent(after, a, c));
            lemma_step(after, a, c);
            lemma_still_linked_within(before, after, i, heir, c, b, (n - 1) as nat);
            lemma_join(after, a, c, b);
        } else {
            let d = choose|d: int| #[trigger]
                adjacent(before, i, d) && linked_within(before, d, b, (n - 2) as nat);
            assert(adjacent(before, i, a));
            assert(linked_within(after, heir, heir, 0));
            if a != heir {
                lemma_step(after, heir, a);
            }
            if d != heir {
                lemma_step(after, heir, d);
            }
            assert(linked(after, a, heir));
            assert(linked(after, heir, d));
            lemma_join(after, a, heir, d);
            lemma_still_linked_within(before, after, i, heir, d, b, (n - 2) as nat);
            lemma_join(after, a, d, b);
        }
    }
}

/// Slots other than `i` that were linked stay linked when the collisions of
/// `i` are handed on.
pub proof fn lemma_still_linked(
    before: Map<usize, Set<usize>>,
    after: Map<usize, Set<usize>>,
    i: int,
    heir: int,
    a: int,
    b: int,
)
    requires
        handed_on(before, after, i, heir),
        a != i,
        b != i,
        linked(before, a, b),
    ensures
        linked(after, a, b),
{
    let n = choose|n: nat| linked_within(before, a, b, n);
    lemma_still_linked_within(before, after, i, heir, a, b, n);
}

/// Slots that are linked after the collisions of `i` have been handed on
/// were linked before.
proof fn lemma_linked_before_within(
    before: Map<usize, Set<usize>>,
    after: Map<usize, Set<usize>>,
    i: int,
    heir: int,
    a: int,
    b: int,
    n: nat,
)
    requires
        handed_on(before, after, i, heir),
        linked_within(after, a, b, n),
    ensures
        linked(before, a, b),
    decreases n,
{
    if a == b {
        assert(linked_within(before, a, b, 0));
    } else {
        let c = choose|c: int| #[trigger]
            adjacent(after, a, c) && linked_within(after, c, b, (n - 1) as nat);
        lemma_linked_before_within(before, after, i, heir, c, b, (n - 1) as nat);
        if adjacent(before, a, c) {
            lemma_step(before, a, c);
        } else {
            lemma_step(before, i, a);
            lemma_step(before, i, c);
            lemma_join(before, a, i, c);
        }
        lemma_join(before, a, c, b);
    }
}

/// Slots that are linked after the collisions of `i` have been handed on
/// were linked before.
pub proof fn lemma_linked_before(
    before: Map<usize, Set<usize>>,
    after: Map<usize, Set<usize>>,
    i: int,
    heir: int,
    a: int,
    b: int,
)
    requires
        handed_on(before, after, i, heir),
        linked(after, a, b),
    ensures
        linked(before, a, b),
{
    let n = choose|n: nat| linked_within(after, a, b, n);
    lemma_linked_before_within(before, after, i, heir, a, b, n);
}

proof fn lemma_same_collisions_within(
    one: Map<usize, Set<usize>>,
    other: Map<usize, Set<usize>>,
    a: int,
    b: int,
    n: nat,
)
    requires
        forall|key: usize, o: usize| #[trigger] recorded(one, key, o) <==> recorded(other, key, o),
        linked_within(one, a, b, n),
    ensures
        linked_within(other, a, b, n),
    decreases n,
{
    if a != b {
        let c = choose|c: int| #[trigger]
            adjacent(one, a, c) && linked_within(one, c, b, (n - 1) as nat);
        lemma_same_collisions_within(one, other, c, b, (n - 1) as nat);
        if collide(one, a, c) {
            assert(recorded(one, a as usize, (c - a - 1) as usize));
        } else {
            assert(recorded(one, c as usize, (a - c - 1) as usize));
        }
        assert(adjacent(other, a, c));
    }
}

/// Graphs that hold the same collisions link the same slots.
pub proof fn lemma_same_collisions(
    one: Map<usize, Set<usize>>,
    other: Map<usize, Set<usize>>,
    a: int,
    b: int,
)
    requires
        forall|key: usize, o: usize| #[trigger] recorded(one, key, o) <==> recorded(other, key, o),
        linked(one, a, b),
    ensures
        linked(other, a, b),
{
    let n = choose|n: nat| linked_within(one, a, b, n);
    lemma_same_collisions_within(one, other, a, b, n);
}

} // verus!
