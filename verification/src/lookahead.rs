//! The per-sample buffer of precomputed future states.
use vstd::prelude::*;

verus! {

/// A finite queue of future states, consumed front to back and never refilled:
/// a new horizon replaces the buffer as a whole.
#[derive(Clone, Debug)]
pub struct LookaheadBuffer<V> {
    /// The states still to come, the next one last.
    pending: Vec<V>,
}

impl<V> View for LookaheadBuffer<V> {
    type V = Seq<V>;

    /// The states still to come, the next one first.
    closed spec fn view(&self) -> Seq<V> {
        self.pending@.reverse()
    }
}

impl<V> LookaheadBuffer<V> {
    /// The buffer that yields the items of `states` in their order.
    pub fn from_vec(states: Vec<V>) -> (buffer: Self)
        ensures
            buffer@ == states@,
    {
        let mut states = states;
        let ghost all = states@;
        let mut pending: Vec<V> = Vec::new();
        while states.len() > 0
            invariant
                states@.len() <= all.len(),
                states@ == all.subrange(0, states@.len() as int),
                pending@.len() == all.len() - states@.len(),
                forall|k: int|
                    0 <= k < pending@.len() ==> pending@[k] == all[all.len() - 1 - k],
            decreases states@.len(),
        {
            let last = states.pop();
            match last {
                Some(x) => {
                    pending.push(x);
                },
                None => {},
            }
        }
        let buffer = LookaheadBuffer { pending };
        assert(buffer@ =~= all);
        buffer
    }

    /// Takes the next state out of the buffer, if there is one.
    pub fn next(&mut self) -> (head: Option<V>)
        ensures
            match head {
                Some(x) => {
                    &&& old(self)@.len() > 0
                    &&& x == old(self)@[0]
                    &&& final(self)@ == old(self)@.skip(1)
                },
                None => old(self)@.len() == 0 && final(self)@ == old(self)@,
            },
    {
        let head = self.pending.pop();
        proof {
            if head is Some {
                assert(self@ =~= old(self)@.skip(1));
            }
        }
        head
    }

    /// Number of states still to come.
    pub fn len(&self) -> (n: usize)
        ensures
            n == self@.len(),
    {
        self.pending.len()
    }

    pub fn is_empty(&self) -> (empty: bool)
        ensures
            empty == (self@.len() == 0),
    {
        self.pending.len() == 0
    }
}

/// Whether `after` are the buffers `before` with those at `indices`
/// emptied and the others as they were.
pub open spec fn emptied_at<V>(
    before: Seq<LookaheadBuffer<V>>,
    indices: Seq<usize>,
    after: Seq<LookaheadBuffer<V>>,
) -> bool {
    &&& after.len() == before.len()
    &&& forall|i: int|
        0 <= i < before.len() ==> #[trigger] after[i]@ == (if indices.contains(i as usize) {
            Seq::empty()
        } else {
            before[i]@
        })
}

/// Empties the buffers at the given indices. An index without a buffer is
/// passed over.
pub fn empty_buffers_at<V>(buffers: &mut Vec<LookaheadBuffer<V>>, indices: &Vec<usize>)
    ensures
        emptied_at(old(buffers)@, indices@, final(buffers)@),
{
    let mut k: usize = 0;
    while k < indices.len()
        invariant
            k <= indices@.len(),
            emptied_at(old(buffers)@, indices@.subrange(0, k as int), buffers@),
        decreases indices@.len() - k,
    {
        let i = indices[k];
        let ghost seen = indices@.subrange(0, k as int);
        let ghost seen_next = indices@.subrange(0, k + 1);
        proof {
            assert(seen_next =~= seen.push(i));
            assert forall|j: usize| seen_next.contains(j) <==> (seen.contains(j) || j == i) by {
                if seen.contains(j) {
                    let w = choose|w: int| 0 <= w < seen.len() && seen[w] == j;
                    assert(seen_next[w] == j);
                }
                if j == i {
                    assert(seen_next[k as int] == j);
                }
            }
        }
        if i < buffers.len() {
            buffers[i] = empty_into_iter();
        }
        k = k + 1;
    }
    proof {
        assert(indices@.subrange(0, indices@.len() as int) =~= indices@);
    }
}

/// The buffer with nothing in it.
pub fn empty_into_iter<P>() -> (buffer: LookaheadBuffer<P>)
    ensures
        buffer@ == Seq::<P>::empty(),
{
    let pending: Vec<P> = Vec::new();
    let buffer = LookaheadBuffer { pending };
    assert(buffer@ =~= Seq::<P>::empty());
    buffer
}

} // verus!
