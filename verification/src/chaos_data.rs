//! The ensemble: an array of slots, each holding a live sample or nothing.
use vstd::prelude::*;
use crate::distribution::{
    all_admissible, eye, eye_at, geomspace_value, is_geomspace, linspace_at, logspace_value,
    Features, InitialDistributionVariant, Linspace, RandomVariate,
};
use crate::scalar::Scalar;
use crate::mesh::{
    axis_lengths, cell_index, grid_fits, hyper_mesh_grid, is_cell, lemma_grid_size,
};
use crate::states::{FromStateVec, InitState};

verus! {

/// An ensemble of samples. A slot never moves: a sample that dies leaves its
/// slot empty, and a sample created later fills an empty slot in place.
#[derive(Debug, PartialEq)]
pub struct ChaosData<V> {
    data: Vec<Option<V>>,
}

/// Whether `copy` holds a clone of every live sample of `slots`, slot by
/// slot, and is empty where `slots` is.
pub open spec fn cloned_slots<V: Clone>(slots: Seq<Option<V>>, copy: Seq<Option<V>>) -> bool {
    &&& copy.len() == slots.len()
    &&& forall|i: int|
        0 <= i < slots.len() ==> match #[trigger] slots[i] {
            Some(v) => copy[i] is Some && cloned(v, copy[i]->Some_0),
            None => copy[i] is None,
        }
}

impl<V: Clone> Clone for ChaosData<V> {
    fn clone(&self) -> (copy: Self)
        ensures
            cloned_slots(self@, copy@),
    {
        let mut data: Vec<Option<V>> = Vec::new();
        let mut i: usize = 0;
        while i < self.data.len()
            invariant
                i <= self.data@.len(),
                data@.len() == i,
                forall|k: int|
                    0 <= k < i ==> match #[trigger] self.data@[k] {
                        Some(v) => data@[k] is Some && cloned(v, data@[k]->Some_0),
                        None => data@[k] is None,
                    },
            decreases self.data@.len() - i,
        {
            match &self.data[i] {
                Some(v) => {
                    data.push(Some(v.clone()));
                },
                None => {
                    data.push(None);
                },
            }
            i = i + 1;
        }
        ChaosData { data }
    }
}

impl<V> View for ChaosData<V> {
    type V = Seq<Option<V>>;

    closed spec fn view(&self) -> Seq<Option<V>> {
        self.data@
    }
}

/// The live samples of an ensemble, in the order of their slots.
pub open spec fn live_samples<V>(slots: Seq<Option<V>>) -> Seq<V>
    decreases slots.len(),
{
    if slots.len() == 0 {
        Seq::empty()
    } else {
        match slots.last() {
            Some(v) => live_samples(slots.drop_last()).push(v),
            None => live_samples(slots.drop_last()),
        }
    }
}

/// The indices of the empty slots of an ensemble, in ascending order.
pub open spec fn empty_slots<V>(slots: Seq<Option<V>>) -> Seq<usize>
    decreases slots.len(),
{
    if slots.len() == 0 {
        Seq::empty()
    } else if slots.last() is None {
        empty_slots(slots.drop_last()).push(#[verifier::truncate] ((slots.len() - 1) as usize))
    } else {
        empty_slots(slots.drop_last())
    }
}

/// The numbers that sample `i` is built from: entry `i` of every feature.
pub open spec fn row_of<R>(features: Seq<Vec<R>>, i: int) -> Seq<R> {
    Seq::new(features.len(), |c: int| features[c]@[i])
}

/// Whether feature `c` of an ensemble is fixed by a formula wherever it
/// stands among the distributions.
pub open spec fn column_has_formula<R>(d: InitialDistributionVariant<R>) -> bool {
    d is Fixed || d is Linspace || d is Eye
}

/// The value of sample `i` in feature `c` of an ensemble of `num_points`
/// samples, for a distribution that fixes it by a formula. The one non-zero
/// entry of an `Eye` feature stands at the sample with the feature's index.
pub open spec fn column_value<R: Scalar>(
    d: InitialDistributionVariant<R>,
    c: int,
    num_points: int,
    i: int,
) -> R {
    match d {
        InitialDistributionVariant::Fixed(f) => f.value,
        InitialDistributionVariant::Linspace(l) => linspace_at(num_points, l, i),
        InitialDistributionVariant::Eye(e) => eye_at(e, c, i),
        _ => arbitrary(),
    }
}

/// The lengths of `meshes` axes of `n` values each.
pub open spec fn uniform_lengths(n: int, meshes: nat) -> Seq<int> {
    Seq::new(meshes, |m: int| n)
}

/// The place of the mesh axis of feature `c` among the mesh axes.
pub open spec fn mesh_rank<R>(distributions: Seq<InitialDistributionVariant<R>>, c: int) -> int {
    mesh_count(distributions.subrange(0, c)) as int
}

/// Whether `value` is what the mesh axis of feature `c` contributes to
/// sample `i`, where every mesh axis has `n` values: the sample stands for
/// one combination of axis values, and `value` is the value of this axis in
/// that combination.
pub open spec fn is_mesh_value<R: Scalar>(
    distributions: Seq<InitialDistributionVariant<R>>,
    c: int,
    n: int,
    i: int,
    value: R,
) -> bool {
    let meshes = mesh_count(distributions);
    let mesh = distributions[c]->Mesh_0;
    forall|digits: Seq<int>|
        #![trigger cell_index(uniform_lengths(n, meshes), digits, meshes)]
        is_cell(uniform_lengths(n, meshes), digits) && cell_index(
            uniform_lengths(n, meshes),
            digits,
            meshes,
        ) == i ==> value == linspace_at(
            n,
            Linspace { low: mesh.start, high: mesh.end },
            digits[mesh_rank(distributions, c)],
        )
}

/// Whether `value` is a number that sample `i` of `num_points` samples may
/// get from a distribution that no formula fixes: a draw that the
/// distribution admits, or what the logarithm, the exponential or the power
/// hand back on the way to a value of a geometric or logarithmic
/// progression.
pub open spec fn is_admitted_value<R: RandomVariate>(
    d: InitialDistributionVariant<R>,
    num_points: int,
    i: int,
    value: R,
) -> bool {
    if d is Geomspace {
        exists|start: R, stop: R|
            {
                &&& #[trigger] d->Geomspace_0.start.spec_abs().ln_admits(start)
                &&& #[trigger] d->Geomspace_0.end.spec_abs().ln_admits(stop)
                &&& geomspace_value(num_points, d->Geomspace_0, start, stop, i, value)
            }
    } else if d is Logspace {
        logspace_value(num_points, d->Logspace_0, i, value)
    } else if d.is_probabilistic() {
        R::may_draw(d, value)
    } else {
        true
    }
}

/// Whether `v` is sample `i` of an ensemble of `num_points` samples drawn
/// from `distributions`, with `num_init_points` values along every mesh
/// axis: it is built from one number per distribution; each number that a
/// formula or a mesh axis fixes is the one it gives, and every other number
/// is one that its distribution admits.
pub open spec fn sample_of<V: FromStateVec>(
    v: V,
    distributions: Seq<InitialDistributionVariant<V::Number>>,
    num_init_points: int,
    num_points: int,
    i: int,
) -> bool where V::Number: RandomVariate {
    exists|row: Seq<V::Number>|
        {
            &&& row.len() == distributions.len()
            &&& #[trigger] v.built_from(row)
            &&& forall|c: int|
                0 <= c < distributions.len() && column_has_formula(distributions[c]) ==> row[c]
                    == column_value(distributions[c], c, num_points, i)
            &&& forall|c: int|
                0 <= c < distributions.len() && distributions[c] is Mesh ==> is_mesh_value(
                    distributions,
                    c,
                    num_init_points,
                    i,
                    #[trigger] row[c],
                )
            &&& forall|c: int|
                0 <= c < distributions.len() ==> is_admitted_value(
                    distributions[c],
                    num_points,
                    i,
                    #[trigger] row[c],
                )
        }
}

/// Number of mesh axes among the distributions.
pub open spec fn mesh_count<R>(distributions: Seq<InitialDistributionVariant<R>>) -> nat
    decreases distributions.len(),
{
    if distributions.len() == 0 {
        0
    } else {
        mesh_count(distributions.drop_last()) + if distributions.last() is Mesh {
            1nat
        } else {
            0nat
        }
    }
}

/// Number of samples of an ensemble with `meshes` mesh axes of `n` values
/// each: one sample per combination of axis values, and `n` samples where
/// there is no mesh.
pub open spec fn ensemble_size(n: int, meshes: nat) -> int {
    if meshes <= 1 {
        n
    } else if meshes == 2 {
        n * n
    } else if meshes == 3 {
        n * n * n
    } else {
        n * n * n * n
    }
}

/// Whether an ensemble with `meshes` mesh axes of `n` values each can be
/// held: there are at most four axes, and the number of combinations fits
/// the machine's word.
pub open spec fn ensemble_fits(n: int, meshes: nat) -> bool {
    &&& meshes <= 4
    &&& meshes >= 2 ==> n * n <= usize::MAX
    &&& meshes >= 3 ==> n * n * n <= usize::MAX
    &&& meshes >= 4 ==> n * n * n * n <= usize::MAX
}

fn copy_of<R: Copy>(column: &Vec<R>) -> (out: Vec<R>)
    ensures
        out@ == column@,
{
    let mut out: Vec<R> = Vec::new();
    let mut i: usize = 0;
    while i < column.len()
        invariant
            i <= column@.len(),
            out@ == column@.subrange(0, i as int),
        decreases column@.len() - i,
    {
        out.push(column[i]);
        proof {
            assert(out@ =~= column@.subrange(0, i + 1));
        }
        i = i + 1;
    }
    proof {
        assert(out@ =~= column@);
    }
    out
}

impl<V> ChaosData<V> {
    /// Number of slots, live or empty.
    pub fn total_num_points(&self) -> (n: usize)
        ensures
            n == self@.len(),
    {
        self.data.len()
    }

    pub fn data(&self) -> (slots: &Vec<Option<V>>)
        ensures
            slots@ == self@,
    {
        &self.data
    }

    pub fn data_mut(&mut self) -> (slots: &mut Vec<Option<V>>)
        ensures
            slots@ == old(self)@,
            final(self)@ == final(slots)@,
    {
        &mut self.data
    }

    /// The live samples, in the order of their slots.
    pub fn data_filtered(&self) -> (live: Vec<&V>)
        ensures
            live@.len() == live_samples(self@).len(),
            forall|k: int| 0 <= k < live@.len() ==> *live@[k] == live_samples(self@)[k],
    {
        let mut live: Vec<&V> = Vec::new();
        let mut i: usize = 0;
        while i < self.data.len()
            invariant
                i <= self.data@.len(),
                live@.len() == live_samples(self@.subrange(0, i as int)).len(),
                forall|k: int|
                    0 <= k < live@.len() ==> *live@[k] == live_samples(
                        self@.subrange(0, i as int),
                    )[k],
            decreases self.data@.len() - i,
        {
            proof {
                assert(self@.subrange(0, i + 1).drop_last() =~= self@.subrange(0, i as int));
            }
            match &self.data[i] {
                Some(v) => {
                    live.push(v);
                },
                None => {},
            }
            i = i + 1;
        }
        proof {
            assert(self@.subrange(0, self@.len() as int) =~= self@);
        }
        live
    }

    /// The ensemble that holds the given slots.
    pub fn from_slots(data: Vec<Option<V>>) -> (ensemble: Self)
        ensures
            ensemble@ == data@,
    {
        ChaosData { data }
    }

    /// The indices of the empty slots, in ascending order.
    pub fn empty_slot_indices(&self) -> (indices: Vec<usize>)
        ensures
            indices@ == empty_slots(self@),
    {
        let mut indices: Vec<usize> = Vec::new();
        let mut i: usize = 0;
        while i < self.data.len()
            invariant
                i <= self.data@.len(),
                indices@ == empty_slots(self@.subrange(0, i as int)),
            decreases self.data@.len() - i,
        {
            proof {
                assert(self@.subrange(0, i + 1).drop_last() =~= self@.subrange(0, i as int));
            }
            if self.data[i].is_none() {
                indices.push(i);
            }
            i = i + 1;
        }
        proof {
            assert(self@.subrange(0, self@.len() as int) =~= self@);
        }
        indices
    }
}

/// Every index among the empty slots is in range and names an empty slot,
/// every empty slot is among them, and they ascend.
pub proof fn lemma_empty_slots<V>(slots: Seq<Option<V>>)
    requires
        slots.len() <= usize::MAX,
    ensures
        forall|k: int|
            0 <= k < empty_slots(slots).len() ==> (#[trigger] empty_slots(slots)[k]) < slots.len()
                && slots[empty_slots(slots)[k] as int] is None,
        forall|i: int|
            0 <= i < slots.len() && slots[i] is None ==> empty_slots(slots).contains(i as usize),
        forall|j: int, k: int|
            0 <= j < k < empty_slots(slots).len() ==> empty_slots(slots)[j] < empty_slots(slots)[k],
        empty_slots(slots).len() <= slots.len(),
    decreases slots.len(),
{
    if slots.len() > 0 {
        let front = slots.drop_last();
        lemma_empty_slots(front);
        let before = empty_slots(front);
        let found = empty_slots(slots);
        let last = (slots.len() - 1) as usize;
        if slots.last() is None {
            assert(found == before.push(last));
        } else {
            assert(found == before);
        }
        assert forall|k: int| 0 <= k < found.len() implies (#[trigger] found[k]) < slots.len()
            && slots[found[k] as int] is None by {
            if k < before.len() {
                assert(found[k] == before[k]);
                assert(front[before[k] as int] == slots[before[k] as int]);
            }
        }
        assert forall|i: int| 0 <= i < slots.len() && slots[i] is None implies found.contains(
            i as usize,
        ) by {
            if i < front.len() {
                assert(front[i] == slots[i]);
                assert(before.contains(i as usize));
                let w = choose|w: int| 0 <= w < before.len() && before[w] == i as usize;
                assert(found[w] == i as usize);
            } else {
                assert(found[found.len() - 1] == i as usize);
            }
        }
        assert forall|j: int, k: int| 0 <= j < k < found.len() implies found[j] < found[k] by {
            if k < before.len() {
                assert(found[j] == before[j] && found[k] == before[k]);
            } else {
                assert(found[j] == before[j]);
                assert(before[j] < front.len());
            }
        }
    }
}

/// Whether `after` is `before` with every empty slot filled afresh from
/// `distributions`: live samples keep their slots and values, the `k`-th
/// empty slot holds sample `k` of as many fresh samples as there were empty
/// slots, drawn with a mesh axis replaced by the uniform distribution over
/// its extent, and nothing is filled where there are no distributions.
pub open spec fn refilled<V: FromStateVec>(
    before: Seq<Option<V>>,
    after: Seq<Option<V>>,
    distributions: Seq<InitialDistributionVariant<V::Number>>,
) -> bool where V::Number: RandomVariate {
    let empty = empty_slots(before);
    &&& after.len() == before.len()
    &&& forall|i: int| 0 <= i < before.len() && before[i] is Some ==> after[i] == before[i]
    &&& distributions.len() == 0 ==> after == before
    &&& distributions.len() > 0 ==> forall|k: int|
        0 <= k < empty.len() ==> (#[trigger] after[empty[k] as int]) is Some && sample_of(
            after[empty[k] as int]->Some_0,
            unmeshed(distributions),
            empty.len() as int,
            empty.len() as int,
            k,
        )
}

impl<V: FromStateVec> ChaosData<V> where V::Number: RandomVariate {
    /// Builds one sample from each row of the feature columns.
    pub fn states_from_features(features: Features<V::Number>) -> (states: Vec<Option<V>>)
        requires
            features@.len() > 0 ==> features@.len() >= V::spec_arity(),
            forall|c: int|
                0 <= c < features@.len() ==> (#[trigger] features@[c])@.len() >= features@[0]@.len(),
        ensures
            states@.len() == (if features@.len() == 0 {
                0
            } else {
                features@[0]@.len() as int
            }),
            forall|i: int|
                0 <= i < states@.len() ==> (#[trigger] states@[i]) is Some
                    && states@[i]->Some_0.built_from(row_of(features@, i)),
    {
        let mut states: Vec<Option<V>> = Vec::new();
        if features.len() == 0 {
            return states;
        }
        let num_states = features[0].len();
        let mut i: usize = 0;
        while i < num_states
            invariant
                i <= num_states,
                features@.len() > 0,
                features@.len() >= V::spec_arity(),
                num_states == features@[0]@.len(),
                forall|c: int|
                    0 <= c < features@.len() ==> (#[trigger] features@[c])@.len() >= num_states,
                states@.len() == i,
                forall|k: int|
                    0 <= k < i ==> (#[trigger] states@[k]) is Some
                        && states@[k]->Some_0.built_from(row_of(features@, k)),
            decreases num_states - i,
        {
            let mut state: InitState<V::Number> = Vec::new();
            let mut c: usize = 0;
            while c < features.len()
                invariant
                    c <= features@.len(),
                    i < num_states,
                    forall|c: int|
                        0 <= c < features@.len() ==> (#[trigger] features@[c])@.len()
                            >= num_states,
                    state@.len() == c,
                    forall|k: int| 0 <= k < c ==> state@[k] == features@[k]@[i as int],
                decreases features@.len() - c,
            {
                state.push(features[c][i]);
                c = c + 1;
            }
            proof {
                assert(state@ =~= row_of(features@, i as int));
            }
            states.push(Some(V::from(state)));
            i = i + 1;
        }
        states
    }

    /// The values along every mesh axis among the distributions, spread over
    /// the grid of their combinations, and the number of samples of the
    /// ensemble.
    pub fn init_meshes(
        num_init_points: usize,
        distributions: &[InitialDistributionVariant<V::Number>],
    ) -> (meshes: (Features<V::Number>, usize))
        requires
            ensemble_fits(num_init_points as int, mesh_count(distributions@)),
        ensures
            meshes.0@.len() == mesh_count(distributions@),
            meshes.1 == ensemble_size(num_init_points as int, mesh_count(distributions@)),
            forall|m: int| 0 <= m < meshes.0@.len() ==> (#[trigger] meshes.0@[m])@.len() == meshes.1,
            forall|c: int, digits: Seq<int>|
                #![trigger
                    distributions@[c],
                    cell_index(
                        uniform_lengths(num_init_points as int, mesh_count(distributions@)),
                        digits,
                        mesh_count(distributions@),
                    )]
                0 <= c < distributions@.len() && distributions@[c] is Mesh && is_cell(
                    uniform_lengths(num_init_points as int, mesh_count(distributions@)),
                    digits,
                ) ==> {
                    let at = cell_index(
                        uniform_lengths(num_init_points as int, mesh_count(distributions@)),
                        digits,
                        mesh_count(distributions@),
                    );
                    let rank = mesh_rank(distributions@, c);
                    &&& 0 <= rank < meshes.0@.len()
                    &&& 0 <= at < meshes.1
                    &&& meshes.0@[rank]@[at] == linspace_at(
                        num_init_points as int,
                        Linspace {
                            low: distributions@[c]->Mesh_0.start,
                            high: distributions@[c]->Mesh_0.end,
                        },
                        digits[rank],
                    )
                },
    {
        let mut axes: Vec<Vec<V::Number>> = Vec::new();
        let mut c: usize = 0;
        while c < distributions.len()
            invariant
                c <= distributions@.len(),
                axes@.len() == mesh_count(distributions@.subrange(0, c as int)),
                forall|m: int|
                    0 <= m < axes@.len() ==> (#[trigger] axes@[m])@.len() == num_init_points,
                forall|b: int|
                    0 <= b < c && distributions@[b] is Mesh ==> 0 <= #[trigger] mesh_rank(
                        distributions@,
                        b,
                    ) < axes@.len(),
                forall|b: int, j: int|
                    0 <= b < c && distributions@[b] is Mesh && 0 <= j < num_init_points
                        ==> #[trigger] axes@[mesh_rank(distributions@, b)]@[j] == linspace_at(
                        num_init_points as int,
                        Linspace {
                            low: distributions@[b]->Mesh_0.start,
                            high: distributions@[b]->Mesh_0.end,
                        },
                        j,
                    ),
            decreases distributions@.len() - c,
        {
            proof {
                assert(distributions@.subrange(0, c + 1).drop_last() =~= distributions@.subrange(
                    0,
                    c as int,
                ));
                assert(distributions@.subrange(0, c + 1).last() == distributions@[c as int]);
            }
            let ghost before = axes@;
            if distributions[c].is_mesh() {
                let space = distributions[c].space_from_mesh();
                let axis = space.data_generation(num_init_points);
                proof {
                    assert(space.has_formula());
                    assert forall|j: int| 0 <= j < num_init_points implies axis@[j] == linspace_at(
                        num_init_points as int,
                        Linspace {
                            low: distributions@[c as int]->Mesh_0.start,
                            high: distributions@[c as int]->Mesh_0.end,
                        },
                        j,
                    ) by {
                        assert(axis@[j] == space.value_at(num_init_points as int, j));
                    }
                }
                axes.push(axis);
            }
            proof {
                assert forall|b: int| 0 <= b < c + 1 && distributions@[b] is Mesh implies 0
                    <= #[trigger] mesh_rank(distributions@, b) < axes@.len() by {
                    if b < c {
                        assert(0 <= mesh_rank(distributions@, b) < before.len());
                    } else {
                        assert(mesh_rank(distributions@, b) == before.len());
                    }
                }
                assert forall|b: int, j: int|
                    0 <= b < c + 1 && distributions@[b] is Mesh && 0 <= j
                        < num_init_points implies #[trigger] axes@[mesh_rank(distributions@, b)]@[j]
                    == linspace_at(
                    num_init_points as int,
                    Linspace {
                        low: distributions@[b]->Mesh_0.start,
                        high: distributions@[b]->Mesh_0.end,
                    },
                    j,
                ) by {
                    if b < c {
                        assert(0 <= mesh_rank(distributions@, b) < before.len());
                        assert(axes@[mesh_rank(distributions@, b)] == before[mesh_rank(
                            distributions@,
                            b,
                        )]);
                        assert(before[mesh_rank(distributions@, b)]@[j] == linspace_at(
                            num_init_points as int,
                            Linspace {
                                low: distributions@[b]->Mesh_0.start,
                                high: distributions@[b]->Mesh_0.end,
                            },
                            j,
                        ));
                    } else {
                        assert(mesh_rank(distributions@, b) == before.len());
                    }
                }
            }
            c = c + 1;
        }
        proof {
            assert(distributions@.subrange(0, distributions@.len() as int) =~= distributions@);
            let a = axes@;
            lemma_grid_size(a);
            assert(grid_fits(a));
        }
        let ghost lines = axes@;
        let grid = hyper_mesh_grid(axes);
        let num_points = if grid.len() == 0 {
            num_init_points
        } else {
            grid[0].len()
        };
        proof {
            let n = num_init_points as int;
            let meshes = mesh_count(distributions@);
            let lengths = uniform_lengths(n, meshes);
            assert(axis_lengths(lines) =~= lengths);
            assert forall|c: int, digits: Seq<int>|
                #![trigger distributions@[c], cell_index(lengths, digits, meshes)]
                0 <= c < distributions@.len() && distributions@[c] is Mesh && is_cell(
                    lengths,
                    digits,
                ) implies {
                let at = cell_index(lengths, digits, meshes);
                let rank = mesh_rank(distributions@, c);
                &&& 0 <= rank < grid@.len()
                &&& 0 <= at < num_points
                &&& grid@[rank]@[at] == linspace_at(
                    n,
                    Linspace {
                        low: distributions@[c]->Mesh_0.start,
                        high: distributions@[c]->Mesh_0.end,
                    },
                    digits[rank],
                )
            } by {
                let rank = mesh_rank(distributions@, c);
                assert(0 <= rank < lines.len());
                assert(lengths[rank] == n);
                assert(0 <= digits[rank] < n);
                assert(lines[rank]@[digits[rank]] == linspace_at(
                    n,
                    Linspace {
                        low: distributions@[c]->Mesh_0.start,
                        high: distributions@[c]->Mesh_0.end,
                    },
                    digits[rank],
                ));
                let at = cell_index(axis_lengths(lines), digits, lines.len());
                assert(grid@[rank]@[at] == lines[rank]@[digits[rank]]);
            }
        }
        (grid, num_points)
    }

    /// Generates the features of an ensemble and builds its samples.
    pub fn states_from_distributions(
        num_init_points: usize,
        distributions: &[InitialDistributionVariant<V::Number>],
    ) -> (states: Vec<Option<V>>)
        requires
            ensemble_fits(num_init_points as int, mesh_count(distributions@)),
            distributions@.len() > 0 ==> distributions@.len() >= V::spec_arity(),
            all_admissible(distributions@),
        ensures
            states@.len() == (if distributions@.len() == 0 {
                0
            } else {
                ensemble_size(num_init_points as int, mesh_count(distributions@))
            }),
            forall|i: int|
                0 <= i < states@.len() ==> (#[trigger] states@[i]) is Some && sample_of(
                    states@[i]->Some_0,
                    distributions@,
                    num_init_points as int,
                    states@.len() as int,
                    i,
                ),
    {
        let (meshes, num_points) = Self::init_meshes(num_init_points, distributions);
        let num_meshes = meshes.len();
        let mut next_mesh: usize = 0;
        let mut features: Vec<Vec<V::Number>> = Vec::new();
        let mut c: usize = 0;
        while c < distributions.len()
            invariant
                c <= distributions@.len(),
                features@.len() == c,
                next_mesh == mesh_count(distributions@.subrange(0, c as int)),
                meshes@.len() == mesh_count(distributions@),
                all_admissible(distributions@),
                next_mesh <= meshes@.len(),
                num_meshes == meshes@.len(),
                forall|m: int| 0 <= m < meshes@.len() ==> (#[trigger] meshes@[m])@.len() == num_points,
                forall|k: int| 0 <= k < c ==> (#[trigger] features@[k])@.len() == num_points,
                forall|k: int, i: int|
                    0 <= k < c && 0 <= i < num_points && column_has_formula(distributions@[k])
                        ==> #[trigger] features@[k]@[i] == column_value(
                        distributions@[k],
                        k,
                        num_points as int,
                        i,
                    ),
                forall|k: int| #![trigger distributions@[k]]
                    0 <= k < c && distributions@[k] is Mesh ==> features@[k]@
                        == meshes@[mesh_rank(distributions@, k)]@,
                forall|k: int, i: int|
                    0 <= k < c && 0 <= i < num_points ==> is_admitted_value(
                        distributions@[k],
                        num_points as int,
                        i,
                        #[trigger] features@[k]@[i],
                    ),
            decreases distributions@.len() - c,
        {
            proof {
                assert(distributions@.subrange(0, c + 1).drop_last() =~= distributions@.subrange(
                    0,
                    c as int,
                ));
                assert(distributions@.subrange(0, c + 1).last() == distributions@[c as int]);
                lemma_mesh_count_prefix(distributions@, c + 1);
            }
            let feature = match &distributions[c] {
                InitialDistributionVariant::Eye(d) => eye(num_points, d, c),
                InitialDistributionVariant::Mesh(_) => {
                    proof {
                        assert(distributions@[c as int] is Mesh);
                        assert(mesh_count(distributions@.subrange(0, c + 1)) == next_mesh + 1);
                    }
                    let column = copy_of(&meshes[next_mesh]);
                    next_mesh = next_mesh + 1;
                    column
                },
                other => other.data_generation(num_points),
            };
            proof {
                assert forall|i: int|
                    0 <= i < num_points && column_has_formula(
                        distributions@[c as int],
                    ) implies feature@[i] == column_value(
                    distributions@[c as int],
                    c as int,
                    num_points as int,
                    i,
                ) by {
                    let d = distributions@[c as int];
                    if !(d is Eye) {
                        assert(d.has_formula());
                        assert(feature@[i] == d.value_at(num_points as int, i));
                    }
                }
                assert forall|i: int| 0 <= i < num_points implies is_admitted_value(
                    distributions@[c as int],
                    num_points as int,
                    i,
                    #[trigger] feature@[i],
                ) by {
                    let d = distributions@[c as int];
                    if d is Geomspace {
                        assert(is_geomspace(feature@, num_points as int, d->Geomspace_0));
                    }
                }
            }
            features.push(feature);
            c = c + 1;
        }
        let states = Self::states_from_features(features);
        proof {
            assert forall|i: int| 0 <= i < states@.len() implies (#[trigger] states@[i]) is Some
                && sample_of(
                states@[i]->Some_0,
                distributions@,
                num_init_points as int,
                states@.len() as int,
                i,
            ) by {
                let row = row_of(features@, i);
                assert(states@[i]->Some_0.built_from(row));
                assert forall|c: int| 0 <= c < distributions@.len() implies is_admitted_value(
                    distributions@[c],
                    states@.len() as int,
                    i,
                    #[trigger] row[c],
                ) by {
                    assert(is_admitted_value(
                        distributions@[c],
                        num_points as int,
                        i,
                        features@[c]@[i],
                    ));
                }
                assert forall|c: int|
                    0 <= c < distributions@.len() && distributions@[c] is Mesh implies is_mesh_value(
                    distributions@,
                    c,
                    num_init_points as int,
                    i,
                    #[trigger] row[c],
                ) by {
                    assert(features@[c]@ == meshes@[mesh_rank(distributions@, c)]@);
                }
                assert forall|c: int|
                    0 <= c < distributions@.len() && column_has_formula(
                        distributions@[c],
                    ) implies row[c] == column_value(
                    distributions@[c],
                    c,
                    states@.len() as int,
                    i,
                ) by {
                    assert(features@[c]@[i] == column_value(
                        distributions@[c],
                        c,
                        num_points as int,
                        i,
                    ));
                }
            }
        }
        states
    }

    /// Fills every empty slot with a fresh sample and returns the indices of
    /// the slots it found empty, in ascending order. Live samples keep their
    /// slots and values. Replacements for a mesh axis are drawn uniformly
    /// over its extent. Without distributions nothing is filled.
    pub fn reinit_states(&mut self, distributions: &[InitialDistributionVariant<V::Number>]) -> (indices:
        Vec<usize>)
        requires
            distributions@.len() > 0 ==> distributions@.len() >= V::spec_arity(),
            empty_slots(old(self)@).len() > 0 ==> all_admissible(unmeshed(distributions@)),
        ensures
            indices@ == empty_slots(old(self)@),
            refilled(old(self)@, final(self)@, distributions@),
            distributions@.len() > 0 ==> forall|i: int|
                0 <= i < final(self)@.len() ==> (#[trigger] final(self)@[i]) is Some,
    {
        let new_state_indices = self.empty_slot_indices();
        let num_new_states = new_state_indices.len();
        let num_slots = self.data.len();
        proof {
            lemma_empty_slots(self@);
        }
        if num_new_states > 0 {
            let mut distributions_unmeshed: Vec<InitialDistributionVariant<V::Number>> = Vec::new();
            let mut c: usize = 0;
            while c < distributions.len()
                invariant
                    c <= distributions@.len(),
                    distributions_unmeshed@.len() == c,
                    forall|k: int|
                        0 <= k < c ==> distributions_unmeshed@[k]
                            == distributions@[k].spec_random_space_from_mesh(),
                decreases distributions@.len() - c,
            {
                distributions_unmeshed.push(distributions[c].random_space_from_mesh());
                c = c + 1;
            }
            proof {
                assert(distributions_unmeshed@ =~= unmeshed(distributions@));
                lemma_unmeshed_has_no_mesh(distributions@);
            }
            let mut new_data = Self::states_from_distributions(
                num_new_states,
                distributions_unmeshed.as_slice(),
            );
            let ghost fresh = new_data@;
            while new_data.len() > 0
                invariant
                    self@.len() == old(self)@.len(),
                    new_state_indices@ == empty_slots(old(self)@),
                    fresh.len() == 0 || fresh.len() == new_state_indices@.len(),
                    fresh.len() == 0 ==> self@ == old(self)@,
                    distributions@.len() > 0 ==> fresh.len() == new_state_indices@.len(),
                    forall|k: int|
                        0 <= k < fresh.len() ==> (#[trigger] fresh[k]) is Some && sample_of(
                            fresh[k]->Some_0,
                            unmeshed(distributions@),
                            new_state_indices@.len() as int,
                            fresh.len() as int,
                            k,
                        ),
                    new_data@.len() <= fresh.len(),
                    new_data@ == fresh.subrange(0, new_data@.len() as int),
                    forall|k: int|
                        0 <= k < new_state_indices@.len() ==> (
                        #[trigger] new_state_indices@[k]) < old(self)@.len() && old(
                            self,
                        )@[new_state_indices@[k] as int] is None,
                    forall|j: int, k: int|
                        0 <= j < k < new_state_indices@.len() ==> new_state_indices@[j]
                            < new_state_indices@[k],
                    forall|i: int|
                        0 <= i < old(self)@.len() && old(self)@[i] is Some ==> self@[i] == old(
                            self,
                        )@[i],
                    forall|k: int|
                        new_data@.len() <= k < fresh.len() ==> self@[new_state_indices@[k] as int]
                            == fresh[k],
                decreases new_data@.len(),
            {
                let popped = new_data.pop();
                let k = new_data.len();
                match popped {
                    Some(new_state) => {
                        let i = new_state_indices[k];
                        self.data[i] = new_state;
                    },
                    None => {},
                }
            }
            proof {
                assert(new_data@.len() == 0);
                if distributions@.len() > 0 {
                    assert forall|k: int| 0 <= k < new_state_indices@.len() implies (
                    #[trigger] self@[new_state_indices@[k] as int]) is Some && sample_of(
                        self@[new_state_indices@[k] as int]->Some_0,
                        unmeshed(distributions@),
                        new_state_indices@.len() as int,
                        new_state_indices@.len() as int,
                        k,
                    ) by {
                        assert(self@[new_state_indices@[k] as int] == fresh[k]);
                    }
                }
            }
        }
        proof {
            if distributions@.len() > 0 {
                assert forall|i: int| 0 <= i < self@.len() implies (#[trigger] self@[i]) is Some by {
                    if old(self)@[i] is None {
                        assert(new_state_indices@.contains(i as usize));
                        let k = choose|k: int|
                            0 <= k < new_state_indices@.len() && new_state_indices@[k] == i as usize;
                        assert(self@[new_state_indices@[k] as int] is Some);
                    }
                }
            }
        }
        new_state_indices
    }

    /// A fresh ensemble: one sample per point, or per combination of mesh
    /// axis values, each built from one number per distribution.
    pub fn new(num_points: usize, distributions: &[InitialDistributionVariant<V::Number>]) -> (ensemble:
        Self)
        requires
            ensemble_fits(num_points as int, mesh_count(distributions@)),
            distributions@.len() > 0 ==> distributions@.len() >= V::spec_arity(),
            all_admissible(distributions@),
        ensures
            ensemble@.len() == (if distributions@.len() == 0 {
                0
            } else {
                ensemble_size(num_points as int, mesh_count(distributions@))
            }),
            forall|i: int|
                0 <= i < ensemble@.len() ==> (#[trigger] ensemble@[i]) is Some && sample_of(
                    ensemble@[i]->Some_0,
                    distributions@,
                    num_points as int,
                    ensemble@.len() as int,
                    i,
                ),
    {
        Self { data: Self::states_from_distributions(num_points, distributions) }
    }
}

/// The distributions with every mesh axis replaced by the uniform
/// distribution over its extent.
pub open spec fn unmeshed<R: Scalar>(
    distributions: Seq<InitialDistributionVariant<R>>,
) -> Seq<InitialDistributionVariant<R>> {
    Seq::new(distributions.len(), |c: int| distributions[c].spec_random_space_from_mesh())
}

/// Once every mesh axis is replaced, no mesh axis is left.
pub proof fn lemma_unmeshed_has_no_mesh<R: Scalar>(
    distributions: Seq<InitialDistributionVariant<R>>,
)
    ensures
        mesh_count(unmeshed(distributions)) == 0,
    decreases distributions.len(),
{
    if distributions.len() > 0 {
        lemma_unmeshed_has_no_mesh(distributions.drop_last());
        assert(unmeshed(distributions).drop_last() =~= unmeshed(distributions.drop_last()));
    }
}

/// The number of mesh axes in a prefix is at most that in the whole.
pub proof fn lemma_mesh_count_prefix<R>(
    distributions: Seq<InitialDistributionVariant<R>>,
    k: int,
)
    requires
        0 <= k <= distributions.len(),
    ensures
        mesh_count(distributions.subrange(0, k)) <= mesh_count(distributions),
    decreases distributions.len() - k,
{
    if k < distributions.len() {
        lemma_mesh_count_prefix(distributions, k + 1);
        assert(distributions.subrange(0, k + 1).drop_last() =~= distributions.subrange(0, k));
    } else {
        assert(distributions.subrange(0, k) =~= distributions);
    }
}

} // verus!
