//! Fixed-arity state vectors.
use vstd::prelude::*;
use crate::scalar::Scalar;
use crate::states::{number_is_valid, is_valid_number, FromStateVec, InitState, StateIndex, ValidStateCheck};

verus! {

/// A state of `N` numeric components.
#[derive(Clone, Copy, Debug, PartialEq)]
pub struct StateVector<R, const N: usize> {
    pub data: [R; N],
}

pub type State1<R> = StateVector<R, 1>;

pub type State2<R> = StateVector<R, 2>;

pub type State3<R> = StateVector<R, 3>;

pub type State4<R> = StateVector<R, 4>;

pub type State5<R> = StateVector<R, 5>;

pub type State6<R> = StateVector<R, 6>;

impl<R, const N: usize> View for StateVector<R, N> {
    type V = Seq<R>;

    open spec fn view(&self) -> Seq<R> {
        self.data@
    }
}

/// The smallest component of `s[0..k]`, found as a left-to-right scan that
/// keeps the earlier of two components unless the later one is smaller.
pub open spec fn smallest<R: Scalar>(s: Seq<R>, k: int) -> R
    recommends
        1 <= k <= s.len(),
    decreases k,
{
    if k <= 1 {
        s[0]
    } else {
        let acc = smallest(s, k - 1);
        if acc.spec_le(s[k - 1]) {
            acc
        } else {
            s[k - 1]
        }
    }
}

/// The largest component of `s[0..k]`, found as a left-to-right scan that
/// keeps the earlier of two components unless the later one is larger.
pub open spec fn largest<R: Scalar>(s: Seq<R>, k: int) -> R
    recommends
        1 <= k <= s.len(),
    decreases k,
{
    if k <= 1 {
        s[0]
    } else {
        let acc = largest(s, k - 1);
        if s[k - 1].spec_le(acc) {
            acc
        } else {
            s[k - 1]
        }
    }
}

/// What a vector of two or more components exposes at position `i`: its
/// components first, then the smallest and, from there on, the largest.
pub open spec fn component_or_extremum<R: Scalar>(s: Seq<R>, i: int) -> R {
    if i < s.len() {
        s[i]
    } else if i == s.len() {
        smallest(s, s.len() as int)
    } else {
        largest(s, s.len() as int)
    }
}

impl<R: Scalar> StateVector<R, 1> {
    pub fn new(x: R) -> (s: Self)
        ensures
            s@ == seq![x],
    {
        StateVector { data: [x] }
    }
}

impl<R: Scalar> StateVector<R, 2> {
    pub fn new(x: R, y: R) -> (s: Self)
        ensures
            s@ == seq![x, y],
    {
        StateVector { data: [x, y] }
    }
}

impl<R: Scalar> StateVector<R, 3> {
    pub fn new(x: R, y: R, z: R) -> (s: Self)
        ensures
            s@ == seq![x, y, z],
    {
        StateVector { data: [x, y, z] }
    }
}

impl<R: Scalar> StateVector<R, 4> {
    pub fn new(x: R, y: R, z: R, w: R) -> (s: Self)
        ensures
            s@ == seq![x, y, z, w],
    {
        StateVector { data: [x, y, z, w] }
    }
}

impl<R: Scalar> StateVector<R, 5> {
    pub fn new(x: R, y: R, z: R, w: R, a: R) -> (s: Self)
        ensures
            s@ == seq![x, y, z, w, a],
    {
        StateVector { data: [x, y, z, w, a] }
    }
}

impl<R: Scalar> StateVector<R, 6> {
    pub fn new(x: R, y: R, z: R, w: R, a: R, b: R) -> (s: Self)
        ensures
            s@ == seq![x, y, z, w, a, b],
    {
        StateVector { data: [x, y, z, w, a, b] }
    }
}

impl<R: Scalar, const N: usize> StateVector<R, N> {
    /// The vector whose components are all zero.
    pub fn zeros() -> (s: Self)
        ensures
            s@.len() == N,
            forall|i: int| 0 <= i < N ==> s@[i] == R::spec_zero(),
    {
        StateVector { data: [R::zero(); N] }
    }

    pub fn get(&self, i: usize) -> (r: R)
        requires
            i < N,
        ensures
            r == self@[i as int],
    {
        self.data[i]
    }

    pub fn set(&mut self, i: usize, x: R)
        requires
            i < N,
        ensures
            final(self)@ == old(self)@.update(i as int, x),
    {
        self.data[i] = x;
    }

    /// The smallest component, by a left-to-right scan.
    pub fn min(&self) -> (r: R)
        requires
            N >= 1,
        ensures
            r == smallest(self@, N as int),
    {
        let mut acc = self.data[0];
        let mut k: usize = 1;
        while k < N
            invariant
                1 <= k <= N,
                acc == smallest(self@, k as int),
            decreases N - k,
        {
            if !acc.le(self.data[k]) {
                acc = self.data[k];
            }
            k = k + 1;
        }
        acc
    }

    /// The largest component, by a left-to-right scan.
    pub fn max(&self) -> (r: R)
        requires
            N >= 1,
        ensures
            r == largest(self@, N as int),
    {
        let mut acc = self.data[0];
        let mut k: usize = 1;
        while k < N
            invariant
                1 <= k <= N,
                acc == largest(self@, k as int),
            decreases N - k,
        {
            if !self.data[k].le(acc) {
                acc = self.data[k];
            }
            k = k + 1;
        }
        acc
    }

    fn component_or_extremum(&self, i: usize) -> (r: R)
        requires
            N >= 1,
        ensures
            r == component_or_extremum(self@, i as int),
    {
        if i < N {
            self.data[i]
        } else if i == N {
            self.min()
        } else {
            self.max()
        }
    }
}

impl<R: Scalar, const N: usize> ValidStateCheck for StateVector<R, N> {
    /// Every component is a valid number.
    open spec fn valid(&self) -> bool {
        forall|i: int| 0 <= i < N ==> number_is_valid(#[trigger] self@[i])
    }

    fn is_valid(&self) -> (ok: bool) {
        let mut k: usize = 0;
        while k < N
            invariant
                k <= N,
                forall|i: int| 0 <= i < k ==> number_is_valid(#[trigger] self@[i]),
            decreases N - k,
        {
            if !is_valid_number(&self.data[k]) {
                assert(!number_is_valid(self@[k as int]));
                return false;
            }
            k = k + 1;
        }
        true
    }
}

impl<R: Scalar, const N: usize> FromStateVec for StateVector<R, N> {
    type Number = R;

    open spec fn spec_arity() -> nat {
        N as nat
    }

    /// The vector of the first `N` numbers.
    open spec fn built_from(&self, state: Seq<R>) -> bool {
        self@ == state.subrange(0, N as int)
    }

    fn from(state: InitState<R>) -> (r: Self) {
        let mut data = [R::zero(); N];
        let mut k: usize = 0;
        while k < N
            invariant
                k <= N,
                N <= state@.len(),
                data@.len() == N,
                forall|i: int| 0 <= i < k ==> data@[i] == state@[i],
            decreases N - k,
        {
            data[k] = state[k];
            k = k + 1;
        }
        let r = StateVector { data };
        assert(r@ =~= state@.subrange(0, N as int));
        r
    }
}

impl<R: Scalar> StateIndex for StateVector<R, 1> {
    type Number = R;

    /// The single component, whatever the position.
    open spec fn spec_ind(&self, i: usize) -> R {
        self@[0]
    }

    fn ind(&self, _i: usize) -> (r: R) {
        self.data[0]
    }
}

impl<R: Scalar> StateIndex for StateVector<R, 2> {
    type Number = R;

    open spec fn spec_ind(&self, i: usize) -> R {
        component_or_extremum(self@, i as int)
    }

    fn ind(&self, i: usize) -> (r: R) {
        self.component_or_extremum(i)
    }
}

impl<R: Scalar> StateIndex for StateVector<R, 3> {
    type Number = R;

    open spec fn spec_ind(&self, i: usize) -> R {
        component_or_extremum(self@, i as int)
    }

    fn ind(&self, i: usize) -> (r: R) {
        self.component_or_extremum(i)
    }
}

impl<R: Scalar> StateIndex for StateVector<R, 4> {
    type Number = R;

    open spec fn spec_ind(&self, i: usize) -> R {
        component_or_extremum(self@, i as int)
    }

    fn ind(&self, i: usize) -> (r: R) {
        self.component_or_extremum(i)
    }
}

impl<R: Scalar> StateIndex for StateVector<R, 5> {
    type Number = R;

    open spec fn spec_ind(&self, i: usize) -> R {
        component_or_extremum(self@, i as int)
    }

    fn ind(&self, i: usize) -> (r: R) {
        self.component_or_extremum(i)
    }
}

impl<R: Scalar> StateIndex for StateVector<R, 6> {
    type Number = R;

    open spec fn spec_ind(&self, i: usize) -> R {
        component_or_extremum(self@, i as int)
    }

    fn ind(&self, i: usize) -> (r: R) {
        self.component_or_extremum(i)
    }
}

} // verus!
