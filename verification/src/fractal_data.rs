//! The state of one point of a fractal: where the iteration started, where
//! it stands, and what has been observed on the way.
use vstd::prelude::*;
use crate::scalar::Scalar;
use crate::states::{FromStateVec, InitState, StateIndex, ValidStateCheck};

verus! {

/// The iteration of one element `E` of an algebra.
#[derive(Clone, Debug)]
pub struct FractalData<E> {
    pub z_0: E,
    pub z_n: E,
    pub n: usize,
    pub biomorph: bool,
    pub first: bool,
    pub last: bool,
}

impl<E> FractalData<E> {
    /// The element the iteration started from.
    pub fn z_0(&self) -> (z: &E)
        ensures
            *z == self.z_0,
    {
        &self.z_0
    }

    /// The element the iteration has reached.
    pub fn z_n(&self) -> (z: &E)
        ensures
            *z == self.z_n,
    {
        &self.z_n
    }

    /// Takes one step of the iteration to `z`.
    pub fn set_next_z_n(&mut self, z: E)
        requires
            old(self).n < usize::MAX,
        ensures
            *final(self) == (FractalData { z_n: z, n: (old(self).n + 1) as usize, ..*old(self) }),
    {
        self.z_n = z;
        self.n += 1;
    }

    /// Number of steps taken so far.
    pub fn num_iterations(&self) -> (n: usize)
        ensures
            n == self.n,
    {
        self.n
    }

    pub fn set_biomorph(&mut self)
        ensures
            *final(self) == (FractalData { biomorph: true, ..*old(self) }),
    {
        self.biomorph = true;
    }

    pub fn set_first(&mut self)
        ensures
            *final(self) == (FractalData { first: true, ..*old(self) }),
    {
        self.first = true;
    }

    pub fn set_last(&mut self)
        ensures
            *final(self) == (FractalData { last: true, ..*old(self) }),
    {
        self.last = true;
    }

    pub fn biomorph(&self) -> (b: bool)
        ensures
            b == self.biomorph,
    {
        self.biomorph
    }

    pub fn first(&self) -> (b: bool)
        ensures
            b == self.first,
    {
        self.first
    }

    pub fn last(&self) -> (b: bool)
        ensures
            b == self.last,
    {
        self.last
    }
}

impl<E: Copy> FractalData<E> {
    /// The iteration that is about to start from `z`.
    pub fn new(z: E) -> (data: Self)
        ensures
            data == (FractalData {
                z_0: z,
                z_n: z,
                n: 0,
                biomorph: false,
                first: false,
                last: false,
            }),
    {
        Self { z_0: z, z_n: z, n: 0, biomorph: false, first: false, last: false }
    }
}

impl<T> ValidStateCheck for FractalData<T> {
    /// A point of a fractal is never filtered out: whether it has escaped is
    /// for the iteration to decide.
    open spec fn valid(&self) -> bool {
        true
    }

    fn is_valid(&self) -> (ok: bool) {
        true
    }
}

/// A complex number by its real and imaginary part.
#[derive(Clone, Copy, Debug, PartialEq)]
pub struct Complex<R> {
    pub re: R,
    pub im: R,
}

/// A dual number by its real and infinitesimal part.
#[derive(Clone, Copy, Debug, PartialEq)]
pub struct Dual<R> {
    pub re: R,
    pub eps: R,
}

/// A perplex number by its time and space part.
#[derive(Clone, Copy, Debug, PartialEq)]
pub struct Perplex<R> {
    pub t: R,
    pub x: R,
}

/// A quaternion by its scalar part and the three parts of its vector.
#[derive(Clone, Copy, Debug, PartialEq)]
pub struct Quaternion<R> {
    pub w: R,
    pub i: R,
    pub j: R,
    pub k: R,
}

pub type FractalComplex<R> = FractalData<Complex<R>>;

pub type FractalDual<R> = FractalData<Dual<R>>;

pub type FractalPerplex<R> = FractalData<Perplex<R>>;

pub type FractalQuaternion<R> = FractalData<Quaternion<R>>;

impl<R: Scalar> FromStateVec for FractalData<Complex<R>> {
    type Number = R;

    open spec fn spec_arity() -> nat {
        2
    }

    open spec fn built_from(&self, state: Seq<R>) -> bool {
        *self == (FractalData {
            z_0: Complex { re: state[0], im: state[1] },
            z_n: Complex { re: state[0], im: state[1] },
            n: 0,
            biomorph: false,
            first: false,
            last: false,
        })
    }

    fn from(state: InitState<R>) -> (data: Self) {
        Self::new(Complex { re: state[0], im: state[1] })
    }
}

impl<R: Scalar> StateIndex for FractalData<Complex<R>> {
    type Number = R;

    open spec fn spec_ind(&self, i: usize) -> R {
        if i == 0 {
            self.z_0.re
        } else if i == 1 {
            self.z_0.im
        } else if i == 2 {
            R::spec_from_int(self.n as int)
        } else if i == 3 {
            self.z_n.re
        } else if i == 4 {
            self.z_n.im
        } else {
            R::spec_zero()
        }
    }

    fn ind(&self, i: usize) -> (r: R) {
        match i {
            0 => self.z_0.re,
            1 => self.z_0.im,
            2 => R::from_usize(self.n),
            3 => self.z_n.re,
            4 => self.z_n.im,
            _ => R::zero(),
        }
    }
}

impl<R: Scalar> FromStateVec for FractalData<Dual<R>> {
    type Number = R;

    open spec fn spec_arity() -> nat {
        2
    }

    open spec fn built_from(&self, state: Seq<R>) -> bool {
        *self == (FractalData {
            z_0: Dual { re: state[0], eps: state[1] },
            z_n: Dual { re: state[0], eps: state[1] },
            n: 0,
            biomorph: false,
            first: false,
            last: false,
        })
    }

    fn from(state: InitState<R>) -> (data: Self) {
        Self::new(Dual { re: state[0], eps: state[1] })
    }
}

impl<R: Scalar> StateIndex for FractalData<Dual<R>> {
    type Number = R;

    open spec fn spec_ind(&self, i: usize) -> R {
        if i == 0 {
            self.z_0.re
        } else if i == 1 {
            self.z_0.eps
        } else if i == 2 {
            R::spec_from_int(self.n as int)
        } else if i == 3 {
            self.z_n.re
        } else if i == 4 {
            self.z_n.eps
        } else {
            R::spec_zero()
        }
    }

    fn ind(&self, i: usize) -> (r: R) {
        match i {
            0 => self.z_0.re,
            1 => self.z_0.eps,
            2 => R::from_usize(self.n),
            3 => self.z_n.re,
            4 => self.z_n.eps,
            _ => R::zero(),
        }
    }
}

impl<R: Scalar> FromStateVec for FractalData<Perplex<R>> {
    type Number = R;

    open spec fn spec_arity() -> nat {
        2
    }

    open spec fn built_from(&self, state: Seq<R>) -> bool {
        *self == (FractalData {
            z_0: Perplex { t: state[0], x: state[1] },
            z_n: Perplex { t: state[0], x: state[1] },
            n: 0,
            biomorph: false,
            first: false,
            last: false,
        })
    }

    fn from(state: InitState<R>) -> (data: Self) {
        Self::new(Perplex { t: state[0], x: state[1] })
    }
}

impl<R: Scalar> StateIndex for FractalData<Perplex<R>> {
    type Number = R;

    open spec fn spec_ind(&self, i: usize) -> R {
        if i == 0 {
            self.z_0.t
        } else if i == 1 {
            self.z_0.x
        } else if i == 2 {
            R::spec_from_int(self.n as int)
        } else if i == 3 {
            self.z_n.t
        } else if i == 4 {
            self.z_n.x
        } else {
            R::spec_zero()
        }
    }

    fn ind(&self, i: usize) -> (r: R) {
        match i {
            0 => self.z_0.t,
            1 => self.z_0.x,
            2 => R::from_usize(self.n),
            3 => self.z_n.t,
            4 => self.z_n.x,
            _ => R::zero(),
        }
    }
}

impl<R: Scalar> FromStateVec for FractalData<Quaternion<R>> {
    type Number = R;

    open spec fn spec_arity() -> nat {
        4
    }

    open spec fn built_from(&self, state: Seq<R>) -> bool {
        *self == (FractalData {
            z_0: Quaternion { w: state[0], i: state[1], j: state[2], k: state[3] },
            z_n: Quaternion { w: state[0], i: state[1], j: state[2], k: state[3] },
            n: 0,
            biomorph: false,
            first: false,
            last: false,
        })
    }

    fn from(state: InitState<R>) -> (data: Self) {
        Self::new(Quaternion { w: state[0], i: state[1], j: state[2], k: state[3] })
    }
}

impl<R: Scalar> StateIndex for FractalData<Quaternion<R>> {
    type Number = R;

    open spec fn spec_ind(&self, i: usize) -> R {
        if i == 0 {
            self.z_0.w
        } else if i == 1 {
            self.z_0.i
        } else if i == 2 {
            self.z_0.j
        } else if i == 3 {
            self.z_0.k
        } else if i == 4 {
            R::spec_from_int(self.n as int)
        } else if i == 5 {
            self.z_n.w
        } else if i == 6 {
            self.z_n.i
        } else if i == 7 {
            self.z_n.j
        } else if i == 8 {
            self.z_n.k
        } else {
            R::spec_zero()
        }
    }

    fn ind(&self, i: usize) -> (r: R) {
        match i {
            0 => self.z_0.w,
            1 => self.z_0.i,
            2 => self.z_0.j,
            3 => self.z_0.k,
            4 => R::from_usize(self.n),
            5 => self.z_n.w,
            6 => self.z_n.i,
            7 => self.z_n.j,
            8 => self.z_n.k,
            _ => R::zero(),
        }
    }
}

} // verus!
