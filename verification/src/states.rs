//! Sample states: the validity filter, fixed-arity state vectors and the
//! dimension bookkeeping of an ensemble.
use vstd::prelude::*;
use crate::scalar::Scalar;

verus! {

/// The numbers from which one sample is built, one per initial distribution.
pub type InitState<R> = Vec<R>;

/// Smallest integer a component of a valid state may take.
pub const VALID_MIN: i16 = -32767;

/// Largest integer a component of a valid state may take.
pub const VALID_MAX: i16 = 32767;

/// Read access to the numbers a state exposes, by position.
pub trait StateIndex {
    type Number;

    /// The number that `ind` returns at position `i`.
    open spec fn spec_ind(&self, i: usize) -> Self::Number {
        arbitrary()
    }

    fn ind(&self, i: usize) -> (r: Self::Number)
        ensures
            r == self.spec_ind(i),
    ;
}

/// Construction of a state from the numbers drawn for it.
pub trait FromStateVec: Sized {
    type Number;

    /// How many leading numbers `from` reads.
    open spec fn spec_arity() -> nat {
        arbitrary()
    }

    /// Whether `self` is the state that `from` builds out of `state`.
    open spec fn built_from(&self, state: Seq<Self::Number>) -> bool {
        arbitrary()
    }

    fn from(state: InitState<Self::Number>) -> (r: Self)
        requires
            state@.len() >= Self::spec_arity(),
        ensures
            r.built_from(state@),
    ;
}

/// The validity filter: a sample whose state fails it dies.
pub trait ValidStateCheck {
    /// The states that pass the filter.
    open spec fn valid(&self) -> bool {
        arbitrary()
    }

    fn is_valid(&self) -> (ok: bool)
        ensures
            ok == self.valid(),
    ;
}

/// A number is valid when it is finite and lies within the symmetric bound.
pub open spec fn number_is_valid<R: Scalar>(x: R) -> bool {
    &&& x.spec_is_finite()
    &&& R::spec_from_int(VALID_MIN as int).spec_le(x)
    &&& x.spec_le(R::spec_from_int(VALID_MAX as int))
}

pub fn is_valid_number<R: Scalar>(x: &R) -> (ok: bool)
    ensures
        ok == number_is_valid(*x),
{
    if x.is_finite() {
        return R::from_i16(VALID_MIN).le(*x) && x.le(R::from_i16(VALID_MAX));
    }
    false
}

/// What a column of an ensemble's initial distribution describes.
#[derive(Debug, Clone, PartialEq, Eq)]
pub enum DistributionDimensions {
    /// A plain state of the given number of components.
    State(usize),
    /// A particle with the given number of spatial coordinates.
    Particle(usize),
    /// A fractal element over the given algebra.
    Fractal(FractalDimensions),
}

#[derive(Debug, Clone, Copy, PartialEq, Eq)]
pub enum FractalDimensions {
    Complex,
    Dual,
    Perplex,
    Quaternion,
}

pub const DIMS_INIT_PARTICLEXY: usize = 7;

pub const NUM_DIMS_PARTICLEXY: usize = 8;

pub const DIMS_INIT_PARTICLEXYZ: usize = 9;

pub const NUM_DIMS_PARTICLEXYZ: usize = 10;

pub const DIMS_INIT_FRACTALCOMPLEX: usize = 2;

pub const NUM_DIMS_FRACTALCOMPLEX: usize = 5;

pub const DIMS_INIT_FRACTALDUAL: usize = 2;

pub const DIMS_INIT_FRACTALPERPLEX: usize = 2;

pub const NUM_DIMS_FRACTALDUAL: usize = 5;

pub const NUM_DIMS_FRACTALPERPLEX: usize = 5;

pub const DIMS_INIT_FRACTALQUATERNION: usize = 4;

pub const NUM_DIMS_FRACTALQUATERNION: usize = 9;

impl DistributionDimensions {
    /// Number of values a sample exposes for display: its components, and
    /// what is derived from them.
    pub open spec fn spec_number_of_dimensions(&self) -> int {
        match self {
            DistributionDimensions::State(n) => if *n <= 1 {
                *n as int
            } else {
                *n + 2
            },
            DistributionDimensions::Particle(n) => *n * 2 + 4,
            DistributionDimensions::Fractal(d) => match d {
                FractalDimensions::Quaternion => 9,
                _ => 5,
            },
        }
    }

    /// Number of initial distributions a sample is drawn from.
    pub open spec fn spec_num_init_dimensions(&self) -> int {
        match self {
            DistributionDimensions::State(n) => *n as int,
            DistributionDimensions::Particle(n) => *n * 2 + 3,
            DistributionDimensions::Fractal(d) => match d {
                FractalDimensions::Quaternion => 4,
                _ => 2,
            },
        }
    }

    pub fn number_of_dimensions(&self) -> (r: usize)
        requires
            self.spec_number_of_dimensions() <= usize::MAX,
        ensures
            r == self.spec_number_of_dimensions(),
    {
        match self {
            DistributionDimensions::State(n) => {
                if *n <= 1 {
                    *n
                } else {
                    *n + 2
                }
            },
            DistributionDimensions::Particle(n) => *n * 2 + 4,
            DistributionDimensions::Fractal(d) => match d {
                FractalDimensions::Complex => 5,
                FractalDimensions::Dual => 5,
                FractalDimensions::Perplex => 5,
                FractalDimensions::Quaternion => 9,
            },
        }
    }

    pub fn num_init_dimensions(&self) -> (r: usize)
        requires
            self.spec_num_init_dimensions() <= usize::MAX,
        ensures
            r == self.spec_num_init_dimensions(),
    {
        match self {
            DistributionDimensions::State(n) => *n,
            DistributionDimensions::Particle(n) => *n * 2 + 3,
            DistributionDimensions::Fractal(d) => match d {
                FractalDimensions::Complex => 2,
                FractalDimensions::Dual => 2,
                FractalDimensions::Perplex => 2,
                FractalDimensions::Quaternion => 4,
            },
        }
    }
}

} // verus!
