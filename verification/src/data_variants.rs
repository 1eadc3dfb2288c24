//! The kinds of ensemble there are, and the initial distributions that each
//! kind is drawn from.
use vstd::prelude::*;
use crate::chaos_data::{ensemble_fits, ensemble_size, mesh_count, sample_of, ChaosData};
use crate::distribution::{all_admissible, InitialDistributionVariant, RandomVariate};
use crate::fractal_data::{FractalComplex, FractalDual, FractalPerplex, FractalQuaternion};
use crate::particle_variants::{ParticleXY, ParticleXYZ};
use crate::states::{
    DistributionDimensions, FractalDimensions, DIMS_INIT_FRACTALCOMPLEX, DIMS_INIT_FRACTALDUAL,
    DIMS_INIT_FRACTALPERPLEX, DIMS_INIT_FRACTALQUATERNION, DIMS_INIT_PARTICLEXY,
    DIMS_INIT_PARTICLEXYZ,
};
use crate::vector::{State1, State2, State3, State4};

verus! {

/// An ensemble of one of the kinds of sample.
pub enum ChaosDataVariant<R> {
    State1(ChaosData<State1<R>>),
    State2(ChaosData<State2<R>>),
    State3(ChaosData<State3<R>>),
    State4(ChaosData<State4<R>>),
    ParticleXY(ChaosData<ParticleXY<R>>),
    ParticleXYZ(ChaosData<ParticleXYZ<R>>),
    FractalComplex(ChaosData<FractalComplex<R>>),
    FractalDual(ChaosData<FractalDual<R>>),
    FractalPerplex(ChaosData<FractalPerplex<R>>),
    FractalQuaternion(ChaosData<FractalQuaternion<R>>),
}

/// Several ensembles of one kind of sample.
pub enum ChaosDataVec<'a, R> {
    State1(Vec<&'a ChaosData<State1<R>>>),
    State2(Vec<&'a ChaosData<State2<R>>>),
    State3(Vec<&'a ChaosData<State3<R>>>),
    State4(Vec<&'a ChaosData<State4<R>>>),
    ParticleXY(Vec<&'a ChaosData<ParticleXY<R>>>),
    ParticleXYZ(Vec<&'a ChaosData<ParticleXYZ<R>>>),
    FractalComplex(Vec<&'a ChaosData<FractalComplex<R>>>),
    FractalDual(Vec<&'a ChaosData<FractalDual<R>>>),
    FractalPerplex(Vec<&'a ChaosData<FractalPerplex<R>>>),
    FractalQuaternion(Vec<&'a ChaosData<FractalQuaternion<R>>>),
}

fn single<'a, T>(item: &'a T) -> (items: Vec<&'a T>)
    ensures
        items@.len() == 1,
        *items@[0] == *item,
{
    let mut items: Vec<&'a T> = Vec::new();
    items.push(item);
    items
}

impl<'a, R> ChaosDataVec<'a, R> {
    /// The one ensemble, as a list of ensembles of its kind.
    pub fn from_chaos_data(chaos_data_variant: &'a ChaosDataVariant<R>) -> (data: Self)
        ensures
            match (*chaos_data_variant, data) {
                (ChaosDataVariant::State1(d), ChaosDataVec::State1(v)) => v@.len() == 1 && *v@[0]
                    == d,
                (ChaosDataVariant::State2(d), ChaosDataVec::State2(v)) => v@.len() == 1 && *v@[0]
                    == d,
                (ChaosDataVariant::State3(d), ChaosDataVec::State3(v)) => v@.len() == 1 && *v@[0]
                    == d,
                (ChaosDataVariant::State4(d), ChaosDataVec::State4(v)) => v@.len() == 1 && *v@[0]
                    == d,
                (ChaosDataVariant::ParticleXY(d), ChaosDataVec::ParticleXY(v)) => v@.len() == 1
                    && *v@[0] == d,
                (ChaosDataVariant::ParticleXYZ(d), ChaosDataVec::ParticleXYZ(v)) => v@.len() == 1
                    && *v@[0] == d,
                (ChaosDataVariant::FractalComplex(d), ChaosDataVec::FractalComplex(v)) => v@.len()
                    == 1 && *v@[0] == d,
                (ChaosDataVariant::FractalDual(d), ChaosDataVec::FractalDual(v)) => v@.len() == 1
                    && *v@[0] == d,
                (ChaosDataVariant::FractalPerplex(d), ChaosDataVec::FractalPerplex(v)) => v@.len()
                    == 1 && *v@[0] == d,
                (
                    ChaosDataVariant::FractalQuaternion(d),
                    ChaosDataVec::FractalQuaternion(v),
                ) => v@.len() == 1 && *v@[0] == d,
                _ => false,
            },
    {
        match chaos_data_variant {
            ChaosDataVariant::State1(chaos_data) => ChaosDataVec::State1(single(chaos_data)),
            ChaosDataVariant::State2(chaos_data) => ChaosDataVec::State2(single(chaos_data)),
            ChaosDataVariant::State3(chaos_data) => ChaosDataVec::State3(single(chaos_data)),
            ChaosDataVariant::State4(chaos_data) => ChaosDataVec::State4(single(chaos_data)),
            ChaosDataVariant::ParticleXY(chaos_data) => ChaosDataVec::ParticleXY(
                single(chaos_data),
            ),
            ChaosDataVariant::ParticleXYZ(chaos_data) => ChaosDataVec::ParticleXYZ(
                single(chaos_data),
            ),
            ChaosDataVariant::FractalComplex(chaos_data) => ChaosDataVec::FractalComplex(
                single(chaos_data),
            ),
            ChaosDataVariant::FractalDual(chaos_data) => ChaosDataVec::FractalDual(
                single(chaos_data),
            ),
            ChaosDataVariant::FractalPerplex(chaos_data) => ChaosDataVec::FractalPerplex(
                single(chaos_data),
            ),
            ChaosDataVariant::FractalQuaternion(chaos_data) => ChaosDataVec::FractalQuaternion(
                single(chaos_data),
            ),
        }
    }

    /// What the samples of these ensembles are made of.
    pub fn dimensionality(&self) -> (dims: DistributionDimensions)
        ensures
            dims == (match *self {
                ChaosDataVec::State1(_) => DistributionDimensions::State(1),
                ChaosDataVec::State2(_) => DistributionDimensions::State(2),
                ChaosDataVec::State3(_) => DistributionDimensions::State(3),
                ChaosDataVec::State4(_) => DistributionDimensions::State(4),
                ChaosDataVec::ParticleXY(_) => DistributionDimensions::Particle(2),
                ChaosDataVec::ParticleXYZ(_) => DistributionDimensions::Particle(3),
                ChaosDataVec::FractalComplex(_) => DistributionDimensions::Fractal(
                    FractalDimensions::Complex,
                ),
                ChaosDataVec::FractalDual(_) => DistributionDimensions::Fractal(
                    FractalDimensions::Dual,
                ),
                ChaosDataVec::FractalPerplex(_) => DistributionDimensions::Fractal(
                    FractalDimensions::Perplex,
                ),
                ChaosDataVec::FractalQuaternion(_) => DistributionDimensions::Fractal(
                    FractalDimensions::Quaternion,
                ),
            }),
    {
        match self {
            ChaosDataVec::State1(_) => DistributionDimensions::State(1),
            ChaosDataVec::State2(_) => DistributionDimensions::State(2),
            ChaosDataVec::State3(_) => DistributionDimensions::State(3),
            ChaosDataVec::State4(_) => DistributionDimensions::State(4),
            ChaosDataVec::ParticleXY(_) => DistributionDimensions::Particle(2),
            ChaosDataVec::ParticleXYZ(_) => DistributionDimensions::Particle(3),
            ChaosDataVec::FractalComplex(_) => DistributionDimensions::Fractal(
                FractalDimensions::Complex,
            ),
            ChaosDataVec::FractalDual(_) => DistributionDimensions::Fractal(
                FractalDimensions::Dual,
            ),
            ChaosDataVec::FractalPerplex(_) => DistributionDimensions::Fractal(
                FractalDimensions::Perplex,
            ),
            ChaosDataVec::FractalQuaternion(_) => DistributionDimensions::Fractal(
                FractalDimensions::Quaternion,
            ),
        }
    }
}

/// The initial distributions of an ensemble, one per number that a sample
/// is built from.
#[derive(Clone)]
pub enum InitialDistributionConfig<R> {
    States(Vec<InitialDistributionVariant<R>>),
    ParticleXY([InitialDistributionVariant<R>; DIMS_INIT_PARTICLEXY]),
    ParticleXYZ([InitialDistributionVariant<R>; DIMS_INIT_PARTICLEXYZ]),
    FractalComplex([InitialDistributionVariant<R>; DIMS_INIT_FRACTALCOMPLEX]),
    FractalDual([InitialDistributionVariant<R>; DIMS_INIT_FRACTALDUAL]),
    FractalPerplex([InitialDistributionVariant<R>; DIMS_INIT_FRACTALPERPLEX]),
    FractalQuaternion([InitialDistributionVariant<R>; DIMS_INIT_FRACTALQUATERNION]),
}

/// A fault in how an execution is set up.
#[derive(Debug, Clone, Copy, PartialEq, Eq)]
pub enum ChaosError {
    /// Plain states have one to four components.
    DimensionsNotImplemented,
    /// A map or solver is made for samples of another kind than the
    /// ensemble holds.
    DimensionMismatch,
}

impl ChaosError {
    pub open spec fn spec_message(&self) -> Seq<char> {
        match self {
            ChaosError::DimensionsNotImplemented => "More than 4 dimensions are not implemented!"@,
            ChaosError::DimensionMismatch => "Dimension mismatch between data and discrete map / ode-system. Removing the chaotic function!"@,
        }
    }

    pub fn message(&self) -> (text: &'static str)
        ensures
            text@ == self.spec_message(),
    {
        match self {
            ChaosError::DimensionsNotImplemented => "More than 4 dimensions are not implemented!",
            ChaosError::DimensionMismatch => "Dimension mismatch between data and discrete map / ode-system. Removing the chaotic function!",
        }
    }
}

/// Whether two kinds of sample are the same kind.
pub open spec fn same_dimensions(a: DistributionDimensions, b: DistributionDimensions) -> bool {
    a == b
}

fn same_fractal(a: &FractalDimensions, b: &FractalDimensions) -> (same: bool)
    ensures
        same == (*a == *b),
{
    match (a, b) {
        (FractalDimensions::Complex, FractalDimensions::Complex) => true,
        (FractalDimensions::Dual, FractalDimensions::Dual) => true,
        (FractalDimensions::Perplex, FractalDimensions::Perplex) => true,
        (FractalDimensions::Quaternion, FractalDimensions::Quaternion) => true,
        _ => false,
    }
}

/// A map or solver can advance an ensemble only if it is made for the kind
/// of sample that the ensemble holds; anything else is a mismatch.
pub fn check_dimensions(data: &DistributionDimensions, function: &DistributionDimensions) -> (result:
    Result<(), ChaosError>)
    ensures
        result is Ok <==> same_dimensions(*data, *function),
        result is Err ==> result == Err::<(), ChaosError>(ChaosError::DimensionMismatch),
{
    let same = match (data, function) {
        (DistributionDimensions::State(n), DistributionDimensions::State(m)) => *n == *m,
        (DistributionDimensions::Particle(n), DistributionDimensions::Particle(m)) => *n == *m,
        (DistributionDimensions::Fractal(d), DistributionDimensions::Fractal(e)) => same_fractal(
            d,
            e,
        ),
        _ => false,
    };
    if same {
        Ok(())
    } else {
        Err(ChaosError::DimensionMismatch)
    }
}

impl<R> InitialDistributionConfig<R> {
    /// The distributions as a sequence, whatever the kind of ensemble.
    pub open spec fn distributions(&self) -> Seq<InitialDistributionVariant<R>> {
        match *self {
            InitialDistributionConfig::States(v) => v@,
            InitialDistributionConfig::ParticleXY(a) => a@,
            InitialDistributionConfig::ParticleXYZ(a) => a@,
            InitialDistributionConfig::FractalComplex(a) => a@,
            InitialDistributionConfig::FractalDual(a) => a@,
            InitialDistributionConfig::FractalPerplex(a) => a@,
            InitialDistributionConfig::FractalQuaternion(a) => a@,
        }
    }

    /// What the samples drawn from these distributions are made of.
    pub open spec fn spec_dimensionality(&self) -> DistributionDimensions {
        match *self {
            InitialDistributionConfig::States(v) => DistributionDimensions::State(v@.len() as usize),
            InitialDistributionConfig::ParticleXY(_) => DistributionDimensions::Particle(2),
            InitialDistributionConfig::ParticleXYZ(_) => DistributionDimensions::Particle(3),
            InitialDistributionConfig::FractalComplex(_) => DistributionDimensions::Fractal(
                FractalDimensions::Complex,
            ),
            InitialDistributionConfig::FractalDual(_) => DistributionDimensions::Fractal(
                FractalDimensions::Dual,
            ),
            InitialDistributionConfig::FractalPerplex(_) => DistributionDimensions::Fractal(
                FractalDimensions::Perplex,
            ),
            InitialDistributionConfig::FractalQuaternion(_) => DistributionDimensions::Fractal(
                FractalDimensions::Quaternion,
            ),
        }
    }

    pub fn dimensionality(&self) -> (dims: DistributionDimensions)
        ensures
            dims == self.spec_dimensionality(),
    {
        match self {
            Self::States(v) => DistributionDimensions::State(v.len()),
            Self::ParticleXY(_) => DistributionDimensions::Particle(2),
            Self::ParticleXYZ(_) => DistributionDimensions::Particle(3),
            Self::FractalComplex(_) => DistributionDimensions::Fractal(FractalDimensions::Complex),
            Self::FractalDual(_) => DistributionDimensions::Fractal(FractalDimensions::Dual),
            Self::FractalPerplex(_) => DistributionDimensions::Fractal(FractalDimensions::Perplex),
            Self::FractalQuaternion(_) => DistributionDimensions::Fractal(
                FractalDimensions::Quaternion,
            ),
        }
    }
}

impl<R> Default for InitialDistributionConfig<R> {
    fn default() -> (config: Self)
        ensures
            config matches InitialDistributionConfig::States(v) && v@.len() == 0,
    {
        Self::States(Vec::new())
    }
}

impl<R: RandomVariate> ChaosDataVariant<R> {
    /// The samples of the ensemble as slots without their values: how many
    /// there are.
    pub open spec fn len(&self) -> nat {
        match *self {
            ChaosDataVariant::State1(d) => d@.len(),
            ChaosDataVariant::State2(d) => d@.len(),
            ChaosDataVariant::State3(d) => d@.len(),
            ChaosDataVariant::State4(d) => d@.len(),
            ChaosDataVariant::ParticleXY(d) => d@.len(),
            ChaosDataVariant::ParticleXYZ(d) => d@.len(),
            ChaosDataVariant::FractalComplex(d) => d@.len(),
            ChaosDataVariant::FractalDual(d) => d@.len(),
            ChaosDataVariant::FractalPerplex(d) => d@.len(),
            ChaosDataVariant::FractalQuaternion(d) => d@.len(),
        }
    }

    /// Whether the ensemble is of the kind that `config` asks for.
    pub open spec fn kind_matches(&self, config: InitialDistributionConfig<R>) -> bool {
        match (config, *self) {
            (InitialDistributionConfig::States(v), ChaosDataVariant::State1(_)) => v@.len() == 1,
            (InitialDistributionConfig::States(v), ChaosDataVariant::State2(_)) => v@.len() == 2,
            (InitialDistributionConfig::States(v), ChaosDataVariant::State3(_)) => v@.len() == 3,
            (InitialDistributionConfig::States(v), ChaosDataVariant::State4(_)) => v@.len() == 4,
            (InitialDistributionConfig::ParticleXY(_), ChaosDataVariant::ParticleXY(_)) => true,
            (InitialDistributionConfig::ParticleXYZ(_), ChaosDataVariant::ParticleXYZ(_)) => true,
            (
                InitialDistributionConfig::FractalComplex(_),
                ChaosDataVariant::FractalComplex(_),
            ) => true,
            (InitialDistributionConfig::FractalDual(_), ChaosDataVariant::FractalDual(_)) => true,
            (
                InitialDistributionConfig::FractalPerplex(_),
                ChaosDataVariant::FractalPerplex(_),
            ) => true,
            (
                InitialDistributionConfig::FractalQuaternion(_),
                ChaosDataVariant::FractalQuaternion(_),
            ) => true,
            _ => false,
        }
    }

    /// Whether every slot holds a sample drawn from `distributions`, with
    /// `num_samples` values along every mesh axis.
    pub open spec fn drawn_from(
        &self,
        distributions: Seq<InitialDistributionVariant<R>>,
        num_samples: int,
    ) -> bool {
        match *self {
            ChaosDataVariant::State1(d) => all_drawn(d@, distributions, num_samples),
            ChaosDataVariant::State2(d) => all_drawn(d@, distributions, num_samples),
            ChaosDataVariant::State3(d) => all_drawn(d@, distributions, num_samples),
            ChaosDataVariant::State4(d) => all_drawn(d@, distributions, num_samples),
            ChaosDataVariant::ParticleXY(d) => all_drawn(d@, distributions, num_samples),
            ChaosDataVariant::ParticleXYZ(d) => all_drawn(d@, distributions, num_samples),
            ChaosDataVariant::FractalComplex(d) => all_drawn(d@, distributions, num_samples),
            ChaosDataVariant::FractalDual(d) => all_drawn(d@, distributions, num_samples),
            ChaosDataVariant::FractalPerplex(d) => all_drawn(d@, distributions, num_samples),
            ChaosDataVariant::FractalQuaternion(d) => all_drawn(d@, distributions, num_samples),
        }
    }

    /// A fresh ensemble of the kind that `config` asks for. Plain states
    /// are made of one to four components; any other number is refused.
    pub fn generate_initial_chaos_data(
        num_samples: usize,
        config: &InitialDistributionConfig<R>,
    ) -> (result: Result<Self, ChaosError>)
        requires
            ensemble_fits(num_samples as int, mesh_count(config.distributions())),
            all_admissible(config.distributions()),
        ensures
            result is Err <==> (config matches InitialDistributionConfig::States(v) && !(1
                <= v@.len() <= 4)),
            result matches Ok(data) ==> {
                &&& data.kind_matches(*config)
                &&& data.len() == ensemble_size(
                    num_samples as int,
                    mesh_count(config.distributions()),
                )
                &&& data.drawn_from(config.distributions(), num_samples as int)
            },
    {
        match config {
            InitialDistributionConfig::States(init_distr) => match init_distr.len() {
                1 => Ok(ChaosDataVariant::State1(ChaosData::new(num_samples, init_distr.as_slice()))),
                2 => Ok(ChaosDataVariant::State2(ChaosData::new(num_samples, init_distr.as_slice()))),
                3 => Ok(ChaosDataVariant::State3(ChaosData::new(num_samples, init_distr.as_slice()))),
                4 => Ok(ChaosDataVariant::State4(ChaosData::new(num_samples, init_distr.as_slice()))),
                _ => Err(ChaosError::DimensionsNotImplemented),
            },
            InitialDistributionConfig::ParticleXY(init_distr) => Ok(
                ChaosDataVariant::ParticleXY(ChaosData::new(num_samples, init_distr.as_slice())),
            ),
            InitialDistributionConfig::ParticleXYZ(init_distr) => Ok(
                ChaosDataVariant::ParticleXYZ(ChaosData::new(num_samples, init_distr.as_slice())),
            ),
            InitialDistributionConfig::FractalComplex(init_distr) => Ok(
                ChaosDataVariant::FractalComplex(ChaosData::new(num_samples, init_distr.as_slice())),
            ),
            InitialDistributionConfig::FractalDual(init_distr) => Ok(
                ChaosDataVariant::FractalDual(ChaosData::new(num_samples, init_distr.as_slice())),
            ),
            InitialDistributionConfig::FractalPerplex(init_distr) => Ok(
                ChaosDataVariant::FractalPerplex(ChaosData::new(num_samples, init_distr.as_slice())),
            ),
            InitialDistributionConfig::FractalQuaternion(init_distr) => Ok(
                ChaosDataVariant::FractalQuaternion(
                    ChaosData::new(num_samples, init_distr.as_slice()),
                ),
            ),
        }
    }
}

/// Whether every slot holds a sample drawn from `distributions`, with
/// `num_samples` values along every mesh axis.
pub open spec fn all_drawn<V: crate::states::FromStateVec>(
    slots: Seq<Option<V>>,
    distributions: Seq<InitialDistributionVariant<V::Number>>,
    num_samples: int,
) -> bool where V::Number: RandomVariate {
    forall|i: int|
        0 <= i < slots.len() ==> (#[trigger] slots[i]) is Some && sample_of(
            slots[i]->Some_0,
            distributions,
            num_samples,
            slots.len() as int,
            i,
        )
}

impl<R: crate::scalar::Scalar> InitialDistributionConfig<R> {
    /// A short name for the configuration: the names of the distributions
    /// of plain states, or the kind of ensemble.
    pub fn label(&self) -> (text: String)
        ensures
            !(self is States) ==> text@ == (match *self {
                InitialDistributionConfig::ParticleXY(_) => "Particles 3D"@,
                InitialDistributionConfig::ParticleXYZ(_) => "Particles 2D"@,
                InitialDistributionConfig::FractalComplex(_) => "Fractal Complex"@,
                InitialDistributionConfig::FractalDual(_) => "Fractal Dual Numbers"@,
                InitialDistributionConfig::FractalPerplex(_) => "Fractal Perplex Numbers"@,
                _ => "Fractal Quaternion"@,
            }),
            self matches InitialDistributionConfig::States(v) ==> text@ == joined_names(
                v@,
                v@.len(),
            ),
    {
        match self {
            InitialDistributionConfig::States(vars) => {
                if vars.len() == 0 {
                    "empty".to_owned()
                } else {
                    let mut text = vars[0].name().to_owned();
                    let mut k: usize = 1;
                    while k < vars.len()
                        invariant
                            1 <= k <= vars@.len(),
                            text@ == joined_names(vars@, k as nat),
                        decreases vars@.len() - k,
                    {
                        text.append(" ");
                        text.append(vars[k].name());
                        k = k + 1;
                    }
                    text
                }
            },
            InitialDistributionConfig::ParticleXY(_) => "Particles 3D".to_owned(),
            InitialDistributionConfig::ParticleXYZ(_) => "Particles 2D".to_owned(),
            InitialDistributionConfig::FractalComplex(_) => "Fractal Complex".to_owned(),
            InitialDistributionConfig::FractalDual(_) => "Fractal Dual Numbers".to_owned(),
            InitialDistributionConfig::FractalPerplex(_) => "Fractal Perplex Numbers".to_owned(),
            InitialDistributionConfig::FractalQuaternion(_) => "Fractal Quaternion".to_owned(),
        }
    }
}

/// The names of the first `k` distributions, separated by blanks; `empty`
/// where there is none.
pub open spec fn joined_names<R: crate::scalar::Scalar>(
    distributions: Seq<InitialDistributionVariant<R>>,
    k: nat,
) -> Seq<char>
    decreases k,
{
    if k == 0 {
        "empty"@
    } else if k == 1 {
        distributions[0].spec_name()
    } else {
        joined_names(distributions, (k - 1) as nat) + " "@ + distributions[k - 1].spec_name()
    }
}

} // verus!
