//! Initial distributions: the parameters of each, the deterministic value
//! sequences, and the grids that several mesh axes span together.
use vstd::prelude::*;
use crate::labels::ChaosDescription;
use crate::scalar::Scalar;

verus! {

/// The values of one feature, one per sample.
pub type Feature<R> = Vec<R>;

/// The values of all features, one column per feature.
pub type Features<R> = Vec<Feature<R>>;

/// The values along each mesh axis, before they are spread over a grid.
pub type InitFeatures<R> = Vec<Feature<R>>;

/// Draws of random numbers, one at a time.
///
/// Nothing is promised of a draw but that it is a number the implementation
/// admits for the distribution: the library handles whatever number comes.
pub trait RandomVariate: Scalar {
    /// Whether a draw from `distribution` may give `value`. An
    /// implementation that does not say admits every number.
    open spec fn may_draw(distribution: InitialDistributionVariant<Self>, value: Self) -> bool {
        true
    }

    /// One number drawn from `distribution`, which is one of the
    /// probabilistic variants, with parameters it is defined for.
    fn draw(distribution: &InitialDistributionVariant<Self>) -> (value: Self)
        requires
            distribution.is_probabilistic(),
            distribution.spec_is_admissible(),
        ensures
            Self::may_draw(*distribution, value),
    ;
}

/// The `i`-th value of a feature that is `value` at sample `n` and zero
/// elsewhere.
pub open spec fn eye_at<R: Scalar>(d: Eye<R>, n: int, i: int) -> R {
    if i == n {
        d.value
    } else {
        R::spec_zero()
    }
}

pub fn eye<R: Scalar>(num_points: usize, d: &Eye<R>, n: usize) -> (feature: Feature<R>)
    ensures
        feature@.len() == num_points,
        forall|i: int| 0 <= i < num_points ==> feature@[i] == eye_at(*d, n as int, i),
{
    let mut feature: Vec<R> = Vec::new();
    let mut i: usize = 0;
    while i < num_points
        invariant
            i <= num_points,
            feature@.len() == i,
            forall|k: int| 0 <= k < i ==> feature@[k] == eye_at(*d, n as int, k),
        decreases num_points - i,
    {
        if i == n {
            feature.push(d.value);
        } else {
            feature.push(R::zero());
        }
        i = i + 1;
    }
    feature
}

/// The distance between neighbours when `num_points` values are spread
/// evenly from `low` to `high`, both included.
pub open spec fn even_step<R: Scalar>(num_points: int, low: R, high: R) -> R {
    if num_points > 1 {
        high.spec_minus(low).spec_over(R::spec_from_int(num_points - 1))
    } else {
        R::spec_zero()
    }
}

/// The `i`-th of `num_points` values spread evenly from `low` to `high`.
pub open spec fn linspace_at<R: Scalar>(num_points: int, d: Linspace<R>, i: int) -> R {
    d.low.spec_plus(even_step(num_points, d.low, d.high).spec_times(R::spec_from_int(i)))
}

fn even_step_exec<R: Scalar>(num_points: usize, low: R, high: R) -> (step: R)
    ensures
        step == even_step(num_points as int, low, high),
{
    if num_points > 1 {
        high.minus(low).over(R::from_usize(num_points - 1))
    } else {
        R::zero()
    }
}

pub fn linspace<R: Scalar>(num_points: usize, d: &Linspace<R>) -> (feature: Feature<R>)
    ensures
        feature@.len() == num_points,
        forall|i: int|
            0 <= i < num_points ==> feature@[i] == linspace_at(num_points as int, *d, i),
{
    let step = even_step_exec(num_points, d.low, d.high);
    let start = d.low;
    let mut feature: Vec<R> = Vec::new();
    let mut i: usize = 0;
    while i < num_points
        invariant
            i <= num_points,
            step == even_step(num_points as int, d.low, d.high),
            start == d.low,
            feature@.len() == i,
            forall|k: int| 0 <= k < i ==> feature@[k] == linspace_at(num_points as int, *d, k),
        decreases num_points - i,
    {
        feature.push(start.plus(step.times(R::from_usize(i))));
        i = i + 1;
    }
    feature
}

/// Whether `value` is the `i`-th of `num_points` values from `d.start` to
/// `d.end` whose logarithms are evenly spaced, with the sign of `d.start`,
/// where `start` and `stop` are the logarithms of the magnitudes of the two
/// ends: the exponential of the `i`-th exponent, with that sign.
pub open spec fn geomspace_value<R: Scalar>(
    num_points: int,
    d: Geomspace<R>,
    start: R,
    stop: R,
    i: int,
    value: R,
) -> bool {
    exists|power: R|
        start.spec_plus(even_step(num_points, start, stop).spec_times(R::spec_from_int(i)))
            .exp_admits(power) && value == #[trigger] d.start.spec_signum().spec_times(power)
}

/// Whether `feature` holds `num_points` values from `d.start` to `d.end`
/// whose logarithms are evenly spaced.
pub open spec fn is_geomspace<R: Scalar>(feature: Seq<R>, num_points: int, d: Geomspace<R>) -> bool {
    exists|start: R, stop: R|
        {
            &&& #[trigger] d.start.spec_abs().ln_admits(start)
            &&& #[trigger] d.end.spec_abs().ln_admits(stop)
            &&& forall|i: int|
                0 <= i < num_points ==> geomspace_value(
                    num_points,
                    d,
                    start,
                    stop,
                    i,
                    #[trigger] feature[i],
                )
        }
}

/// Values from `start` to `end` whose logarithms are evenly spaced, with the
/// sign of `start`.
pub fn geomspace<R: Scalar>(num_points: usize, d: &Geomspace<R>) -> (feature: Feature<R>)
    ensures
        feature@.len() == num_points,
        is_geomspace(feature@, num_points as int, *d),
{
    let sign = d.start.signum();
    let start = d.start.abs().ln();
    let stop = d.end.abs().ln();
    let step = even_step_exec(num_points, start, stop);
    let mut feature: Vec<R> = Vec::new();
    let mut i: usize = 0;
    while i < num_points
        invariant
            i <= num_points,
            sign == d.start.spec_signum(),
            step == even_step(num_points as int, start, stop),
            feature@.len() == i,
            forall|k: int|
                0 <= k < i ==> geomspace_value(
                    num_points as int,
                    *d,
                    start,
                    stop,
                    k,
                    #[trigger] feature@[k],
                ),
        decreases num_points - i,
    {
        let exponent = start.plus(step.times(R::from_usize(i)));
        let power = exponent.exp();
        let value = sign.times(power);
        proof {
            assert(value == d.start.spec_signum().spec_times(power));
        }
        feature.push(value);
        i = i + 1;
    }
    feature
}

/// Whether `value` is the `i`-th of `num_points` powers of the magnitude of
/// `d.base` whose exponents are evenly spaced from `d.start` to `d.end`,
/// with the sign of `d.base`.
pub open spec fn logspace_value<R: Scalar>(num_points: int, d: Logspace<R>, i: int, value: R) -> bool {
    exists|power: R|
        d.base.spec_abs().powf_admits(
            d.start.spec_plus(
                even_step(num_points, d.start, d.end).spec_times(R::spec_from_int(i)),
            ),
            power,
        ) && value == #[trigger] d.base.spec_signum().spec_times(power)
}

/// Powers of `base` whose exponents are evenly spaced from `start` to `end`,
/// with the sign of `base`.
pub fn logspace<R: Scalar>(num_points: usize, d: &Logspace<R>) -> (feature: Feature<R>)
    ensures
        feature@.len() == num_points,
        forall|i: int|
            0 <= i < num_points ==> logspace_value(num_points as int, *d, i, #[trigger] feature@[i]),
{
    let step = even_step_exec(num_points, d.start, d.end);
    let start = d.start;
    let base = d.base.abs();
    let sign = d.base.signum();
    let mut feature: Vec<R> = Vec::new();
    let mut i: usize = 0;
    while i < num_points
        invariant
            i <= num_points,
            step == even_step(num_points as int, d.start, d.end),
            start == d.start,
            base == d.base.spec_abs(),
            sign == d.base.spec_signum(),
            feature@.len() == i,
            forall|k: int|
                0 <= k < i ==> logspace_value(num_points as int, *d, k, #[trigger] feature@[k]),
        decreases num_points - i,
    {
        let exponent = start.plus(step.times(R::from_usize(i)));
        let power = base.powf(exponent);
        let value = sign.times(power);
        proof {
            assert(value == d.base.spec_signum().spec_times(power));
        }
        feature.push(value);
        i = i + 1;
    }
    feature
}

/// The same value for every sample.
pub fn fixed<R: Scalar>(num_points: usize, d: &Fixed<R>) -> (feature: Feature<R>)
    ensures
        feature@.len() == num_points,
        forall|i: int| 0 <= i < num_points ==> feature@[i] == d.value,
{
    let mut feature: Vec<R> = Vec::new();
    let mut i: usize = 0;
    while i < num_points
        invariant
            i <= num_points,
            feature@.len() == i,
            forall|k: int| 0 <= k < i ==> feature@[k] == d.value,
        decreases num_points - i,
    {
        feature.push(d.value);
        i = i + 1;
    }
    feature
}

/// `num_points` independent draws from a probabilistic distribution.
pub fn data_gen_from_distribution<R: RandomVariate>(
    distribution: &InitialDistributionVariant<R>,
    num_samples: usize,
) -> (feature: Feature<R>)
    requires
        distribution.is_probabilistic(),
        distribution.spec_is_admissible(),
    ensures
        feature@.len() == num_samples,
        forall|i: int| 0 <= i < num_samples ==> R::may_draw(*distribution, #[trigger] feature@[i]),
{
    let mut feature: Vec<R> = Vec::new();
    let mut i: usize = 0;
    while i < num_samples
        invariant
            i <= num_samples,
            distribution.is_probabilistic(),
            distribution.spec_is_admissible(),
            feature@.len() == i,
            forall|k: int| 0 <= k < i ==> R::may_draw(*distribution, #[trigger] feature@[k]),
        decreases num_samples - i,
    {
        feature.push(R::draw(distribution));
        i = i + 1;
    }
    feature
}

/// Whether a distribution can have `dof` degrees of freedom: they are one,
/// or half of them is positive.
pub open spec fn admissible_freedom<R: Scalar>(dof: R) -> bool {
    dof.spec_equals(R::spec_one()) || R::spec_zero().spec_lt(
        R::spec_one().spec_over(R::spec_from_int(2)).spec_times(dof),
    )
}

pub fn freedom_is_admissible<R: Scalar>(dof: R) -> (ok: bool)
    ensures
        ok == admissible_freedom(dof),
{
    dof.equals(R::one()) || R::zero().lt(R::one().over(R::from_i16(2)).times(dof))
}

/// Whether numbers can be drawn from every one of the distributions.
pub open spec fn all_admissible<R: Scalar>(distributions: Seq<InitialDistributionVariant<R>>) -> bool {
    forall|c: int| 0 <= c < distributions.len() ==> (#[trigger] distributions[c]).spec_is_admissible()
}

/// Whether numbers can be drawn from every one of the distributions.
pub fn are_admissible<R: Scalar>(distributions: &[InitialDistributionVariant<R>]) -> (ok: bool)
    ensures
        ok == all_admissible(distributions@),
{
    let mut c: usize = 0;
    while c < distributions.len()
        invariant
            c <= distributions@.len(),
            forall|k: int| 0 <= k < c ==> (#[trigger] distributions@[k]).spec_is_admissible(),
        decreases distributions@.len() - c,
    {
        if !distributions[c].is_admissible() {
            return false;
        }
        c = c + 1;
    }
    true
}

/// The parameters as they are: the check of a distribution that is defined
/// for every choice of them.
pub fn no_check<T>(_t: &mut T)
    ensures
        *final(_t) == *old(_t),
{
}

/// A triangular distribution whose bounds are in order and enclose its mode:
/// `high` is raised to `low` where it lies below, then `mode` is raised to
/// `low`, and `high` to `mode`, where they lie below.
pub open spec fn triangular_checked<R: Scalar>(t: Triangular<R>) -> Triangular<R> {
    let high = if t.high.spec_lt(t.low) {
        t.low
    } else {
        t.high
    };
    if t.low.spec_le(t.mode) && t.mode.spec_le(high) {
        Triangular { low: t.low, high, mode: t.mode }
    } else {
        let mode = if t.mode.spec_lt(t.low) {
            t.low
        } else {
            t.mode
        };
        Triangular {
            low: t.low,
            high: if high.spec_lt(mode) {
                mode
            } else {
                high
            },
            mode,
        }
    }
}

pub fn triangular_check<R: Scalar>(t: &mut Triangular<R>)
    ensures
        *final(t) == triangular_checked(*old(t)),
{
    if t.high.lt(t.low) {
        t.high = t.low;
    }
    if !(t.low.le(t.mode) && t.mode.le(t.high)) {
        if t.mode.lt(t.low) {
            t.mode = t.low;
        }
        if t.high.lt(t.mode) {
            t.high = t.mode;
        }
    }
}

/// A geometric progression that can be computed: neither end is zero, both
/// carry the same sign, and `start` lies strictly below `end`.
pub open spec fn geomspace_checked<R: Scalar>(g: Geomspace<R>) -> Geomspace<R> {
    let start = if g.start.spec_equals(R::spec_zero()) {
        R::spec_epsilon()
    } else {
        g.start
    };
    let end = if g.end.spec_equals(R::spec_zero()) {
        R::spec_epsilon()
    } else {
        g.end
    };
    let start = if start.spec_is_sign_negative() != end.spec_is_sign_negative() {
        start.spec_neg()
    } else {
        start
    };
    if start.spec_equals(end) {
        Geomspace { start, end: end.spec_plus(R::spec_epsilon()) }
    } else if end.spec_lt(start) {
        Geomspace { start: end, end: start }
    } else {
        Geomspace { start, end }
    }
}

pub fn geomspace_check<R: Scalar>(g: &mut Geomspace<R>)
    ensures
        *final(g) == geomspace_checked(*old(g)),
{
    if g.start.equals(R::zero()) {
        g.start = R::epsilon();
    }
    if g.end.equals(R::zero()) {
        g.end = R::epsilon();
    }
    if g.start.is_sign_negative() != g.end.is_sign_negative() {
        g.start = g.start.neg();
    }
    if g.start.equals(g.end) {
        g.end = g.end.plus(R::epsilon());
    } else if g.end.lt(g.start) {
        let start = g.start;
        g.start = g.end;
        g.end = start;
    }
}

impl<R: Scalar> InitialDistributionVariant<R> {
    pub open spec fn spec_is_mesh(&self) -> bool {
        self is Mesh
    }

    pub fn is_mesh(&self) -> (mesh: bool)
        ensures
            mesh == self.spec_is_mesh(),
    {
        matches!(self, InitialDistributionVariant::Mesh(_))
    }

    /// The evenly spaced values along the axis of a mesh.
    pub fn space_from_mesh(&self) -> (space: Self)
        requires
            self is Mesh,
        ensures
            space == InitialDistributionVariant::Linspace(
                Linspace { low: self->Mesh_0.start, high: self->Mesh_0.end },
            ),
    {
        match self {
            InitialDistributionVariant::Mesh(mesh) => InitialDistributionVariant::Linspace(
                Linspace { low: mesh.start, high: mesh.end },
            ),
            _ => *self,
        }
    }

    /// The distribution to draw replacements from: a mesh axis becomes the
    /// uniform distribution over its extent, every other variant is kept.
    pub open spec fn spec_random_space_from_mesh(&self) -> Self {
        match *self {
            InitialDistributionVariant::Mesh(mesh) => InitialDistributionVariant::Uniform(
                Uniform { low: mesh.start, high: mesh.end },
            ),
            other => other,
        }
    }

    pub fn random_space_from_mesh(&self) -> (space: Self)
        ensures
            space == self.spec_random_space_from_mesh(),
    {
        match self {
            InitialDistributionVariant::Mesh(mesh) => InitialDistributionVariant::Uniform(
                Uniform { low: mesh.start, high: mesh.end },
            ),
            _ => *self,
        }
    }

    /// The variant's name.
    pub fn name(&self) -> (name: &'static str)
        ensures
            name@ == self.spec_name(),
    {
        match self {
            InitialDistributionVariant::Normal(_) => "Normal",
            InitialDistributionVariant::Cauchy(_) => "Cauchy",
            InitialDistributionVariant::Uniform(_) => "Uniform",
            InitialDistributionVariant::Exponential(_) => "Exponential",
            InitialDistributionVariant::LogNormal(_) => "LogNormal",
            InitialDistributionVariant::Poisson(_) => "Poisson",
            InitialDistributionVariant::Pareto(_) => "Pareto",
            InitialDistributionVariant::StudentT(_) => "StudentT",
            InitialDistributionVariant::Weibull(_) => "Weibull",
            InitialDistributionVariant::Gamma(_) => "Gamma",
            InitialDistributionVariant::Beta(_) => "Beta",
            InitialDistributionVariant::Triangular(_) => "Triangular",
            InitialDistributionVariant::ChiSquared(_) => "ChiSquared",
            InitialDistributionVariant::Fixed(_) => "Fixed",
            InitialDistributionVariant::Linspace(_) => "Linspace",
            InitialDistributionVariant::Mesh(_) => "Mesh",
            InitialDistributionVariant::Geomspace(_) => "Geomspace",
            InitialDistributionVariant::Eye(_) => "Eye",
            InitialDistributionVariant::Logspace(_) => "Logspace",
        }
    }

    pub open spec fn spec_name(&self) -> Seq<char> {
        match self {
            InitialDistributionVariant::Normal(_) => "Normal"@,
            InitialDistributionVariant::Cauchy(_) => "Cauchy"@,
            InitialDistributionVariant::Uniform(_) => "Uniform"@,
            InitialDistributionVariant::Exponential(_) => "Exponential"@,
            InitialDistributionVariant::LogNormal(_) => "LogNormal"@,
            InitialDistributionVariant::Poisson(_) => "Poisson"@,
            InitialDistributionVariant::Pareto(_) => "Pareto"@,
            InitialDistributionVariant::StudentT(_) => "StudentT"@,
            InitialDistributionVariant::Weibull(_) => "Weibull"@,
            InitialDistributionVariant::Gamma(_) => "Gamma"@,
            InitialDistributionVariant::Beta(_) => "Beta"@,
            InitialDistributionVariant::Triangular(_) => "Triangular"@,
            InitialDistributionVariant::ChiSquared(_) => "ChiSquared"@,
            InitialDistributionVariant::Fixed(_) => "Fixed"@,
            InitialDistributionVariant::Linspace(_) => "Linspace"@,
            InitialDistributionVariant::Mesh(_) => "Mesh"@,
            InitialDistributionVariant::Geomspace(_) => "Geomspace"@,
            InitialDistributionVariant::Eye(_) => "Eye"@,
            InitialDistributionVariant::Logspace(_) => "Logspace"@,
        }
    }

    /// The `i`-th of `num_points` values of a feature of this distribution,
    /// where the variant fixes it by a formula.
    pub open spec fn value_at(&self, num_points: int, i: int) -> R
        recommends
            self is Fixed || self is Linspace || self is Eye || self is Mesh,
    {
        match *self {
            InitialDistributionVariant::Fixed(d) => d.value,
            InitialDistributionVariant::Linspace(d) => linspace_at(num_points, d, i),
            InitialDistributionVariant::Eye(d) => eye_at(d, 0, i),
            InitialDistributionVariant::Mesh(d) => linspace_at(
                num_points,
                Linspace { low: d.start, high: d.end },
                i,
            ),
            _ => arbitrary(),
        }
    }

    /// Whether `value_at` gives the values of a feature of this distribution.
    pub open spec fn has_formula(&self) -> bool {
        self is Fixed || self is Linspace || self is Eye || self is Mesh
    }

    /// Whether numbers can be drawn with these parameters. A spread has to
    /// be finite, a scale, shape or rate positive (a rate of zero is
    /// admitted for the exponential distribution), bounds have to be in
    /// order, finite and a finite distance apart, and a mode has to lie
    /// between its bounds. Degrees of freedom are admitted where they are
    /// one, or half of them is positive. A variant that is not
    /// probabilistic is admissible whatever its parameters.
    pub open spec fn spec_is_admissible(&self) -> bool {
        let zero = R::spec_zero();
        match *self {
            InitialDistributionVariant::Normal(d) => d.std_dev.spec_is_finite(),
            InitialDistributionVariant::Cauchy(d) => zero.spec_lt(d.scale),
            InitialDistributionVariant::Uniform(d) => {
                &&& d.low.spec_is_finite()
                &&& d.high.spec_is_finite()
                &&& d.low.spec_lt(d.high)
                &&& d.high.spec_minus(d.low).spec_is_finite()
            },
            InitialDistributionVariant::Exponential(d) => zero.spec_le(d.lambda),
            InitialDistributionVariant::LogNormal(d) => d.std_dev.spec_is_finite(),
            InitialDistributionVariant::Poisson(d) => zero.spec_lt(d.mean),
            InitialDistributionVariant::Pareto(d) => zero.spec_lt(d.scale) && zero.spec_lt(d.shape),
            InitialDistributionVariant::StudentT(d) => admissible_freedom(d.dof),
            InitialDistributionVariant::Weibull(d) => zero.spec_lt(d.lambda) && zero.spec_lt(d.k),
            InitialDistributionVariant::Gamma(d) => zero.spec_lt(d.shape) && zero.spec_lt(d.scale),
            InitialDistributionVariant::Beta(d) => zero.spec_lt(d.alpha) && zero.spec_lt(d.beta),
            InitialDistributionVariant::Triangular(d) => {
                &&& d.low.spec_le(d.high)
                &&& d.low.spec_le(d.mode)
                &&& d.mode.spec_le(d.high)
            },
            InitialDistributionVariant::ChiSquared(d) => admissible_freedom(d.dof),
            _ => true,
        }
    }

    pub fn is_admissible(&self) -> (ok: bool)
        ensures
            ok == self.spec_is_admissible(),
    {
        let zero = R::zero();
        match self {
            InitialDistributionVariant::Normal(d) => d.std_dev.is_finite(),
            InitialDistributionVariant::Cauchy(d) => zero.lt(d.scale),
            InitialDistributionVariant::Uniform(d) => d.low.is_finite() && d.high.is_finite()
                && d.low.lt(d.high) && d.high.minus(d.low).is_finite(),
            InitialDistributionVariant::Exponential(d) => zero.le(d.lambda),
            InitialDistributionVariant::LogNormal(d) => d.std_dev.is_finite(),
            InitialDistributionVariant::Poisson(d) => zero.lt(d.mean),
            InitialDistributionVariant::Pareto(d) => zero.lt(d.scale) && zero.lt(d.shape),
            InitialDistributionVariant::StudentT(d) => freedom_is_admissible(d.dof),
            InitialDistributionVariant::Weibull(d) => zero.lt(d.lambda) && zero.lt(d.k),
            InitialDistributionVariant::Gamma(d) => zero.lt(d.shape) && zero.lt(d.scale),
            InitialDistributionVariant::Beta(d) => zero.lt(d.alpha) && zero.lt(d.beta),
            InitialDistributionVariant::Triangular(d) => d.low.le(d.high) && d.low.le(d.mode)
                && d.mode.le(d.high),
            InitialDistributionVariant::ChiSquared(d) => freedom_is_admissible(d.dof),
            _ => true,
        }
    }

    /// Whether the values of a feature of this distribution are drawn at
    /// random.
    pub open spec fn is_probabilistic(&self) -> bool {
        !(self is Fixed || self is Linspace || self is Eye || self is Mesh || self is Geomspace
            || self is Logspace)
    }
}

impl<R: RandomVariate> InitialDistributionVariant<R> {
    /// The values of one feature: computed where the variant fixes them,
    /// drawn one by one where it is probabilistic.
    pub fn data_generation(&self, num_points: usize) -> (feature: Vec<R>)
        requires
            self.spec_is_admissible(),
        ensures
            feature@.len() == num_points,
            self.has_formula() ==> forall|i: int|
                0 <= i < num_points ==> feature@[i] == self.value_at(num_points as int, i),
            self is Geomspace ==> is_geomspace(feature@, num_points as int, self->Geomspace_0),
            self is Logspace ==> forall|i: int|
                0 <= i < num_points ==> logspace_value(
                    num_points as int,
                    self->Logspace_0,
                    i,
                    #[trigger] feature@[i],
                ),
            self.is_probabilistic() ==> forall|i: int|
                0 <= i < num_points ==> R::may_draw(*self, #[trigger] feature@[i]),
    {
        match self {
            InitialDistributionVariant::Fixed(d) => fixed(num_points, d),
            InitialDistributionVariant::Linspace(d) => linspace(num_points, d),
            InitialDistributionVariant::Geomspace(d) => geomspace(num_points, d),
            InitialDistributionVariant::Eye(d) => eye(num_points, d, 0),
            InitialDistributionVariant::Mesh(d) => linspace(
                num_points,
                &Linspace { low: d.start, high: d.end },
            ),
            InitialDistributionVariant::Logspace(d) => logspace(num_points, d),
            _ => data_gen_from_distribution(self, num_points),
        }
    }
}

impl<R: Scalar> Default for InitialDistributionVariant<R> {
    fn default() -> (r: Self)
        ensures
            r == InitialDistributionVariant::Normal(
                Normal { mean: R::spec_zero(), std_dev: R::spec_one() },
            ),
    {
        InitialDistributionVariant::Normal(Normal { mean: R::zero(), std_dev: R::one() })
    }
}

#[derive(PartialEq, Clone, Copy, Debug)]
pub enum InitialDistributionVariant<R> {
    Normal(Normal<R>),
    Cauchy(Cauchy<R>),
    Uniform(Uniform<R>),
    Exponential(Exponential<R>),
    LogNormal(LogNormal<R>),
    Poisson(Poisson<R>),
    Pareto(Pareto<R>),
    StudentT(StudentT<R>),
    Weibull(Weibull<R>),
    Gamma(Gamma<R>),
    Beta(Beta<R>),
    Triangular(Triangular<R>),
    ChiSquared(ChiSquared<R>),
    Fixed(Fixed<R>),
    Linspace(Linspace<R>),
    Mesh(Mesh<R>),
    Geomspace(Geomspace<R>),
    Eye(Eye<R>),
    Logspace(Logspace<R>),
}

#[derive(PartialEq, Clone, Copy, Debug)]
pub struct Normal<R> {
    pub mean: R,
    pub std_dev: R,
}

impl<R: Scalar> Normal<R> {
    /// The distribution's name with its parameters, each to two decimals.
    pub open spec fn spec_to_string(&self) -> Seq<char> {
        "Normal( "@ + "mean="@ + self.mean.spec_two_decimals() + " "@ + "std_dev="@ + self.std_dev.spec_two_decimals() + " "@ + ")"@
    }

    pub fn to_string(&self) -> (text: String)
        ensures
            text@ == self.spec_to_string(),
    {
        let mut text = "Normal( ".to_owned();
        text.append("mean=");
        text.append(self.mean.two_decimals().as_str());
        text.append(" ");
        text.append("std_dev=");
        text.append(self.std_dev.two_decimals().as_str());
        text.append(" ");
        text.append(")");
        text
    }

    /// Every choice of parameters is kept as it is.
    pub fn par_range_check(&mut self)
        ensures
            *final(self) == *old(self),
    {
        no_check(self)
    }
}

impl<R: Scalar> Default for Normal<R> {
    fn default() -> (r: Self)
        ensures
            r.mean == R::spec_zero(),
            r.std_dev == R::spec_one(),
    {
        Normal { mean: R::zero(), std_dev: R::one() }
    }
}

impl<R: Scalar> ChaosDescription for Normal<R> {
    fn description(&self) -> (text: String)
        ensures
            text@ == "The well-known Gaussian distribution: "@ + self.spec_to_string(),
    {
        let mut text = "The well-known Gaussian distribution: ".to_owned();
        text.append(self.to_string().as_str());
        text
    }

    fn reference(&self) -> (link: &'static str)
        ensures
            link@ == "https://wikipedia.org/wiki/Normal_distribution"@,
    {
        "https://wikipedia.org/wiki/Normal_distribution"
    }
}

#[derive(PartialEq, Clone, Copy, Debug)]
pub struct Cauchy<R> {
    pub median: R,
    pub scale: R,
}

impl<R: Scalar> Cauchy<R> {
    /// The distribution's name with its parameters, each to two decimals.
    pub open spec fn spec_to_string(&self) -> Seq<char> {
        "Cauchy( "@ + "median="@ + self.median.spec_two_decimals() + " "@ + "scale="@ + self.scale.spec_two_decimals() + " "@ + ")"@
    }

    pub fn to_string(&self) -> (text: String)
        ensures
            text@ == self.spec_to_string(),
    {
        let mut text = "Cauchy( ".to_owned();
        text.append("median=");
        text.append(self.median.two_decimals().as_str());
        text.append(" ");
        text.append("scale=");
        text.append(self.scale.two_decimals().as_str());
        text.append(" ");
        text.append(")");
        text
    }

    /// Every choice of parameters is kept as it is.
    pub fn par_range_check(&mut self)
        ensures
            *final(self) == *old(self),
    {
        no_check(self)
    }
}

impl<R: Scalar> Default for Cauchy<R> {
    fn default() -> (r: Self)
        ensures
            r.median == R::spec_one(),
            r.scale == R::spec_one(),
    {
        Cauchy { median: R::one(), scale: R::one() }
    }
}

impl<R: Scalar> ChaosDescription for Cauchy<R> {
    fn description(&self) -> (text: String)
        ensures
            text@ == "The Cauchy, also known as Lorentz distribution, models the ratio of two normal random variables. In comparison with Normal, it has a taller peak and slower decay in its tails. The median determines the central location, whereas scale controls how quickly the tails decay: "@ + self.spec_to_string(),
    {
        let mut text = "The Cauchy, also known as Lorentz distribution, models the ratio of two normal random variables. In comparison with Normal, it has a taller peak and slower decay in its tails. The median determines the central location, whereas scale controls how quickly the tails decay: ".to_owned();
        text.append(self.to_string().as_str());
        text
    }

    fn reference(&self) -> (link: &'static str)
        ensures
            link@ == "https://wikipedia.org/wiki/Cauchy_distribution"@,
    {
        "https://wikipedia.org/wiki/Cauchy_distribution"
    }
}

#[derive(PartialEq, Clone, Copy, Debug)]
pub struct Uniform<R> {
    pub low: R,
    pub high: R,
}

impl<R: Scalar> Uniform<R> {
    /// The distribution's name with its parameters, each to two decimals.
    pub open spec fn spec_to_string(&self) -> Seq<char> {
        "Uniform( "@ + "low="@ + self.low.spec_two_decimals() + " "@ + "high="@ + self.high.spec_two_decimals() + " "@ + ")"@
    }

    pub fn to_string(&self) -> (text: String)
        ensures
            text@ == self.spec_to_string(),
    {
        let mut text = "Uniform( ".to_owned();
        text.append("low=");
        text.append(self.low.two_decimals().as_str());
        text.append(" ");
        text.append("high=");
        text.append(self.high.two_decimals().as_str());
        text.append(" ");
        text.append(")");
        text
    }

    /// Every choice of parameters is kept as it is.
    pub fn par_range_check(&mut self)
        ensures
            *final(self) == *old(self),
    {
        no_check(self)
    }
}

impl<R: Scalar> Default for Uniform<R> {
    fn default() -> (r: Self)
        ensures
            r.low == R::spec_from_int(-1),
            r.high == R::spec_one(),
    {
        Uniform { low: R::from_i16(-1), high: R::one() }
    }
}

impl<R: Scalar> ChaosDescription for Uniform<R> {
    fn description(&self) -> (text: String)
        ensures
            text@ == "The well-known continuous Uniform distribution: "@ + self.spec_to_string(),
    {
        let mut text = "The well-known continuous Uniform distribution: ".to_owned();
        text.append(self.to_string().as_str());
        text
    }

    fn reference(&self) -> (link: &'static str)
        ensures
            link@ == "https://wikipedia.org/wiki/Continuous_uniform_distribution"@,
    {
        "https://wikipedia.org/wiki/Continuous_uniform_distribution"
    }
}

#[derive(PartialEq, Clone, Copy, Debug)]
pub struct Exponential<R> {
    pub lambda: R,
}

impl<R: Scalar> Exponential<R> {
    /// The distribution's name with its parameters, each to two decimals.
    pub open spec fn spec_to_string(&self) -> Seq<char> {
        "Exponential( "@ + "lambda="@ + self.lambda.spec_two_decimals() + " "@ + ")"@
    }

    pub fn to_string(&self) -> (text: String)
        ensures
            text@ == self.spec_to_string(),
    {
        let mut text = "Exponential( ".to_owned();
        text.append("lambda=");
        text.append(self.lambda.two_decimals().as_str());
        text.append(" ");
        text.append(")");
        text
    }

    /// Every choice of parameters is kept as it is.
    pub fn par_range_check(&mut self)
        ensures
            *final(self) == *old(self),
    {
        no_check(self)
    }
}

impl<R: Scalar> Default for Exponential<R> {
    fn default() -> (r: Self)
        ensures
            r.lambda == R::spec_one(),
    {
        Exponential { lambda: R::one() }
    }
}

impl<R: Scalar> ChaosDescription for Exponential<R> {
    fn description(&self) -> (text: String)
        ensures
            text@ == "The Exponential distribution is the continuous probability distribution of the distance between events that occur continuously and independently at a constant average rate lambda: "@ + self.spec_to_string(),
    {
        let mut text = "The Exponential distribution is the continuous probability distribution of the distance between events that occur continuously and independently at a constant average rate lambda: ".to_owned();
        text.append(self.to_string().as_str());
        text
    }

    fn reference(&self) -> (link: &'static str)
        ensures
            link@ == "https://wikipedia.org/wiki/Exponential_distribution"@,
    {
        "https://wikipedia.org/wiki/Exponential_distribution"
    }
}

#[derive(PartialEq, Clone, Copy, Debug)]
pub struct LogNormal<R> {
    pub mean: R,
    pub std_dev: R,
}

impl<R: Scalar> LogNormal<R> {
    /// The distribution's name with its parameters, each to two decimals.
    pub open spec fn spec_to_string(&self) -> Seq<char> {
        "LogNormal( "@ + "mean="@ + self.mean.spec_two_decimals() + " "@ + "std_dev="@ + self.std_dev.spec_two_decimals() + " "@ + ")"@
    }

    pub fn to_string(&self) -> (text: String)
        ensures
            text@ == self.spec_to_string(),
    {
        let mut text = "LogNormal( ".to_owned();
        text.append("mean=");
        text.append(self.mean.two_decimals().as_str());
        text.append(" ");
        text.append("std_dev=");
        text.append(self.std_dev.two_decimals().as_str());
        text.append(" ");
        text.append(")");
        text
    }

    /// Every choice of parameters is kept as it is.
    pub fn par_range_check(&mut self)
        ensures
            *final(self) == *old(self),
    {
        no_check(self)
    }
}

impl<R: Scalar> Default for LogNormal<R> {
    fn default() -> (r: Self)
        ensures
            r.mean == R::spec_zero(),
            r.std_dev == R::spec_one(),
    {
        LogNormal { mean: R::zero(), std_dev: R::one() }
    }
}

impl<R: Scalar> ChaosDescription for LogNormal<R> {
    fn description(&self) -> (text: String)
        ensures
            text@ == "The distribution of a random variable whose logarithm is normally distributed: "@ + self.spec_to_string(),
    {
        let mut text = "The distribution of a random variable whose logarithm is normally distributed: ".to_owned();
        text.append(self.to_string().as_str());
        text
    }

    fn reference(&self) -> (link: &'static str)
        ensures
            link@ == "https://wikipedia.org/wiki/Log-normal_distribution"@,
    {
        "https://wikipedia.org/wiki/Log-normal_distribution"
    }
}

#[derive(PartialEq, Clone, Copy, Debug)]
pub struct Poisson<R> {
    pub mean: R,
}

impl<R: Scalar> Poisson<R> {
    /// The distribution's name with its parameters, each to two decimals.
    pub open spec fn spec_to_string(&self) -> Seq<char> {
        "Poisson( "@ + "mean="@ + self.mean.spec_two_decimals() + " "@ + ")"@
    }

    pub fn to_string(&self) -> (text: String)
        ensures
            text@ == self.spec_to_string(),
    {
        let mut text = "Poisson( ".to_owned();
        text.append("mean=");
        text.append(self.mean.two_decimals().as_str());
        text.append(" ");
        text.append(")");
        text
    }

    /// Every choice of parameters is kept as it is.
    pub fn par_range_check(&mut self)
        ensures
            *final(self) == *old(self),
    {
        no_check(self)
    }
}

impl<R: Scalar> Default for Poisson<R> {
    fn default() -> (r: Self)
        ensures
            r.mean == R::spec_one(),
    {
        Poisson { mean: R::one() }
    }
}

impl<R: Scalar> ChaosDescription for Poisson<R> {
    fn description(&self) -> (text: String)
        ensures
            text@ == "The discrete Poisson probability distribution models a number of events occuring within a fixed interval of time or space. It is commonly used for count data, where outcomes are non-negative integers (e.g. customer purchases). The single parameter represents the mean number of events within an interval: "@ + self.spec_to_string(),
    {
        let mut text = "The discrete Poisson probability distribution models a number of events occuring within a fixed interval of time or space. It is commonly used for count data, where outcomes are non-negative integers (e.g. customer purchases). The single parameter represents the mean number of events within an interval: ".to_owned();
        text.append(self.to_string().as_str());
        text
    }

    fn reference(&self) -> (link: &'static str)
        ensures
            link@ == "https://wikipedia.org/wiki/Poisson_distribution"@,
    {
        "https://wikipedia.org/wiki/Poisson_distribution"
    }
}

#[derive(PartialEq, Clone, Copy, Debug)]
pub struct Pareto<R> {
    pub scale: R,
    pub shape: R,
}

impl<R: Scalar> Pareto<R> {
    /// The distribution's name with its parameters, each to two decimals.
    pub open spec fn spec_to_string(&self) -> Seq<char> {
        "Pareto( "@ + "scale="@ + self.scale.spec_two_decimals() + " "@ + "shape="@ + self.shape.spec_two_decimals() + " "@ + ")"@
    }

    pub fn to_string(&self) -> (text: String)
        ensures
            text@ == self.spec_to_string(),
    {
        let mut text = "Pareto( ".to_owned();
        text.append("scale=");
        text.append(self.scale.two_decimals().as_str());
        text.append(" ");
        text.append("shape=");
        text.append(self.shape.two_decimals().as_str());
        text.append(" ");
        text.append(")");
        text
    }

    /// Every choice of parameters is kept as it is.
    pub fn par_range_check(&mut self)
        ensures
            *final(self) == *old(self),
    {
        no_check(self)
    }
}

impl<R: Scalar> Default for Pareto<R> {
    fn default() -> (r: Self)
        ensures
            r.scale == R::spec_one(),
            r.shape == R::spec_one(),
    {
        Pareto { scale: R::one(), shape: R::one() }
    }
}

impl<R: Scalar> ChaosDescription for Pareto<R> {
    fn description(&self) -> (text: String)
        ensures
            text@ == "The continuous Pareto power-law distribution models various observable phenomena such as the wealth in society. A distribution with a shape (tail index) of 1.16 reflects the 80-20 rule (Pareto principle). The scale represents the lower bound (minimum possible value) : "@ + self.spec_to_string(),
    {
        let mut text = "The continuous Pareto power-law distribution models various observable phenomena such as the wealth in society. A distribution with a shape (tail index) of 1.16 reflects the 80-20 rule (Pareto principle). The scale represents the lower bound (minimum possible value) : ".to_owned();
        text.append(self.to_string().as_str());
        text
    }

    fn reference(&self) -> (link: &'static str)
        ensures
            link@ == "https://wikipedia.org/wiki/Pareto_distribution"@,
    {
        "https://wikipedia.org/wiki/Pareto_distribution"
    }
}

#[derive(PartialEq, Clone, Copy, Debug)]
pub struct StudentT<R> {
    pub dof: R,
}

impl<R: Scalar> StudentT<R> {
    /// The distribution's name with its parameters, each to two decimals.
    pub open spec fn spec_to_string(&self) -> Seq<char> {
        "StudentT( "@ + "dof="@ + self.dof.spec_two_decimals() + " "@ + ")"@
    }

    pub fn to_string(&self) -> (text: String)
        ensures
            text@ == self.spec_to_string(),
    {
        let mut text = "StudentT( ".to_owned();
        text.append("dof=");
        text.append(self.dof.two_decimals().as_str());
        text.append(" ");
        text.append(")");
        text
    }

    /// Every choice of parameters is kept as it is.
    pub fn par_range_check(&mut self)
        ensures
            *final(self) == *old(self),
    {
        no_check(self)
    }
}

impl<R: Scalar> Default for StudentT<R> {
    fn default() -> (r: Self)
        ensures
            r.dof == R::spec_one(),
    {
        StudentT { dof: R::one() }
    }
}

impl<R: Scalar> ChaosDescription for StudentT<R> {
    fn description(&self) -> (text: String)
        ensures
            text@ == "The Student's t distribution generalizes the standard normal distribution. It is symmetric around zero and bell-shaped, but has heavier tails. The degrees of freedom (dof) represents the number of independent observations used to estimate a population parameter such as the mean. It is crucial for assessing statistical significance and confidence intervals : "@ + self.spec_to_string(),
    {
        let mut text = "The Student's t distribution generalizes the standard normal distribution. It is symmetric around zero and bell-shaped, but has heavier tails. The degrees of freedom (dof) represents the number of independent observations used to estimate a population parameter such as the mean. It is crucial for assessing statistical significance and confidence intervals : ".to_owned();
        text.append(self.to_string().as_str());
        text
    }

    fn reference(&self) -> (link: &'static str)
        ensures
            link@ == "https://wikipedia.org/wiki/Student%27s_t-distribution"@,
    {
        "https://wikipedia.org/wiki/Student%27s_t-distribution"
    }
}

#[derive(PartialEq, Clone, Copy, Debug)]
pub struct Weibull<R> {
    pub lambda: R,
    pub k: R,
}

impl<R: Scalar> Weibull<R> {
    /// The distribution's name with its parameters, each to two decimals.
    pub open spec fn spec_to_string(&self) -> Seq<char> {
        "Weibull( "@ + "lambda="@ + self.lambda.spec_two_decimals() + " "@ + "k="@ + self.k.spec_two_decimals() + " "@ + ")"@
    }

    pub fn to_string(&self) -> (text: String)
        ensures
            text@ == self.spec_to_string(),
    {
        let mut text = "Weibull( ".to_owned();
        text.append("lambda=");
        text.append(self.lambda.two_decimals().as_str());
        text.append(" ");
        text.append("k=");
        text.append(self.k.two_decimals().as_str());
        text.append(" ");
        text.append(")");
        text
    }

    /// Every choice of parameters is kept as it is.
    pub fn par_range_check(&mut self)
        ensures
            *final(self) == *old(self),
    {
        no_check(self)
    }
}

impl<R: Scalar> Default for Weibull<R> {
    fn default() -> (r: Self)
        ensures
            r.lambda == R::spec_one(),
            r.k == R::spec_one(),
    {
        Weibull { lambda: R::one(), k: R::one() }
    }
}

impl<R: Scalar> ChaosDescription for Weibull<R> {
    fn description(&self) -> (text: String)
        ensures
            text@ == "The continuous Weibull models times to failure or times between events, such as maximum one-day rainfalls or the time a user spends on a web page. The positive lambda is the scale parameter and k defines the failure rate. The rate decreases for k<1, is constant for k=1, and increases for k>1 (like an aging process) : "@ + self.spec_to_string(),
    {
        let mut text = "The continuous Weibull models times to failure or times between events, such as maximum one-day rainfalls or the time a user spends on a web page. The positive lambda is the scale parameter and k defines the failure rate. The rate decreases for k<1, is constant for k=1, and increases for k>1 (like an aging process) : ".to_owned();
        text.append(self.to_string().as_str());
        text
    }

    fn reference(&self) -> (link: &'static str)
        ensures
            link@ == "https://wikipedia.org/wiki/Weibull_distribution"@,
    {
        "https://wikipedia.org/wiki/Weibull_distribution"
    }
}

#[derive(PartialEq, Clone, Copy, Debug)]
pub struct Gamma<R> {
    pub shape: R,
    pub scale: R,
}

impl<R: Scalar> Gamma<R> {
    /// The distribution's name with its parameters, each to two decimals.
    pub open spec fn spec_to_string(&self) -> Seq<char> {
        "Gamma( "@ + "shape="@ + self.shape.spec_two_decimals() + " "@ + "scale="@ + self.scale.spec_two_decimals() + " "@ + ")"@
    }

    pub fn to_string(&self) -> (text: String)
        ensures
            text@ == self.spec_to_string(),
    {
        let mut text = "Gamma( ".to_owned();
        text.append("shape=");
        text.append(self.shape.two_decimals().as_str());
        text.append(" ");
        text.append("scale=");
        text.append(self.scale.two_decimals().as_str());
        text.append(" ");
        text.append(")");
        text
    }

    /// Every choice of parameters is kept as it is.
    pub fn par_range_check(&mut self)
        ensures
            *final(self) == *old(self),
    {
        no_check(self)
    }
}

impl<R: Scalar> Default for Gamma<R> {
    fn default() -> (r: Self)
        ensures
            r.shape == R::spec_one(),
            r.scale == R::spec_one(),
    {
        Gamma { shape: R::one(), scale: R::one() }
    }
}

impl<R: Scalar> ChaosDescription for Gamma<R> {
    fn description(&self) -> (text: String)
        ensures
            text@ == "Gamma is a generalization of Exponential and Chi-Squared. In Bayesian statistics it is commonly used as a conjugate prior for various types of inverse scale rate parameters such as lambda of Exponential : "@ + self.spec_to_string(),
    {
        let mut text = "Gamma is a generalization of Exponential and Chi-Squared. In Bayesian statistics it is commonly used as a conjugate prior for various types of inverse scale rate parameters such as lambda of Exponential : ".to_owned();
        text.append(self.to_string().as_str());
        text
    }

    fn reference(&self) -> (link: &'static str)
        ensures
            link@ == "https://wikipedia.org/wiki/Gamma_distribution"@,
    {
        "https://wikipedia.org/wiki/Gamma_distribution"
    }
}

#[derive(PartialEq, Clone, Copy, Debug)]
pub struct Beta<R> {
    pub alpha: R,
    pub beta: R,
}

impl<R: Scalar> Beta<R> {
    /// The distribution's name with its parameters, each to two decimals.
    pub open spec fn spec_to_string(&self) -> Seq<char> {
        "Beta( "@ + "alpha="@ + self.alpha.spec_two_decimals() + " "@ + "beta="@ + self.beta.spec_two_decimals() + " "@ + ")"@
    }

    pub fn to_string(&self) -> (text: String)
        ensures
            text@ == self.spec_to_string(),
    {
        let mut text = "Beta( ".to_owned();
        text.append("alpha=");
        text.append(self.alpha.two_decimals().as_str());
        text.append(" ");
        text.append("beta=");
        text.append(self.beta.two_decimals().as_str());
        text.append(" ");
        text.append(")");
        text
    }

    /// Every choice of parameters is kept as it is.
    pub fn par_range_check(&mut self)
        ensures
            *final(self) == *old(self),
    {
        no_check(self)
    }
}

impl<R: Scalar> Default for Beta<R> {
    fn default() -> (r: Self)
        ensures
            r.alpha == R::spec_one(),
            r.beta == R::spec_one(),
    {
        Beta { alpha: R::one(), beta: R::one() }
    }
}

impl<R: Scalar> ChaosDescription for Beta<R> {
    fn description(&self) -> (text: String)
        ensures
            text@ == "Beta is a family of continuous distributions with values on the interval [0, 1]. It has broad applications in task duration modeling and project planning. The two shape parameters provide a flexible and adaptable probability distribution : "@ + self.spec_to_string(),
    {
        let mut text = "Beta is a family of continuous distributions with values on the interval [0, 1]. It has broad applications in task duration modeling and project planning. The two shape parameters provide a flexible and adaptable probability distribution : ".to_owned();
        text.append(self.to_string().as_str());
        text
    }

    fn reference(&self) -> (link: &'static str)
        ensures
            link@ == "https://wikipedia.org/wiki/Beta_distribution"@,
    {
        "https://wikipedia.org/wiki/Beta_distribution"
    }
}

#[derive(PartialEq, Clone, Copy, Debug)]
pub struct Triangular<R> {
    pub low: R,
    pub high: R,
    pub mode: R,
}

impl<R: Scalar> Triangular<R> {
    /// The distribution's name with its parameters, each to two decimals.
    pub open spec fn spec_to_string(&self) -> Seq<char> {
        "Triangular( "@ + "low="@ + self.low.spec_two_decimals() + " "@ + "high="@ + self.high.spec_two_decimals() + " "@ + "mode="@ + self.mode.spec_two_decimals() + " "@ + ")"@
    }

    pub fn to_string(&self) -> (text: String)
        ensures
            text@ == self.spec_to_string(),
    {
        let mut text = "Triangular( ".to_owned();
        text.append("low=");
        text.append(self.low.two_decimals().as_str());
        text.append(" ");
        text.append("high=");
        text.append(self.high.two_decimals().as_str());
        text.append(" ");
        text.append("mode=");
        text.append(self.mode.two_decimals().as_str());
        text.append(" ");
        text.append(")");
        text
    }

    /// Brings the parameters back into the range the distribution is defined on.
    pub fn par_range_check(&mut self)
        ensures
            *final(self) == triangular_checked(*old(self)),
    {
        triangular_check(self)
    }
}

impl<R: Scalar> Default for Triangular<R> {
    fn default() -> (r: Self)
        ensures
            r.low == R::spec_zero(),
            r.high == R::spec_one(),
            r.mode == R::spec_one().spec_over(R::spec_from_int(2)),
    {
        Triangular { low: R::zero(), high: R::one(), mode: R::one().over(R::from_i16(2)) }
    }
}

impl<R: Scalar> ChaosDescription for Triangular<R> {
    fn description(&self) -> (text: String)
        ensures
            text@ == "A probability density function (PDF) with a triangle shape defined by the parameters. The support is low≤x≤high, with a maximum probability of 2/(high-low) at x=mode : "@ + self.spec_to_string(),
    {
        let mut text = "A probability density function (PDF) with a triangle shape defined by the parameters. The support is low≤x≤high, with a maximum probability of 2/(high-low) at x=mode : ".to_owned();
        text.append(self.to_string().as_str());
        text
    }

    fn reference(&self) -> (link: &'static str)
        ensures
            link@ == "https://wikipedia.org/wiki/Triangular_distribution"@,
    {
        "https://wikipedia.org/wiki/Triangular_distribution"
    }
}

#[derive(PartialEq, Clone, Copy, Debug)]
pub struct ChiSquared<R> {
    pub dof: R,
}

impl<R: Scalar> ChiSquared<R> {
    /// The distribution's name with its parameters, each to two decimals.
    pub open spec fn spec_to_string(&self) -> Seq<char> {
        "ChiSquared( "@ + "dof="@ + self.dof.spec_two_decimals() + " "@ + ")"@
    }

    pub fn to_string(&self) -> (text: String)
        ensures
            text@ == self.spec_to_string(),
    {
        let mut text = "ChiSquared( ".to_owned();
        text.append("dof=");
        text.append(self.dof.two_decimals().as_str());
        text.append(" ");
        text.append(")");
        text
    }

    /// Every choice of parameters is kept as it is.
    pub fn par_range_check(&mut self)
        ensures
            *final(self) == *old(self),
    {
        no_check(self)
    }
}

impl<R: Scalar> Default for ChiSquared<R> {
    fn default() -> (r: Self)
        ensures
            r.dof == R::spec_one(),
    {
        ChiSquared { dof: R::one() }
    }
}

impl<R: Scalar> ChaosDescription for ChiSquared<R> {
    fn description(&self) -> (text: String)
        ensures
            text@ == "The distribution of a sum of dof (degrees of freedom) independent standard normal random variables. It is a special case of Gamma and used in hypothesis testing (goodness of fit) : "@ + self.spec_to_string(),
    {
        let mut text = "The distribution of a sum of dof (degrees of freedom) independent standard normal random variables. It is a special case of Gamma and used in hypothesis testing (goodness of fit) : ".to_owned();
        text.append(self.to_string().as_str());
        text
    }

    fn reference(&self) -> (link: &'static str)
        ensures
            link@ == "https://wikipedia.org/wiki/Chi-squared_distribution"@,
    {
        "https://wikipedia.org/wiki/Chi-squared_distribution"
    }
}

#[derive(PartialEq, Clone, Copy, Debug)]
pub struct Fixed<R> {
    pub value: R,
}

impl<R: Scalar> Fixed<R> {
    /// The distribution's name with its parameters, each to two decimals.
    pub open spec fn spec_to_string(&self) -> Seq<char> {
        "Fixed( "@ + "value="@ + self.value.spec_two_decimals() + " "@ + ")"@
    }

    pub fn to_string(&self) -> (text: String)
        ensures
            text@ == self.spec_to_string(),
    {
        let mut text = "Fixed( ".to_owned();
        text.append("value=");
        text.append(self.value.two_decimals().as_str());
        text.append(" ");
        text.append(")");
        text
    }

    /// Every choice of parameters is kept as it is.
    pub fn par_range_check(&mut self)
        ensures
            *final(self) == *old(self),
    {
        no_check(self)
    }
}

impl<R: Scalar> Default for Fixed<R> {
    fn default() -> (r: Self)
        ensures
            r.value == R::spec_zero(),
    {
        Fixed { value: R::zero() }
    }
}

impl<R: Scalar> ChaosDescription for Fixed<R> {
    fn description(&self) -> (text: String)
        ensures
            text@ == "Each data sample will have the same real number: "@ + self.spec_to_string(),
    {
        let mut text = "Each data sample will have the same real number: ".to_owned();
        text.append(self.to_string().as_str());
        text
    }

    fn reference(&self) -> (link: &'static str)
        ensures
            link@ == "https://wikipedia.org/wiki/Real_number"@,
    {
        "https://wikipedia.org/wiki/Real_number"
    }
}

#[derive(PartialEq, Clone, Copy, Debug)]
pub struct Linspace<R> {
    pub low: R,
    pub high: R,
}

impl<R: Scalar> Linspace<R> {
    /// The distribution's name with its parameters, each to two decimals.
    pub open spec fn spec_to_string(&self) -> Seq<char> {
        "Linspace( "@ + "low="@ + self.low.spec_two_decimals() + " "@ + "high="@ + self.high.spec_two_decimals() + " "@ + ")"@
    }

    pub fn to_string(&self) -> (text: String)
        ensures
            text@ == self.spec_to_string(),
    {
        let mut text = "Linspace( ".to_owned();
        text.append("low=");
        text.append(self.low.two_decimals().as_str());
        text.append(" ");
        text.append("high=");
        text.append(self.high.two_decimals().as_str());
        text.append(" ");
        text.append(")");
        text
    }

    /// Every choice of parameters is kept as it is.
    pub fn par_range_check(&mut self)
        ensures
            *final(self) == *old(self),
    {
        no_check(self)
    }
}

impl<R: Scalar> Default for Linspace<R> {
    fn default() -> (r: Self)
        ensures
            r.low == R::spec_from_int(-1),
            r.high == R::spec_one(),
    {
        Linspace { low: R::from_i16(-1), high: R::one() }
    }
}

impl<R: Scalar> ChaosDescription for Linspace<R> {
    fn description(&self) -> (text: String)
        ensures
            text@ == "A sequence of equally spaced numbers within the interval [low, high], including both endpoints: "@ + self.spec_to_string(),
    {
        let mut text = "A sequence of equally spaced numbers within the interval [low, high], including both endpoints: ".to_owned();
        text.append(self.to_string().as_str());
        text
    }

    fn reference(&self) -> (link: &'static str)
        ensures
            link@ == "https://numpy.org/doc/stable/reference/generated/numpy.linspace.html"@,
    {
        "https://numpy.org/doc/stable/reference/generated/numpy.linspace.html"
    }
}

#[derive(PartialEq, Clone, Copy, Debug)]
pub struct Mesh<R> {
    pub start: R,
    pub end: R,
}

impl<R: Scalar> Mesh<R> {
    /// The distribution's name with its parameters, each to two decimals.
    pub open spec fn spec_to_string(&self) -> Seq<char> {
        "Mesh( "@ + "start="@ + self.start.spec_two_decimals() + " "@ + "end="@ + self.end.spec_two_decimals() + " "@ + ")"@
    }

    pub fn to_string(&self) -> (text: String)
        ensures
            text@ == self.spec_to_string(),
    {
        let mut text = "Mesh( ".to_owned();
        text.append("start=");
        text.append(self.start.two_decimals().as_str());
        text.append(" ");
        text.append("end=");
        text.append(self.end.two_decimals().as_str());
        text.append(" ");
        text.append(")");
        text
    }

    /// Every choice of parameters is kept as it is.
    pub fn par_range_check(&mut self)
        ensures
            *final(self) == *old(self),
    {
        no_check(self)
    }
}

impl<R: Scalar> Default for Mesh<R> {
    fn default() -> (r: Self)
        ensures
            r.start == R::spec_from_int(-1),
            r.end == R::spec_one(),
    {
        Mesh { start: R::from_i16(-1), end: R::one() }
    }
}

impl<R: Scalar> ChaosDescription for Mesh<R> {
    fn description(&self) -> (text: String)
        ensures
            text@ == "A (hyper)-mesh of points. A single mesh is a Linspace with n points. Two times a mesh provides a grid with n² points. Three times mesh results in a 3D mesh of n³ points, and so on. Each space generates feature values in [low, high], including both endpoints: "@ + self.spec_to_string(),
    {
        let mut text = "A (hyper)-mesh of points. A single mesh is a Linspace with n points. Two times a mesh provides a grid with n² points. Three times mesh results in a 3D mesh of n³ points, and so on. Each space generates feature values in [low, high], including both endpoints: ".to_owned();
        text.append(self.to_string().as_str());
        text
    }

    fn reference(&self) -> (link: &'static str)
        ensures
            link@ == "https://numpy.org/doc/stable/reference/generated/numpy.meshgrid.html"@,
    {
        "https://numpy.org/doc/stable/reference/generated/numpy.meshgrid.html"
    }
}

#[derive(PartialEq, Clone, Copy, Debug)]
pub struct Geomspace<R> {
    pub start: R,
    pub end: R,
}

impl<R: Scalar> Geomspace<R> {
    /// The distribution's name with its parameters, each to two decimals.
    pub open spec fn spec_to_string(&self) -> Seq<char> {
        "Geomspace( "@ + "start="@ + self.start.spec_two_decimals() + " "@ + "end="@ + self.end.spec_two_decimals() + " "@ + ")"@
    }

    pub fn to_string(&self) -> (text: String)
        ensures
            text@ == self.spec_to_string(),
    {
        let mut text = "Geomspace( ".to_owned();
        text.append("start=");
        text.append(self.start.two_decimals().as_str());
        text.append(" ");
        text.append("end=");
        text.append(self.end.two_decimals().as_str());
        text.append(" ");
        text.append(")");
        text
    }

    /// Brings the parameters back into the range the distribution is defined on.
    pub fn par_range_check(&mut self)
        ensures
            *final(self) == geomspace_checked(*old(self)),
    {
        geomspace_check(self)
    }
}

impl<R: Scalar> Default for Geomspace<R> {
    fn default() -> (r: Self)
        ensures
            r.start == R::spec_one(),
            r.end == R::spec_from_int(1000),
    {
        Geomspace { start: R::one(), end: R::from_i16(1000) }
    }
}

impl<R: Scalar> ChaosDescription for Geomspace<R> {
    fn description(&self) -> (text: String)
        ensures
            text@ == "Generates a sequence of equally spaced numbers on a logarithmic scale with geometric progression: "@ + self.spec_to_string(),
    {
        let mut text = "Generates a sequence of equally spaced numbers on a logarithmic scale with geometric progression: ".to_owned();
        text.append(self.to_string().as_str());
        text
    }

    fn reference(&self) -> (link: &'static str)
        ensures
            link@ == "https://numpy.org/doc/stable/reference/generated/numpy.geomspace.html"@,
    {
        "https://numpy.org/doc/stable/reference/generated/numpy.geomspace.html"
    }
}

#[derive(PartialEq, Clone, Copy, Debug)]
pub struct Eye<R> {
    pub value: R,
}

impl<R: Scalar> Eye<R> {
    /// The distribution's name with its parameters, each to two decimals.
    pub open spec fn spec_to_string(&self) -> Seq<char> {
        "Eye( "@ + "value="@ + self.value.spec_two_decimals() + " "@ + ")"@
    }

    pub fn to_string(&self) -> (text: String)
        ensures
            text@ == self.spec_to_string(),
    {
        let mut text = "Eye( ".to_owned();
        text.append("value=");
        text.append(self.value.two_decimals().as_str());
        text.append(" ");
        text.append(")");
        text
    }

    /// Every choice of parameters is kept as it is.
    pub fn par_range_check(&mut self)
        ensures
            *final(self) == *old(self),
    {
        no_check(self)
    }
}

impl<R: Scalar> Default for Eye<R> {
    fn default() -> (r: Self)
        ensures
            r.value == R::spec_one(),
    {
        Eye { value: R::one() }
    }
}

impl<R: Scalar> ChaosDescription for Eye<R> {
    fn description(&self) -> (text: String)
        ensures
            text@ == "Takes on the parameter value if the sample index is the same as the feature index (seen as a matrix). All other indice pairs are assigned to 0.0:  : "@ + self.spec_to_string(),
    {
        let mut text = "Takes on the parameter value if the sample index is the same as the feature index (seen as a matrix). All other indice pairs are assigned to 0.0:  : ".to_owned();
        text.append(self.to_string().as_str());
        text
    }

    fn reference(&self) -> (link: &'static str)
        ensures
            link@ == "https://wikipedia.org/wiki/Identity_matrix"@,
    {
        "https://wikipedia.org/wiki/Identity_matrix"
    }
}

#[derive(PartialEq, Clone, Copy, Debug)]
pub struct Logspace<R> {
    pub start: R,
    pub end: R,
    pub base: R,
}

impl<R: Scalar> Logspace<R> {
    /// The distribution's name with its parameters, each to two decimals.
    pub open spec fn spec_to_string(&self) -> Seq<char> {
        "Logspace( "@ + "start="@ + self.start.spec_two_decimals() + " "@ + "end="@ + self.end.spec_two_decimals() + " "@ + "base="@ + self.base.spec_two_decimals() + " "@ + ")"@
    }

    pub fn to_string(&self) -> (text: String)
        ensures
            text@ == self.spec_to_string(),
    {
        let mut text = "Logspace( ".to_owned();
        text.append("start=");
        text.append(self.start.two_decimals().as_str());
        text.append(" ");
        text.append("end=");
        text.append(self.end.two_decimals().as_str());
        text.append(" ");
        text.append("base=");
        text.append(self.base.two_decimals().as_str());
        text.append(" ");
        text.append(")");
        text
    }

    /// Every choice of parameters is kept as it is.
    pub fn par_range_check(&mut self)
        ensures
            *final(self) == *old(self),
    {
        no_check(self)
    }
}

impl<R: Scalar> Default for Logspace<R> {
    fn default() -> (r: Self)
        ensures
            r.start == R::spec_zero(),
            r.end == R::spec_from_int(3),
            r.base == R::spec_from_int(2),
    {
        Logspace { start: R::zero(), end: R::from_i16(3), base: R::from_i16(2) }
    }
}

impl<R: Scalar> ChaosDescription for Logspace<R> {
    fn description(&self) -> (text: String)
        ensures
            text@ == "Generates a sequence of equally spaced numbers on a logarithmic scale with base: "@ + self.spec_to_string(),
    {
        let mut text = "Generates a sequence of equally spaced numbers on a logarithmic scale with base: ".to_owned();
        text.append(self.to_string().as_str());
        text
    }

    fn reference(&self) -> (link: &'static str)
        ensures
            link@ == "https://numpy.org/doc/stable/reference/generated/numpy.logspace.html"@,
    {
        "https://numpy.org/doc/stable/reference/generated/numpy.logspace.html"
    }
}

} // verus!
