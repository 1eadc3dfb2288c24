//! The parameters of the models that the library itself provides.
use vstd::prelude::*;
use crate::distribution::no_check;
use crate::labels::{ChaosDescription, ChaosFormula, LABEL_PARTICLE_DESCRIPTION, LINK_PARTICLE};
use crate::newton::{CollisionParams, IntegrationParams, NewtonParams};
use crate::scalar::Scalar;

verus! {

/// The damping term of the dissipative kicked rotor for the damping rate
/// `r`: one less the exponential of `-r`, over `r`.
pub fn zaslavskii_mu<R: Scalar>(r: R) -> (mu: R)
    ensures
        exists|e: R| r.spec_neg().exp_admits(e) && mu == R::spec_one().spec_minus(e).spec_over(r),
{
    let e = r.neg().exp();
    R::one().minus(e).over(r)
}

/// The parameters of the particle model in two dimensions: the scales of
/// the collision, of the mid-range and of the long-range force.
#[derive(PartialEq, Clone, Copy, Debug)]
pub struct ParticleXY<R> {
    /// Collision scale. Collisions are looked for unless it is zero.
    pub s: R,
    /// Scale of the mid-range force between charges.
    pub m: R,
    /// Scale of the long-range force between masses.
    pub l: R,
}

impl<R: Scalar> ParticleXY<R> {
    /// The name of the model with its parameters, each to two decimals.
    pub open spec fn spec_to_string(&self) -> Seq<char> {
        "ParticleXY( "@ + "s="@ + self.s.spec_two_decimals() + " "@ + "m="@
            + self.m.spec_two_decimals() + " "@ + "l="@ + self.l.spec_two_decimals() + " "@ + ")"@
    }

    pub fn to_string(&self) -> (text: String)
        ensures
            text@ == self.spec_to_string(),
    {
        let mut text = "ParticleXY( ".to_owned();
        text.append("s=");
        text.append(self.s.two_decimals().as_str());
        text.append(" ");
        text.append("m=");
        text.append(self.m.two_decimals().as_str());
        text.append(" ");
        text.append("l=");
        text.append(self.l.two_decimals().as_str());
        text.append(" ");
        text.append(")");
        text
    }

    /// Every choice of parameters is kept as it is.
    pub fn par_range_check(&mut self)
        ensures
            *final(self) == *old(self),
    {
        no_check(self)
    }
}

impl<R: Scalar> NewtonParams for ParticleXY<R> {
    type Number = R;

    open spec fn spec_mid_scale_factor(&self) -> R {
        self.m
    }

    open spec fn spec_large_scale_factor(&self) -> R {
        self.l
    }

    fn mid_scale_factor(&self) -> (m: R) {
        self.m
    }

    fn large_scale_factor(&self) -> (l: R) {
        self.l
    }
}

impl<R: Scalar> CollisionParams for ParticleXY<R> {
    type Number = R;

    open spec fn spec_collision_factor(&self) -> R {
        self.s
    }

    /// Collisions are looked for unless the collision scale is zero.
    open spec fn spec_perform_collision_detection(&self) -> bool {
        !self.s.spec_equals(R::spec_zero())
    }

    fn collision_factor(&self) -> (s: R) {
        self.s
    }

    fn perform_collision_detection(&self) -> (active: bool) {
        !self.s.equals(R::zero())
    }
}

impl<R: Scalar> IntegrationParams for ParticleXY<R> {
    /// Forces are held for ten ticks.
    open spec fn spec_integration_steps(&self) -> usize {
        10
    }

    fn integration_steps(&self) -> (steps: usize) {
        10
    }
}

impl<R: Scalar> Default for ParticleXY<R> {
    fn default() -> (conf: Self)
        ensures
            conf.s == R::spec_one(),
            conf.m == R::spec_from_int(8988).spec_over(R::spec_from_int(1000)),
            conf.l == R::spec_from_int(6673).spec_over(R::spec_from_int(1000)),
    {
        Self {
            s: R::one(),
            m: R::from_i16(8988).over(R::from_i16(1000)),
            l: R::from_i16(6673).over(R::from_i16(1000)),
        }
    }
}

impl<R: Scalar> ChaosDescription for ParticleXY<R> {
    fn description(&self) -> (text: String)
        ensures
            text@ == LABEL_PARTICLE_DESCRIPTION@,
    {
        LABEL_PARTICLE_DESCRIPTION.to_owned()
    }

    fn reference(&self) -> (link: &'static str)
        ensures
            link@ == LINK_PARTICLE@,
    {
        LINK_PARTICLE
    }
}

impl<R: Scalar> ChaosFormula for ParticleXY<R> {
    fn formula(&self) -> (lines: &[&'static str])
        ensures
            lines@.len() == 5,
    {
        &[
            "radius= √mass",
            "force_i= ∑_j short(i,j) + mid(i,j) + long(i,j)",
            "acceleration = force / mass",
            "d position = velocity",
            "d velocity = acceleration",
        ]
    }
}

/// The parameters of the particle model in three dimensions: the scales of
/// the collision, of the mid-range and of the long-range force.
#[derive(PartialEq, Clone, Copy, Debug)]
pub struct ParticleXYZ<R> {
    /// Collision scale. Collisions are looked for unless it is zero.
    pub s: R,
    /// Scale of the mid-range force between charges.
    pub m: R,
    /// Scale of the long-range force between masses.
    pub l: R,
}

impl<R: Scalar> ParticleXYZ<R> {
    /// The name of the model with its parameters, each to two decimals.
    pub open spec fn spec_to_string(&self) -> Seq<char> {
        "ParticleXYZ( "@ + "s="@ + self.s.spec_two_decimals() + " "@ + "m="@
            + self.m.spec_two_decimals() + " "@ + "l="@ + self.l.spec_two_decimals() + " "@ + ")"@
    }

    pub fn to_string(&self) -> (text: String)
        ensures
            text@ == self.spec_to_string(),
    {
        let mut text = "ParticleXYZ( ".to_owned();
        text.append("s=");
        text.append(self.s.two_decimals().as_str());
        text.append(" ");
        text.append("m=");
        text.append(self.m.two_decimals().as_str());
        text.append(" ");
        text.append("l=");
        text.append(self.l.two_decimals().as_str());
        text.append(" ");
        text.append(")");
        text
    }

    /// Every choice of parameters is kept as it is.
    pub fn par_range_check(&mut self)
        ensures
            *final(self) == *old(self),
    {
        no_check(self)
    }
}

impl<R: Scalar> NewtonParams for ParticleXYZ<R> {
    type Number = R;

    open spec fn spec_mid_scale_factor(&self) -> R {
        self.m
    }

    open spec fn spec_large_scale_factor(&self) -> R {
        self.l
    }

    fn mid_scale_factor(&self) -> (m: R) {
        self.m
    }

    fn large_scale_factor(&self) -> (l: R) {
        self.l
    }
}

impl<R: Scalar> CollisionParams for ParticleXYZ<R> {
    type Number = R;

    open spec fn spec_collision_factor(&self) -> R {
        self.s
    }

    /// Collisions are looked for unless the collision scale is zero.
    open spec fn spec_perform_collision_detection(&self) -> bool {
        !self.s.spec_equals(R::spec_zero())
    }

    fn collision_factor(&self) -> (s: R) {
        self.s
    }

    fn perform_collision_detection(&self) -> (active: bool) {
        !self.s.equals(R::zero())
    }
}

impl<R: Scalar> IntegrationParams for ParticleXYZ<R> {
    /// Forces are held for ten ticks.
    open spec fn spec_integration_steps(&self) -> usize {
        10
    }

    fn integration_steps(&self) -> (steps: usize) {
        10
    }
}

impl<R: Scalar> Default for ParticleXYZ<R> {
    fn default() -> (conf: Self)
        ensures
            conf.s == R::spec_one(),
            conf.m == R::spec_from_int(8988).spec_over(R::spec_from_int(1000)),
            conf.l == R::spec_from_int(6673).spec_over(R::spec_from_int(1000)),
    {
        Self {
            s: R::one(),
            m: R::from_i16(8988).over(R::from_i16(1000)),
            l: R::from_i16(6673).over(R::from_i16(1000)),
        }
    }
}

impl<R: Scalar> ChaosDescription for ParticleXYZ<R> {
    fn description(&self) -> (text: String)
        ensures
            text@ == LABEL_PARTICLE_DESCRIPTION@,
    {
        LABEL_PARTICLE_DESCRIPTION.to_owned()
    }

    fn reference(&self) -> (link: &'static str)
        ensures
            link@ == LINK_PARTICLE@,
    {
        LINK_PARTICLE
    }
}

impl<R: Scalar> ChaosFormula for ParticleXYZ<R> {
    fn formula(&self) -> (lines: &[&'static str])
        ensures
            lines@.len() == 5,
    {
        &[
            "radius= √mass",
            "force_i= ∑_j short(i,j) + mid(i,j) + long(i,j)",
            "acceleration = force / mass",
            "d position = velocity",
            "d velocity = acceleration",
        ]
    }
}

} // verus!
