//! The interfaces of the particle model: the kinematic state of a particle,
//! the force law between particles, and the parameters of both.
use vstd::prelude::*;

verus! {

/// A kinematic state: a position and a velocity in the same Cartesian space.
///
/// Every operation is named by a specification function, and the executable
/// method returns what that function names.
pub trait NewtonState: Sized {
    type CartesianState: Copy;

    type Number;

    open spec fn spec_position(&self) -> Self::CartesianState {
        arbitrary()
    }

    open spec fn spec_velocity(&self) -> Self::CartesianState {
        arbitrary()
    }

    /// The state with its velocity replaced.
    open spec fn spec_with_velocity(self, vel: Self::CartesianState) -> Self {
        arbitrary()
    }

    /// The vector with every component multiplied by `scalar`.
    open spec fn spec_scaled(v: Self::CartesianState, scalar: Self::Number) -> Self::CartesianState {
        arbitrary()
    }

    /// The component-wise sum.
    open spec fn spec_sum(
        a: Self::CartesianState,
        b: Self::CartesianState,
    ) -> Self::CartesianState {
        arbitrary()
    }

    /// The component-wise difference, `a` less `b`.
    open spec fn spec_difference(
        a: Self::CartesianState,
        b: Self::CartesianState,
    ) -> Self::CartesianState {
        arbitrary()
    }

    open spec fn spec_cartesian_zero() -> Self::CartesianState {
        arbitrary()
    }

    /// The Euclidean length.
    open spec fn spec_norm(v: Self::CartesianState) -> Self::Number {
        arbitrary()
    }

    open spec fn spec_from_position_and_velocity(
        position: Self::CartesianState,
        velocity: Self::CartesianState,
    ) -> Self {
        arbitrary()
    }

    open spec fn spec_dot(a: Self::CartesianState, b: Self::CartesianState) -> Self::Number {
        arbitrary()
    }

    fn position(&self) -> (p: Self::CartesianState)
        ensures
            p == self.spec_position(),
    ;

    fn velocity(&self) -> (v: Self::CartesianState)
        ensures
            v == self.spec_velocity(),
    ;

    fn set_velocity(&mut self, vel: Self::CartesianState)
        ensures
            *final(self) == old(self).spec_with_velocity(vel),
    ;

    fn scalar_mul_mut(cartesian_state: &mut Self::CartesianState, scalar: Self::Number)
        ensures
            *final(cartesian_state) == Self::spec_scaled(*old(cartesian_state), scalar),
    ;

    fn add_mut(cartesian_state: &mut Self::CartesianState, other: &Self::CartesianState)
        ensures
            *final(cartesian_state) == Self::spec_sum(*old(cartesian_state), *other),
    ;

    fn sub_mut(cartesian_state: &mut Self::CartesianState, other: &Self::CartesianState)
        ensures
            *final(cartesian_state) == Self::spec_difference(*old(cartesian_state), *other),
    ;

    fn cartesian_zero() -> (z: Self::CartesianState)
        ensures
            z == Self::spec_cartesian_zero(),
    ;

    fn cartesian_norm(cartesian_state: &Self::CartesianState) -> (n: Self::Number)
        ensures
            n == Self::spec_norm(*cartesian_state),
    ;

    fn from_position_and_velocity(
        position: Self::CartesianState,
        velocity: Self::CartesianState,
    ) -> (s: Self)
        ensures
            s == Self::spec_from_position_and_velocity(position, velocity),
    ;

    fn dot_product(s_i: &Self::CartesianState, s_j: &Self::CartesianState) -> (d: Self::Number)
        ensures
            d == Self::spec_dot(*s_i, *s_j),
    ;
}

/// A force law over particles of type `Cause`.
///
/// Each operation is a function of the particles and parameters it is given,
/// named by a specification function. A collision may empty the slot of the
/// other particle, and never fills an empty one.
pub trait Force: Sized {
    type Cause;

    type Params;

    type Distance;

    /// The force on a particle that nothing acts on.
    open spec fn spec_zero() -> Self {
        arbitrary()
    }

    /// The particle with the forces that act on it alone.
    open spec fn spec_single(p: Self::Cause, params: Self::Params) -> Self::Cause {
        arbitrary()
    }

    /// Both particles with the force between them added to each, and their
    /// distance.
    open spec fn spec_pairwise(p_i: Self::Cause, p_j: Self::Cause, params: Self::Params) -> (
        Self::Cause,
        Self::Cause,
        Self::Distance,
    ) {
        arbitrary()
    }

    /// Both particles after they collided. The second is gone where the
    /// first absorbed it.
    open spec fn spec_collision(p_i: Self::Cause, other: Self::Cause, params: Self::Params) -> (
        Self::Cause,
        Option<Self::Cause>,
    ) {
        arbitrary()
    }

    fn zero() -> (f: Self)
        ensures
            f == Self::spec_zero(),
    ;

    fn single(p: &mut Self::Cause, params: &Self::Params)
        ensures
            *final(p) == Self::spec_single(*old(p), *params),
    ;

    fn pairwise(p_i: &mut Self::Cause, p_j: &mut Self::Cause, params: &Self::Params) -> (d:
        Self::Distance)
        ensures
            (*final(p_i), *final(p_j), d) == Self::spec_pairwise(*old(p_i), *old(p_j), *params),
    ;

    fn collision(p_i: &mut Self::Cause, other: &mut Option<Self::Cause>, params: &Self::Params)
        ensures
            match *old(other) {
                Some(p_j) => (*final(p_i), *final(other)) == Self::spec_collision(
                    *old(p_i),
                    p_j,
                    *params,
                ),
                None => *final(p_i) == *old(p_i) && *final(other) is None,
            },
    ;
}

/// The scales of the forces that act at a distance.
pub trait NewtonParams {
    type Number;

    open spec fn spec_mid_scale_factor(&self) -> Self::Number {
        arbitrary()
    }

    open spec fn spec_large_scale_factor(&self) -> Self::Number {
        arbitrary()
    }

    /// Scale of the mid-range force between charges.
    fn mid_scale_factor(&self) -> (m: Self::Number)
        ensures
            m == self.spec_mid_scale_factor(),
    ;

    /// Scale of the long-range force between masses.
    fn large_scale_factor(&self) -> (l: Self::Number)
        ensures
            l == self.spec_large_scale_factor(),
    ;
}

/// The scale of collisions, and whether collisions are looked for at all.
pub trait CollisionParams {
    type Number;

    open spec fn spec_collision_factor(&self) -> Self::Number {
        arbitrary()
    }

    open spec fn spec_perform_collision_detection(&self) -> bool {
        arbitrary()
    }

    fn collision_factor(&self) -> (s: Self::Number)
        ensures
            s == self.spec_collision_factor(),
    ;

    fn perform_collision_detection(&self) -> (active: bool)
        ensures
            active == self.spec_perform_collision_detection(),
    ;
}

/// The length of an integration horizon, in ticks.
pub trait IntegrationParams {
    open spec fn spec_integration_steps(&self) -> usize {
        arbitrary()
    }

    /// Number of ticks that one force computation is held for.
    fn integration_steps(&self) -> (steps: usize)
        ensures
            steps == self.spec_integration_steps(),
    ;
}

} // verus!
