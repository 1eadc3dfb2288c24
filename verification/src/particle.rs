//! Particles, and the force law of charges and masses with collisions.
use vstd::prelude::*;
use crate::newton::{Force, NewtonState};
use crate::scalar::Scalar;
use crate::states::{FromStateVec, InitState, StateIndex, ValidStateCheck};
use crate::vector::StateVector;

verus! {

/// A particle: a kinematic state with three scalar attributes, the radius
/// derived from its mass, the force that currently acts on it, and the mark
/// of a collision in the current step.
#[derive(Clone, Debug)]
pub struct Particle<V, F, R> {
    /// Parity: the sign of the product of two parities selects how the two
    /// particles collide.
    pub short: R,
    /// Charge.
    pub mid: R,
    /// Mass, always positive.
    pub mass: R,
    /// Position and velocity.
    pub state: V,
    /// Mass times acceleration.
    pub force: F,
    /// The square root of the mass.
    pub radius: R,
    pub has_collided: bool,
}

/// The mass that a particle is given for a requested mass: its magnitude,
/// and at least the smallest positive step.
pub open spec fn admissible_mass<R: Scalar>(mass: R) -> R {
    mass.spec_abs().spec_max(R::spec_epsilon())
}

impl<V, F: Force, R: Scalar> Particle<V, F, R> {
    /// The particle at rest of forces, with the radius its mass implies.
    pub open spec fn spec_new(short: R, mid: R, mass: R, state: V) -> Self {
        Particle {
            short,
            mid,
            mass: admissible_mass(mass),
            state,
            force: F::spec_zero(),
            radius: admissible_mass(mass).spec_sqrt(),
            has_collided: false,
        }
    }

    pub fn new(short: R, mid: R, mass: R, state: V) -> (p: Self)
        ensures
            p == Self::spec_new(short, mid, mass, state),
    {
        let mass = mass.abs().max(R::epsilon());
        let radius = mass.sqrt();
        Self { short, mid, mass, state, force: F::zero(), radius, has_collided: false }
    }

}

impl<V, F, R: Scalar> Particle<V, F, R> {
    pub fn get_state(&self) -> (s: &V)
        ensures
            *s == self.state,
    {
        &self.state
    }

    pub fn calc_radius(mass: R) -> (r: R)
        ensures
            r == mass.spec_sqrt(),
    {
        mass.sqrt()
    }

    /// The particle with the scalar attributes of `other` added to its own,
    /// and the radius of the summed mass.
    pub open spec fn spec_with_scalar_values_of(self, other: Self) -> Self {
        Particle {
            short: self.short.spec_plus(other.short),
            mid: self.mid.spec_plus(other.mid),
            mass: self.mass.spec_plus(other.mass),
            radius: self.mass.spec_plus(other.mass).spec_sqrt(),
            ..self
        }
    }

    pub fn add_scalar_values(&mut self, other_particle: &Self)
        ensures
            *final(self) == old(self).spec_with_scalar_values_of(*other_particle),
    {
        self.short = self.short.plus(other_particle.short);
        self.mid = self.mid.plus(other_particle.mid);
        self.mass = self.mass.plus(other_particle.mass);
        self.radius = Self::calc_radius(self.mass);
    }
}

impl<V: FromStateVec<Number = R>, F: Force, R: Scalar> FromStateVec for Particle<V, F, R> {
    type Number = R;

    /// Parity, charge and mass, then the numbers of the kinematic state.
    open spec fn spec_arity() -> nat {
        3 + V::spec_arity()
    }

    open spec fn built_from(&self, state: Seq<R>) -> bool {
        &&& self.short == state[0]
        &&& self.mid == state[1]
        &&& self.mass == admissible_mass(state[2])
        &&& self.radius == admissible_mass(state[2]).spec_sqrt()
        &&& self.force == F::spec_zero()
        &&& !self.has_collided
        &&& self.state.built_from(state.skip(3))
    }

    fn from(state: InitState<R>) -> (p: Self) {
        let mut dynamic_part: Vec<R> = Vec::new();
        let mut k: usize = 3;
        while k < state.len()
            invariant
                3 <= k <= state@.len(),
                dynamic_part@ == state@.subrange(3, k as int),
            decreases state@.len() - k,
        {
            dynamic_part.push(state[k]);
            proof {
                assert(dynamic_part@ =~= state@.subrange(3, k + 1));
            }
            k = k + 1;
        }
        proof {
            assert(dynamic_part@ =~= state@.skip(3));
        }
        Particle::new(state[0], state[1], state[2], V::from(dynamic_part))
    }
}

impl<V: ValidStateCheck, F, R> ValidStateCheck for Particle<V, F, R> {
    /// A particle is valid when its kinematic state is.
    open spec fn valid(&self) -> bool {
        self.state.valid()
    }

    fn is_valid(&self) -> (ok: bool) {
        self.state.is_valid()
    }
}

/// What a particle with `dims` kinematic components exposes at position `i`:
/// the components, then parity, charge, mass and radius, and zero beyond.
pub open spec fn particle_ind<const N: usize, F, R: Scalar>(
    p: Particle<StateVector<R, N>, F, R>,
    i: int,
) -> R {
    if i < N {
        p.state@[i]
    } else if i == N {
        p.short
    } else if i == N + 1 {
        p.mid
    } else if i == N + 2 {
        p.mass
    } else if i == N + 3 {
        p.radius
    } else {
        R::spec_zero()
    }
}

impl<F, R: Scalar> StateIndex for Particle<StateVector<R, 4>, F, R> {
    type Number = R;

    open spec fn spec_ind(&self, i: usize) -> R {
        particle_ind(*self, i as int)
    }

    fn ind(&self, i: usize) -> (r: R) {
        if i < 4 {
            self.state.get(i)
        } else if i == 4 {
            self.short
        } else if i == 5 {
            self.mid
        } else if i == 6 {
            self.mass
        } else if i == 7 {
            self.radius
        } else {
            R::zero()
        }
    }
}

impl<F, R: Scalar> StateIndex for Particle<StateVector<R, 6>, F, R> {
    type Number = R;

    open spec fn spec_ind(&self, i: usize) -> R {
        particle_ind(*self, i as int)
    }

    fn ind(&self, i: usize) -> (r: R) {
        if i < 6 {
            self.state.get(i)
        } else if i == 6 {
            self.short
        } else if i == 7 {
            self.mid
        } else if i == 8 {
            self.mass
        } else if i == 9 {
            self.radius
        } else {
            R::zero()
        }
    }
}

/// The vector of two components.
pub open spec fn vec2<R>(x: R, y: R) -> StateVector<R, 2> {
    StateVector { data: [x, y] }
}

/// The vector of three components.
pub open spec fn vec3<R>(x: R, y: R, z: R) -> StateVector<R, 3> {
    StateVector { data: [x, y, z] }
}

/// The vector of four components.
pub open spec fn vec4<R>(x: R, y: R, z: R, w: R) -> StateVector<R, 4> {
    StateVector { data: [x, y, z, w] }
}

/// The vector of six components.
pub open spec fn vec6<R>(x: R, y: R, z: R, u: R, v: R, w: R) -> StateVector<R, 6> {
    StateVector { data: [x, y, z, u, v, w] }
}

impl<R: Scalar> NewtonState for StateVector<R, 4> {
    type CartesianState = StateVector<R, 2>;

    type Number = R;

    open spec fn spec_position(&self) -> StateVector<R, 2> {
        vec2(self@[0], self@[1])
    }

    open spec fn spec_velocity(&self) -> StateVector<R, 2> {
        vec2(self@[2], self@[3])
    }

    open spec fn spec_with_velocity(self, vel: StateVector<R, 2>) -> Self {
        vec4(self@[0], self@[1], vel@[0], vel@[1])
    }

    open spec fn spec_scaled(v: StateVector<R, 2>, scalar: R) -> StateVector<R, 2> {
        vec2(v@[0].spec_times(scalar), v@[1].spec_times(scalar))
    }

    open spec fn spec_sum(a: StateVector<R, 2>, b: StateVector<R, 2>) -> StateVector<R, 2> {
        vec2(a@[0].spec_plus(b@[0]), a@[1].spec_plus(b@[1]))
    }

    open spec fn spec_difference(a: StateVector<R, 2>, b: StateVector<R, 2>) -> StateVector<R, 2> {
        vec2(a@[0].spec_minus(b@[0]), a@[1].spec_minus(b@[1]))
    }

    open spec fn spec_cartesian_zero() -> StateVector<R, 2> {
        vec2(R::spec_zero(), R::spec_zero())
    }

    /// The square root of the sum of the squared components.
    open spec fn spec_norm(v: StateVector<R, 2>) -> R {
        v@[0].spec_times(v@[0]).spec_plus(v@[1].spec_times(v@[1])).spec_sqrt()
    }

    open spec fn spec_from_position_and_velocity(
        position: StateVector<R, 2>,
        velocity: StateVector<R, 2>,
    ) -> Self {
        vec4(position@[0], position@[1], velocity@[0], velocity@[1])
    }

    open spec fn spec_dot(a: StateVector<R, 2>, b: StateVector<R, 2>) -> R {
        a@[0].spec_times(b@[0]).spec_plus(a@[1].spec_times(b@[1]))
    }

    fn position(&self) -> (p: StateVector<R, 2>) {
        StateVector { data: [self.data[0], self.data[1]] }
    }

    fn velocity(&self) -> (v: StateVector<R, 2>) {
        StateVector { data: [self.data[2], self.data[3]] }
    }

    fn set_velocity(&mut self, vel: StateVector<R, 2>) {
        *self = StateVector { data: [self.data[0], self.data[1], vel.data[0], vel.data[1]] };
    }

    fn scalar_mul_mut(cartesian_state: &mut StateVector<R, 2>, scalar: R) {
        *cartesian_state = StateVector {
            data: [cartesian_state.data[0].times(scalar), cartesian_state.data[1].times(scalar)],
        };
    }

    fn add_mut(cartesian_state: &mut StateVector<R, 2>, other: &StateVector<R, 2>) {
        *cartesian_state = StateVector {
            data: [
                cartesian_state.data[0].plus(other.data[0]),
                cartesian_state.data[1].plus(other.data[1]),
            ],
        };
    }

    fn sub_mut(cartesian_state: &mut StateVector<R, 2>, other: &StateVector<R, 2>) {
        *cartesian_state = StateVector {
            data: [
                cartesian_state.data[0].minus(other.data[0]),
                cartesian_state.data[1].minus(other.data[1]),
            ],
        };
    }

    fn cartesian_zero() -> (z: StateVector<R, 2>) {
        StateVector { data: [R::zero(), R::zero()] }
    }

    fn cartesian_norm(cartesian_state: &StateVector<R, 2>) -> (n: R) {
        let x = cartesian_state.data[0];
        let y = cartesian_state.data[1];
        x.times(x).plus(y.times(y)).sqrt()
    }

    fn from_position_and_velocity(position: StateVector<R, 2>, velocity: StateVector<R, 2>) -> (s:
        Self) {
        StateVector {
            data: [position.data[0], position.data[1], velocity.data[0], velocity.data[1]],
        }
    }

    fn dot_product(s_i: &StateVector<R, 2>, s_j: &StateVector<R, 2>) -> (d: R) {
        s_i.data[0].times(s_j.data[0]).plus(s_i.data[1].times(s_j.data[1]))
    }
}

impl<R: Scalar> NewtonState for StateVector<R, 6> {
    type CartesianState = StateVector<R, 3>;

    type Number = R;

    open spec fn spec_position(&self) -> StateVector<R, 3> {
        vec3(self@[0], self@[1], self@[2])
    }

    open spec fn spec_velocity(&self) -> StateVector<R, 3> {
        vec3(self@[3], self@[4], self@[5])
    }

    open spec fn spec_with_velocity(self, vel: StateVector<R, 3>) -> Self {
        vec6(self@[0], self@[1], self@[2], vel@[0], vel@[1], vel@[2])
    }

    open spec fn spec_scaled(v: StateVector<R, 3>, scalar: R) -> StateVector<R, 3> {
        vec3(v@[0].spec_times(scalar), v@[1].spec_times(scalar), v@[2].spec_times(scalar))
    }

    open spec fn spec_sum(a: StateVector<R, 3>, b: StateVector<R, 3>) -> StateVector<R, 3> {
        vec3(a@[0].spec_plus(b@[0]), a@[1].spec_plus(b@[1]), a@[2].spec_plus(b@[2]))
    }

    open spec fn spec_difference(a: StateVector<R, 3>, b: StateVector<R, 3>) -> StateVector<R, 3> {
        vec3(a@[0].spec_minus(b@[0]), a@[1].spec_minus(b@[1]), a@[2].spec_minus(b@[2]))
    }

    open spec fn spec_cartesian_zero() -> StateVector<R, 3> {
        vec3(R::spec_zero(), R::spec_zero(), R::spec_zero())
    }

    /// The square root of the sum of the squared components.
    open spec fn spec_norm(v: StateVector<R, 3>) -> R {
        v@[0].spec_times(v@[0]).spec_plus(v@[1].spec_times(v@[1])).spec_plus(
            v@[2].spec_times(v@[2]),
        ).spec_sqrt()
    }

    open spec fn spec_from_position_and_velocity(
        position: StateVector<R, 3>,
        velocity: StateVector<R, 3>,
    ) -> Self {
        vec6(position@[0], position@[1], position@[2], velocity@[0], velocity@[1], velocity@[2])
    }

    open spec fn spec_dot(a: StateVector<R, 3>, b: StateVector<R, 3>) -> R {
        a@[0].spec_times(b@[0]).spec_plus(a@[1].spec_times(b@[1])).spec_plus(
            a@[2].spec_times(b@[2]),
        )
    }

    fn position(&self) -> (p: StateVector<R, 3>) {
        StateVector { data: [self.data[0], self.data[1], self.data[2]] }
    }

    fn velocity(&self) -> (v: StateVector<R, 3>) {
        StateVector { data: [self.data[3], self.data[4], self.data[5]] }
    }

    fn set_velocity(&mut self, vel: StateVector<R, 3>) {
        *self = StateVector {
            data: [
                self.data[0],
                self.data[1],
                self.data[2],
                vel.data[0],
                vel.data[1],
                vel.data[2],
            ],
        };
    }

    fn scalar_mul_mut(cartesian_state: &mut StateVector<R, 3>, scalar: R) {
        *cartesian_state = StateVector {
            data: [
                cartesian_state.data[0].times(scalar),
                cartesian_state.data[1].times(scalar),
                cartesian_state.data[2].times(scalar),
            ],
        };
    }

    fn add_mut(cartesian_state: &mut StateVector<R, 3>, other: &StateVector<R, 3>) {
        *cartesian_state = StateVector {
            data: [
                cartesian_state.data[0].plus(other.data[0]),
                cartesian_state.data[1].plus(other.data[1]),
                cartesian_state.data[2].plus(other.data[2]),
            ],
        };
    }

    fn sub_mut(cartesian_state: &mut StateVector<R, 3>, other: &StateVector<R, 3>) {
        *cartesian_state = StateVector {
            data: [
                cartesian_state.data[0].minus(other.data[0]),
                cartesian_state.data[1].minus(other.data[1]),
                cartesian_state.data[2].minus(other.data[2]),
            ],
        };
    }

    fn cartesian_zero() -> (z: StateVector<R, 3>) {
        StateVector { data: [R::zero(), R::zero(), R::zero()] }
    }

    fn cartesian_norm(cartesian_state: &StateVector<R, 3>) -> (n: R) {
        let x = cartesian_state.data[0];
        let y = cartesian_state.data[1];
        let z = cartesian_state.data[2];
        x.times(x).plus(y.times(y)).plus(z.times(z)).sqrt()
    }

    fn from_position_and_velocity(position: StateVector<R, 3>, velocity: StateVector<R, 3>) -> (s:
        Self) {
        StateVector {
            data: [
                position.data[0],
                position.data[1],
                position.data[2],
                velocity.data[0],
                velocity.data[1],
                velocity.data[2],
            ],
        }
    }

    fn dot_product(s_i: &StateVector<R, 3>, s_j: &StateVector<R, 3>) -> (d: R) {
        s_i.data[0].times(s_j.data[0]).plus(s_i.data[1].times(s_j.data[1])).plus(
            s_i.data[2].times(s_j.data[2]),
        )
    }
}

} // verus!
