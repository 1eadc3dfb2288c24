//! The force law of the particle model: a mid-range force between charges, a
//! long-range force between masses, and collisions that merge two particles
//! or let them bounce off each other.
use vstd::prelude::*;
use std::marker::PhantomData;
use crate::newton::{CollisionParams, Force, NewtonParams, NewtonState};
use crate::particle::Particle;
use crate::scalar::Scalar;

verus! {

/// The force on a particle of kinematic state `V`, a vector of its Cartesian
/// space `A`, under the parameters `Param`.
#[derive(Debug)]
pub struct NewtonColoumb<A, V, Param> {
    pub state: A,
    pub phantom_state: PhantomData<V>,
    pub phantom_conf: PhantomData<Param>,
}

impl<A: Copy, V, Param> Clone for NewtonColoumb<A, V, Param> {
    fn clone(&self) -> (copy: Self)
        ensures
            copy == *self,
    {
        NewtonColoumb { state: self.state, phantom_state: PhantomData, phantom_conf: PhantomData }
    }
}

/// The signed strength of the force between two particles at `distance`,
/// per unit of their separation vector; positive means attraction. Like
/// charges repel with the inverse cube of the distance, masses attract with
/// its inverse square.
pub open spec fn scalar_force<R: Scalar>(
    distance: R,
    scales: (R, R),
    p_i: (R, R),
    p_j: (R, R),
) -> R {
    let (mid, mass) = scales;
    let (mid_i, mass_i) = p_i;
    let (mid_j, mass_j) = p_j;
    let cube = distance.spec_times(distance).spec_times(distance);
    let square = distance.spec_times(distance);
    let mid_term = mid.spec_neg().spec_times(mid_i).spec_times(mid_j).spec_over(cube);
    let mass_term = mass.spec_times(mass_i).spec_times(mass_j).spec_over(square);
    mid_term.spec_plus(mass_term)
}

/// The scalar that decides how two particles collide: the collision scale
/// times both parities.
pub open spec fn small_scale<R: Scalar>(collision_factor: R, short_i: R, short_j: R) -> R {
    collision_factor.spec_times(short_i).spec_times(short_j)
}

impl<A: Copy, V, Param> NewtonColoumb<A, V, Param> where
    V: NewtonState<CartesianState = A>,
    V::Number: Scalar,
    Param: NewtonParams<Number = V::Number> + CollisionParams<Number = V::Number>,
 {
    pub open spec fn spec_new(v: A) -> Self {
        NewtonColoumb { state: v, phantom_state: PhantomData, phantom_conf: PhantomData }
    }

    pub fn new(v: A) -> (f: Self)
        ensures
            f == Self::spec_new(v),
    {
        Self { state: v, phantom_conf: PhantomData, phantom_state: PhantomData }
    }

    pub fn get_state(&self) -> (s: &A)
        ensures
            *s == self.state,
    {
        &self.state
    }

    pub fn scalar_force_mid_long(
        distance: &V::Number,
        scales: (V::Number, V::Number),
        p_i: (V::Number, V::Number),
        p_j: (V::Number, V::Number),
    ) -> (scalar: V::Number)
        ensures
            scalar == scalar_force(*distance, scales, p_i, p_j),
    {
        let (mid, mass) = scales;
        let (mid_i, mass_i) = p_i;
        let (mid_j, mass_j) = p_j;
        let square = distance.times(*distance);
        let cube = square.times(*distance);
        let mid = mid.neg().times(mid_i).times(mid_j).over(cube);
        let mass = mass.times(mass_i).times(mass_j).over(square);
        mid.plus(mass)
    }

    /// The vector from the position of `p_i` to that of `p_j`.
    pub open spec fn separation(
        p_i: Particle<V, Self, V::Number>,
        p_j: Particle<V, Self, V::Number>,
    ) -> A {
        V::spec_difference(p_j.state.spec_position(), p_i.state.spec_position())
    }

    pub fn distance_i_to_j(
        p_i: &Particle<V, Self, V::Number>,
        p_j: &Particle<V, Self, V::Number>,
    ) -> (delta: A)
        ensures
            delta == Self::separation(*p_i, *p_j),
    {
        let mut pos_delta = p_j.state.position();
        V::sub_mut(&mut pos_delta, &p_i.state.position());
        pos_delta
    }

    /// The force that `p_j` exerts on `p_i`: their separation scaled by the
    /// signed strength at their distance.
    pub open spec fn force_between(
        p_i: Particle<V, Self, V::Number>,
        p_j: Particle<V, Self, V::Number>,
        params: Param,
    ) -> A {
        let delta = Self::separation(p_i, p_j);
        V::spec_scaled(
            delta,
            scalar_force(
                V::spec_norm(delta),
                (params.spec_mid_scale_factor(), params.spec_large_scale_factor()),
                (p_i.mid, p_i.mass),
                (p_j.mid, p_j.mass),
            ),
        )
    }

    /// The particle that remains when `p_i` absorbs `p_j`: position and
    /// velocity are the averages of both, weighted by mass; parity, charge,
    /// mass and force are the sums; the radius is that of the summed mass.
    pub open spec fn merged(
        p_i: Particle<V, Self, V::Number>,
        p_j: Particle<V, Self, V::Number>,
    ) -> Particle<V, Self, V::Number> {
        let total_mass = p_i.mass.spec_plus(p_j.mass);
        let w_i = p_i.mass.spec_over(total_mass);
        let w_j = p_j.mass.spec_over(total_mass);
        let velocity = V::spec_sum(
            V::spec_scaled(p_i.state.spec_velocity(), w_i),
            V::spec_scaled(p_j.state.spec_velocity(), w_j),
        );
        let position = V::spec_sum(
            V::spec_scaled(p_i.state.spec_position(), w_i),
            V::spec_scaled(p_j.state.spec_position(), w_j),
        );
        Particle {
            short: p_i.short.spec_plus(p_j.short),
            mid: p_i.mid.spec_plus(p_j.mid),
            mass: total_mass,
            state: V::spec_from_position_and_velocity(position, velocity),
            force: NewtonColoumb {
                state: V::spec_sum(p_i.force.state, p_j.force.state),
                ..p_i.force
            },
            radius: total_mass.spec_sqrt(),
            has_collided: p_i.has_collided,
        }
    }

    /// The impulse that two particles exchange along the unit vector `n`
    /// from the first to the second, for the collision scalar `s`.
    pub open spec fn impulse(
        p_i: Particle<V, Self, V::Number>,
        p_j: Particle<V, Self, V::Number>,
        n: A,
        s: V::Number,
    ) -> V::Number {
        let one = <V::Number as Scalar>::spec_one();
        let vel_delta = V::spec_difference(p_i.state.spec_velocity(), p_j.state.spec_velocity());
        let v_imp = V::spec_dot(n, vel_delta);
        let m_eff = one.spec_over(one.spec_over(p_i.mass).spec_plus(one.spec_over(p_j.mass)));
        one.spec_plus(s.spec_abs()).spec_times(m_eff).spec_times(v_imp)
    }

    /// Both particles after they bounced off each other. Two particles at
    /// the very same position are left as they are.
    pub open spec fn bounced(
        p_i: Particle<V, Self, V::Number>,
        p_j: Particle<V, Self, V::Number>,
        s: V::Number,
    ) -> (Particle<V, Self, V::Number>, Particle<V, Self, V::Number>) {
        let delta = Self::separation(p_i, p_j);
        let distance = V::spec_norm(delta);
        if distance.spec_equals(<V::Number as Scalar>::spec_zero()) {
            (p_i, p_j)
        } else {
            let n = V::spec_scaled(delta, <V::Number as Scalar>::spec_one().spec_over(distance));
            let impulse = Self::impulse(p_i, p_j, n, s);
            let v_i = V::spec_sum(
                V::spec_scaled(n, impulse.spec_neg().spec_over(p_i.mass)),
                p_i.state.spec_velocity(),
            );
            let v_j = V::spec_sum(
                V::spec_scaled(n, impulse.spec_over(p_j.mass)),
                p_j.state.spec_velocity(),
            );
            (
                Particle { state: p_i.state.spec_with_velocity(v_i), ..p_i },
                Particle { state: p_j.state.spec_with_velocity(v_j), ..p_j },
            )
        }
    }

    /// Elastic collision: the particles exchange momentum along the line
    /// between them, and both go on.
    pub fn collision_elastic(
        p_i: &mut Particle<V, Self, V::Number>,
        p_j: &mut Particle<V, Self, V::Number>,
        s: V::Number,
    )
        ensures
            (*final(p_i), *final(p_j)) == Self::bounced(*old(p_i), *old(p_j), s),
    {
        let mut n = Self::distance_i_to_j(p_i, p_j);
        let distance = V::cartesian_norm(&n);
        if distance.equals(<V::Number as Scalar>::zero()) {
            return ;
        }
        let one = <V::Number as Scalar>::one();
        V::scalar_mul_mut(&mut n, one.over(distance));
        let v_i = p_i.state.velocity();
        let v_j = p_j.state.velocity();
        let mut vel_delta = v_i;
        V::sub_mut(&mut vel_delta, &v_j);
        let v_imp = V::dot_product(&n, &vel_delta);
        let m_eff = one.over(one.over(p_i.mass).plus(one.over(p_j.mass)));
        let impulse_magnitude = one.plus(s.abs()).times(m_eff).times(v_imp);
        let mut vel_delta_i = n;
        let mut vel_delta_j = n;
        V::scalar_mul_mut(&mut vel_delta_i, impulse_magnitude.neg().over(p_i.mass));
        V::scalar_mul_mut(&mut vel_delta_j, impulse_magnitude.over(p_j.mass));
        V::add_mut(&mut vel_delta_i, &v_i);
        V::add_mut(&mut vel_delta_j, &v_j);
        p_i.state.set_velocity(vel_delta_i);
        p_j.state.set_velocity(vel_delta_j);
    }

    /// Inelastic collision: `p_i` becomes the merged particle.
    pub fn collision_inelastic(
        p_i: &mut Particle<V, Self, V::Number>,
        p_j: &Particle<V, Self, V::Number>,
    )
        ensures
            *final(p_i) == Self::merged(*old(p_i), *p_j),
    {
        let mut velocity = p_i.state.velocity();
        let m_i = p_i.mass;
        let m_j = p_j.mass;
        let total_mass = m_i.plus(m_j);
        let m_i = m_i.over(total_mass);
        let m_j = m_j.over(total_mass);
        V::scalar_mul_mut(&mut velocity, m_i);
        let mut other_velocity = p_j.state.velocity();
        V::scalar_mul_mut(&mut other_velocity, m_j);
        V::add_mut(&mut velocity, &other_velocity);
        let mut position = p_i.state.position();
        V::scalar_mul_mut(&mut position, m_i);
        let mut other_position = p_j.state.position();
        V::scalar_mul_mut(&mut other_position, m_j);
        V::add_mut(&mut position, &other_position);
        p_i.state = V::from_position_and_velocity(position, velocity);
        p_i.add_scalar_values(p_j);
        V::add_mut(&mut p_i.force.state, &p_j.force.state);
    }
}

impl<A: Copy, V, Param> Force for NewtonColoumb<A, V, Param> where
    V: NewtonState<CartesianState = A>,
    V::Number: Scalar,
    Param: NewtonParams<Number = V::Number> + CollisionParams<Number = V::Number>,
 {
    type Cause = Particle<V, Self, V::Number>;

    type Params = Param;

    type Distance = V::Number;

    open spec fn spec_zero() -> Self {
        Self::spec_new(V::spec_cartesian_zero())
    }

    /// No force acts on a particle alone.
    open spec fn spec_single(p: Self::Cause, params: Param) -> Self::Cause {
        p
    }

    /// The force between the two is added to the first particle and taken
    /// from the second: what one gains, the other loses.
    open spec fn spec_pairwise(p_i: Self::Cause, p_j: Self::Cause, params: Param) -> (
        Self::Cause,
        Self::Cause,
        V::Number,
    ) {
        let f = Self::force_between(p_i, p_j, params);
        (
            Particle {
                force: NewtonColoumb { state: V::spec_sum(p_i.force.state, f), ..p_i.force },
                ..p_i
            },
            Particle {
                force: NewtonColoumb {
                    state: V::spec_difference(p_j.force.state, f),
                    ..p_j.force
                },
                ..p_j
            },
            V::spec_norm(Self::separation(p_i, p_j)),
        )
    }

    /// Parities of the same sign merge the two particles into the first,
    /// parities of opposite sign let them bounce, and a parity of zero lets
    /// them pass.
    open spec fn spec_collision(p_i: Self::Cause, other: Self::Cause, params: Param) -> (
        Self::Cause,
        Option<Self::Cause>,
    ) {
        let s = small_scale(params.spec_collision_factor(), p_i.short, other.short);
        let zero = <V::Number as Scalar>::spec_zero();
        if zero.spec_lt(s) {
            (Self::merged(p_i, other), None)
        } else if s.spec_lt(zero) {
            let (a, b) = Self::bounced(p_i, other, s);
            (a, Some(b))
        } else {
            (p_i, Some(other))
        }
    }

    fn zero() -> (f: Self) {
        Self::new(V::cartesian_zero())
    }

    fn single(_p: &mut Self::Cause, _params: &Param) {
    }

    fn pairwise(p_i: &mut Self::Cause, p_j: &mut Self::Cause, params: &Param) -> (d: V::Number) {
        let mut pos_delta = Self::distance_i_to_j(p_i, p_j);
        let distance = V::cartesian_norm(&pos_delta);
        let params_mid_long = (params.mid_scale_factor(), params.large_scale_factor());
        let p_i_vals = (p_i.mid, p_i.mass);
        let p_j_vals = (p_j.mid, p_j.mass);
        let scalar = Self::scalar_force_mid_long(&distance, params_mid_long, p_i_vals, p_j_vals);
        V::scalar_mul_mut(&mut pos_delta, scalar);
        V::sub_mut(&mut p_j.force.state, &pos_delta);
        V::add_mut(&mut p_i.force.state, &pos_delta);
        distance
    }

    fn collision(p_i: &mut Self::Cause, other_particle: &mut Option<Self::Cause>, params: &Param) {
        let mut merge = false;
        match other_particle {
            Some(p_j) => {
                let small_scale_scalar = params.collision_factor().times(p_i.short).times(
                    p_j.short,
                );
                let zero = <V::Number as Scalar>::zero();
                if zero.lt(small_scale_scalar) {
                    Self::collision_inelastic(p_i, p_j);
                    merge = true;
                } else if small_scale_scalar.lt(zero) {
                    Self::collision_elastic(p_i, p_j, small_scale_scalar);
                }
            },
            None => {},
        }
        if merge {
            *other_particle = None;
        }
    }
}

} // verus!
