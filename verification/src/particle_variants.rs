//! The particles of the plane and of space.
use crate::configs::ParticleXY as ParticleXYConf;
use crate::configs::ParticleXYZ as ParticleXYZConf;
use crate::coulomb::NewtonColoumb;
use crate::particle::Particle;
use crate::solver::ParticleOdeSolver;
use crate::vector::{State2, State3, State4, State6};
use vstd::prelude::*;

verus! {

/// A particle of the plane under the force law of charges and masses.
pub type ParticleXY<R> = Particle<
    State4<R>,
    NewtonColoumb<State2<R>, State4<R>, ParticleXYConf<R>>,
    R,
>;

/// A particle of space under the force law of charges and masses.
pub type ParticleXYZ<R> = Particle<
    State6<R>,
    NewtonColoumb<State3<R>, State6<R>, ParticleXYZConf<R>>,
    R,
>;

/// The solver of particles of the plane, with integrator `I`.
pub type ParticleXYSystemSolver<R, I> = ParticleOdeSolver<State4<R>, I, ParticleXYConf<R>>;

/// The solver of particles of space, with integrator `I`.
pub type ParticleXYZSystemSolver<R, I> = ParticleOdeSolver<State6<R>, I, ParticleXYZConf<R>>;

} // verus!
