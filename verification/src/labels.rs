//! Descriptions, references and formulas that the configurable parts of the
//! library carry for display.
use vstd::prelude::*;

verus! {

/// A short text on what something is, and where to read more.
pub trait ChaosDescription {
    fn description(&self) -> String;

    fn reference(&self) -> &'static str;
}

/// The defining equations, one per line.
pub trait ChaosFormula {
    fn formula(&self) -> &[&'static str];
}

pub const LABEL_PARTICLE_PX: &'static str = "Position X";

pub const LABEL_PARTICLE_PY: &'static str = "Position Y";

pub const LABEL_PARTICLE_PZ: &'static str = "Position Z";

pub const LABEL_PARTICLE_VX: &'static str = "Velocity X";

pub const LABEL_PARTICLE_VY: &'static str = "Velocity Y";

pub const LABEL_PARTICLE_VZ: &'static str = "Velocity Z";

pub const LABEL_PARTICLE_PARITY: &'static str = "Parity s";

pub const LABEL_PARTICLE_CHARGE: &'static str = "Charge m";

pub const LABEL_PARTICLE_MASS: &'static str = "Mass l";

pub const LABEL_PARTICLE_RADIUS: &'static str = "Radius r";

pub const LABEL_PARTICLE_DESCRIPTION: &'static str =
    "This particle simulation employs Newtonian mechanics to model the dynamics of particles. It calculates the cumulative forces between pairs to determine their velocity and positional changes. When particles collide, indicated by their radii overlapping, a short-range force is applied. The nature of the collision—inelastic or elastic—depends on the parity of the particles' signs. The 's' parameter inversely controls collision behavior and the effective mass during the impulse exchange of an elastic collision. Setting 's' to zero turns off collision interactions. The simulation also includes a mid-range force analogous to the Coulomb force, governed by the 'm' parameter. Positive 'm' values result in attraction among particles with opposite charges, while negative values cause repulsion. With 'm' set to zero, this force is neutralized. Lastly, a long-range gravitational force, modulated by the 'l' parameter, affects the particles. Negative 'l' values can be used to simulate anti-gravity effects.";

pub const LINK_PARTICLE: &'static str = "https://wikipedia.org/wiki/Classical_mechanics";

} // verus!
