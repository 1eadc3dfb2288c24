//! A trajectory execution engine for ensembles of samples.
//!
//! Samples are points of a low-dimensional phase space. They are advanced
//! tick by tick, by discrete maps or by the cached runs of a solver of
//! differential equations, and a sample whose state fails the validity
//! filter dies and leaves its slot empty. Particles are samples that also
//! exert forces on each other and collide: every few ticks the forces of all
//! pairs are computed afresh and the collisions found on the way are
//! resolved.
//!
//! The library computes with any number type that implements
//! [`scalar::Scalar`], and its contracts are stated over the operations of
//! that type.
pub mod scalar;
pub mod states;
pub mod vector;
pub mod labels;
pub mod distribution;
pub mod mesh;
pub mod chaos_data;
pub mod fractal_data;
pub mod lookahead;
pub mod integrator;
pub mod discrete;
pub mod exec;
pub mod newton;
pub mod particle;
pub mod coulomb;
pub mod configs;
pub mod particle_variants;
pub mod collision_graph;
pub mod solver;
pub mod data_variants;
pub mod benchmark;
pub mod laws;
pub mod force_balance;
pub mod resolution;
pub mod detection;
pub mod two_bodies;
pub mod conservation;
pub mod components;
pub mod survivors;
