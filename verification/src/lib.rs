//! A bounded-population N-body simulator: point particles exert pairwise
//! gravitational and Coulomb forces on one another and are advanced tick by
//! tick through an explicit integration step, with capacity-bounded emission
//! of new particles.
//!
//! All physical quantities are held in signed 64-bit fixed-point form (see
//! [`fixed`]), so every force law, integration formula and population rule
//! is stated exactly and proved.

pub mod emission;
pub mod fixed;
pub mod forces;
pub mod integrate;
pub mod particle;
pub mod rng;
pub mod sim;
