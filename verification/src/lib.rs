//! A small real-time particle-physics sandbox: three interchangeable
//! simulation modes (N-body gravity, granular sand, mass-spring soft body)
//! built on a common particle and integration substrate.
//!
//! All physical scalars are fixed-point numbers: signed 64-bit counts of
//! thousandths of a unit, with truncating multiplication and division and
//! saturation at the representation's limits. Every contract states the
//! exact value a computation produces in that model.

pub mod constants;
pub mod controller;
pub mod fixed;
pub mod gravity;
pub mod particle;
pub mod sand;
pub mod softbody;
pub mod vec2;

pub use crate::controller::{Controller, SimulationBounds};
pub use crate::fixed::SCALE;
pub use crate::gravity::GravityController;
pub use crate::particle::Particle;
pub use crate::sand::SandController;
pub use crate::softbody::SoftbodyController;
pub use crate::vec2::Vec2;
