//! A deterministic 2D physics core for one disc above a floor.
//!
//! The disc falls under gravity, bounces off a horizontal floor, rubs
//! against it, and is pushed and turned by a player. All quantities are
//! fixed-point numbers, so a run is the same on every machine, and every
//! stage of a tick is specified over mathematical integers and proved to
//! meet that specification without overflow.
//!
//! [`step::step`] advances a disc by one tick. The stages it is made of
//! are public too, for callers that schedule them themselves.

pub mod arith;
pub mod body;
pub mod collision;
pub mod error;
pub mod fixed;
pub mod forces;
pub mod friction;
pub mod integrator;
pub mod mesh;
pub mod step;

pub use body::{wrap_angle, Body, Collider, Pose, Vec2, FLOOR_Y};
pub use error::StepError;
pub use fixed::{Fixed, LIMIT, SCALE};
pub use forces::{Gravity, InputSnapshot, Player};
pub use mesh::FidgetSpinner;
pub use step::{step, step_applies};
