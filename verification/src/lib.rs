//! Locomotion controller for an articulated, variable-length creature built
//! from a chain of rigid-body links joined by motorized joints.
//!
//! All geometry and control arithmetic is carried out in fixed-point
//! millionths of a world unit, so every decision the controller makes is
//! checked by the verifier. The rigid-body engine itself is an external
//! collaborator: the controller consumes sensed positions, angles and contact
//! manifolds as plain values, and emits a list of commands that the caller
//! applies to the engine each tick.

pub mod cat;
pub mod command;
pub mod fixed;
pub mod game;
pub mod level;
pub mod math;
pub mod sensor;
pub mod state;
