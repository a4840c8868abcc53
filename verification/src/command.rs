//! Commands the controller issues to the rigid-body engine.
//!
//! The controller never touches the engine directly: it returns a list of
//! these values each tick, and the embedding applies them in order. Bodies,
//! joints and fixtures are named by plain numeric ids that the controller
//! allocates; the embedding keeps the id-to-handle map.

use vstd::prelude::*;
use crate::math::Vec2;

verus! {

/// One engine operation. Scalar fields are fixed-point millionths.
#[derive(Clone, Copy, Debug, PartialEq, Eq, Structural)]
pub enum Command {
    /// Create a dynamic body with the given gravity scale and linear and
    /// angular damping.
    CreateBody {
        id: u64,
        position: Vec2,
        angle: i64,
        gravity_scale: i64,
        linear_damping: i64,
        angular_damping: i64,
    },
    /// Create a circle fixture on `body` with explicit material response
    /// and collision group; a sensor fixture reports contacts only and
    /// never collides.
    CreateCircleFixture {
        id: u64,
        body: u64,
        radius: i64,
        density: i64,
        friction: i64,
        restitution: i64,
        group: i64,
        sensor: bool,
    },
    /// Create a revolute joint with angle limits, anchored at `anchor_b` in
    /// the second body's local frame.
    CreateLimitJoint { body_a: u64, body_b: u64, anchor_b: Vec2, lower: i64, upper: i64 },
    /// Create a motor joint driving the relative angle of the two bodies;
    /// `max_force` caps its linear correction (zero here: angle only).
    CreateMotorJoint {
        id: u64,
        body_a: u64,
        body_b: u64,
        max_force: i64,
        max_torque: i64,
        correction: i64,
    },
    /// Create a collision-enabled revolute joint pinning the head to another
    /// body, anchored at the given world points.
    CreateGrabJoint { id: u64, head: u64, other: u64, anchor_head: Vec2, anchor_other: Vec2 },
    /// Create a static body at the origin, the carrier of terrain fixtures.
    CreateStaticBody { id: u64 },
    /// Create an oriented box fixture on `body`, centered at `center` in
    /// the body's frame. Terrain boxes die with their body and need no id.
    CreateBoxFixture {
        body: u64,
        half_width: i64,
        half_height: i64,
        center: Vec2,
        angle: i64,
        density: i64,
    },
    /// Destroy a joint created with an id.
    DestroyJoint { id: u64 },
    /// Destroy a body and everything attached to it.
    DestroyBody { id: u64 },
    /// Destroy a single fixture of a body.
    DestroyFixture { body: u64, fixture: u64 },
    /// Set a motor joint's angular offset target and torque cap.
    SetMotor { id: u64, offset: i64, torque: i64 },
    /// Overwrite a body's linear velocity.
    SetLinearVelocity { body: u64, velocity: Vec2 },
    /// Apply a force at a body's center of mass.
    ApplyForce { body: u64, force: Vec2 },
    /// Teleport a body to a position and angle.
    SetTransform { body: u64, position: Vec2, angle: i64 },
    /// Move a body, keeping its current angle.
    SetPosition { body: u64, position: Vec2 },
}

} // verus!
