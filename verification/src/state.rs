//! Game-side state shared with the controller: raw input, control intent,
//! ground layout and debug toggles.

use vstd::prelude::*;
use crate::math::Vec2;

verus! {

/// Raw key state as sampled by the window layer.
#[derive(Clone, Copy, Debug, PartialEq, Eq, Structural)]
pub struct Input {
    pub left: bool,
    pub right: bool,
    pub up: bool,
    pub down: bool,
    pub turn: bool,
    pub extend: bool,
    pub contract: bool,
    pub fly: bool,
    pub toggle_pause: bool,
    pub step: bool,
    pub toggle_debug_physics: bool,
    pub toggle_debug_physics_shapes: bool,
    pub toggle_debug_physics_joints: bool,
    pub toggle_debug_physics_aabbs: bool,
    pub toggle_debug_physics_transforms: bool,
    pub toggle_debug_physics_contacts: bool,
}

impl Input {
    /// All keys released.
    pub fn released() -> (r: Input)
        ensures
            r == (Input {
                left: false,
                right: false,
                up: false,
                down: false,
                turn: false,
                extend: false,
                contract: false,
                fly: false,
                toggle_pause: false,
                step: false,
                toggle_debug_physics: false,
                toggle_debug_physics_shapes: false,
                toggle_debug_physics_joints: false,
                toggle_debug_physics_aabbs: false,
                toggle_debug_physics_transforms: false,
                toggle_debug_physics_contacts: false,
            }),
    {
        Input {
            left: false,
            right: false,
            up: false,
            down: false,
            turn: false,
            extend: false,
            contract: false,
            fly: false,
            toggle_pause: false,
            step: false,
            toggle_debug_physics: false,
            toggle_debug_physics_shapes: false,
            toggle_debug_physics_joints: false,
            toggle_debug_physics_aabbs: false,
            toggle_debug_physics_transforms: false,
            toggle_debug_physics_contacts: false,
        }
    }
}

/// An RGBA color for debug overlays.
#[derive(Clone, Copy, Debug, PartialEq, Eq, Structural)]
pub struct DebugColor(pub u8, pub u8, pub u8, pub u8);

/// Which classes of physics debug geometry to draw.
#[derive(Clone, Copy, Debug, PartialEq, Eq, Structural)]
pub struct DebugPhysics {
    pub shapes: bool,
    pub joints: bool,
    pub aabbs: bool,
    pub transforms: bool,
    pub contacts: bool,
}

/// Debug state toggled from the keyboard.
#[derive(Clone, Copy, Debug, PartialEq, Eq, Structural)]
pub struct DebugInfo {
    pub skipped_steps: bool,
    pub paused: bool,
    pub show_physics: bool,
    pub physics_flags: DebugPhysics,
}

/// Static terrain: a flat list of unit-box centers, with dirty markers that
/// tell the physics and render layers to rebuild.
pub struct Ground {
    pub boxes: Vec<Vec2>,
    pub dirty_physics: bool,
    pub dirty_render: bool,
}

/// The creature as the game sees it: the control intent for the next tick
/// and the sampled body path for rendering.
pub struct Cat {
    /// Desired heading angle, if any movement key is held.
    pub direction: Option<i64>,
    pub turning: bool,
    pub extending: bool,
    pub contracting: bool,
    pub flying: bool,
    /// Displayed link positions, tail-to-head.
    pub path: Vec<Vec2>,
    /// Displayed tail positions, root-to-tip.
    pub tail: Vec<Vec2>,
    /// Normal of the surface currently grabbed, if any.
    pub grab_d: Option<Vec2>,
    /// Animation phase advanced while walking or swimming.
    pub walk_phase: i64,
}

/// The whole mutable game state.
pub struct State {
    pub paused: bool,
    pub input: Input,
    pub debug: DebugInfo,
    pub ground: Ground,
    pub cat: Cat,
}

} // verus!
