//! Game-side per-tick logic around the controller: mapping keys to input
//! state, deriving the control intent from the held keys, toggling debug
//! overlays, and budgeting fixed-timestep sub-steps.

use vstd::prelude::*;
use vstd::arithmetic::div_mod::{lemma_div_is_ordered, lemma_div_multiples_vanish};
use crate::fixed::FX_ONE;
use crate::math::{Vec2, atan2_val, PI_FX};
use crate::state::{Input, DebugInfo, Cat};

verus! {

/// A key the game reacts to, already decoded from the window layer.
#[derive(Clone, Copy, Debug, PartialEq, Eq, Structural)]
pub enum Key {
    Left,
    Right,
    Up,
    Down,
    Turn,
    Extend,
    Contract,
    Fly,
    ToggleDebug,
    ToggleShapes,
    ToggleJoints,
    ToggleAabbs,
    ToggleTransforms,
    ToggleContacts,
    Other,
}

/// The input state after a key goes down or up.
pub open spec fn input_after(i: Input, key: Key, pressed: bool) -> Input {
    match key {
        Key::Left => Input { left: pressed, ..i },
        Key::Right => Input { right: pressed, ..i },
        Key::Up => Input { up: pressed, ..i },
        Key::Down => Input { down: pressed, ..i },
        Key::Turn => Input { turn: pressed, ..i },
        Key::Extend => Input { extend: pressed, ..i },
        Key::Contract => Input { contract: pressed, ..i },
        Key::Fly => Input { fly: pressed, ..i },
        Key::ToggleDebug => Input { toggle_debug_physics: pressed, ..i },
        Key::ToggleShapes => Input { toggle_debug_physics_shapes: pressed, ..i },
        Key::ToggleJoints => Input { toggle_debug_physics_joints: pressed, ..i },
        Key::ToggleAabbs => Input { toggle_debug_physics_aabbs: pressed, ..i },
        Key::ToggleTransforms => Input { toggle_debug_physics_transforms: pressed, ..i },
        Key::ToggleContacts => Input { toggle_debug_physics_contacts: pressed, ..i },
        Key::Other => i,
    }
}

/// Record a key edge in the input state.
#[verifier::rlimit(100)]
pub fn handle_event(input: &mut Input, key: Key, pressed: bool)
    ensures
        *final(input) == input_after(*old(input), key, pressed),
{
    let cur: Input = *input;
    match key {
        Key::Left => {
            *input = Input { left: pressed, ..cur };
        },
        Key::Right => {
            *input = Input { right: pressed, ..cur };
        },
        Key::Up => {
            *input = Input { up: pressed, ..cur };
        },
        Key::Down => {
            *input = Input { down: pressed, ..cur };
        },
        Key::Turn => {
            *input = Input { turn: pressed, ..cur };
        },
        Key::Extend => {
            *input = Input { extend: pressed, ..cur };
        },
        Key::Contract => {
            *input = Input { contract: pressed, ..cur };
        },
        Key::Fly => {
            *input = Input { fly: pressed, ..cur };
        },
        Key::ToggleDebug => {
            *input = Input { toggle_debug_physics: pressed, ..cur };
        },
        Key::ToggleShapes => {
            *input = Input { toggle_debug_physics_shapes: pressed, ..cur };
        },
        Key::ToggleJoints => {
            *input = Input { toggle_debug_physics_joints: pressed, ..cur };
        },
        Key::ToggleAabbs => {
            *input = Input { toggle_debug_physics_aabbs: pressed, ..cur };
        },
        Key::ToggleTransforms => {
            *input = Input { toggle_debug_physics_transforms: pressed, ..cur };
        },
        Key::ToggleContacts => {
            *input = Input { toggle_debug_physics_contacts: pressed, ..cur };
        },
        Key::Other => {
            *input = cur;
        },
    }
}

/// Consume the pending debug-toggle edges, flipping the matching overlays.
pub fn update_debug(input: &mut Input, debug: &mut DebugInfo)
    ensures
        final(debug).show_physics == (old(debug).show_physics
            != old(input).toggle_debug_physics),
        final(debug).physics_flags.shapes == (old(debug).physics_flags.shapes
            != old(input).toggle_debug_physics_shapes),
        final(debug).physics_flags.joints == (old(debug).physics_flags.joints
            != old(input).toggle_debug_physics_joints),
        final(debug).physics_flags.aabbs == (old(debug).physics_flags.aabbs
            != old(input).toggle_debug_physics_aabbs),
        final(debug).physics_flags.transforms == (old(debug).physics_flags.transforms
            != old(input).toggle_debug_physics_transforms),
        final(debug).physics_flags.contacts == (old(debug).physics_flags.contacts
            != old(input).toggle_debug_physics_contacts),
        !final(input).toggle_debug_physics,
        !final(input).toggle_debug_physics_shapes,
        !final(input).toggle_debug_physics_joints,
        !final(input).toggle_debug_physics_aabbs,
        !final(input).toggle_debug_physics_transforms,
        !final(input).toggle_debug_physics_contacts,
        final(debug).skipped_steps == old(debug).skipped_steps,
        final(debug).paused == old(debug).paused,
        final(input).left == old(input).left,
        final(input).right == old(input).right,
        final(input).up == old(input).up,
        final(input).down == old(input).down,
        final(input).turn == old(input).turn,
        final(input).extend == old(input).extend,
        final(input).contract == old(input).contract,
        final(input).fly == old(input).fly,
{
    if input.toggle_debug_physics {
        input.toggle_debug_physics = false;
        debug.show_physics = !debug.show_physics;
    }
    if input.toggle_debug_physics_shapes {
        input.toggle_debug_physics_shapes = false;
        debug.physics_flags.shapes = !debug.physics_flags.shapes;
    }
    if input.toggle_debug_physics_joints {
        input.toggle_debug_physics_joints = false;
        debug.physics_flags.joints = !debug.physics_flags.joints;
    }
    if input.toggle_debug_physics_aabbs {
        input.toggle_debug_physics_aabbs = false;
        debug.physics_flags.aabbs = !debug.physics_flags.aabbs;
    }
    if input.toggle_debug_physics_transforms {
        input.toggle_debug_physics_transforms = false;
        debug.physics_flags.transforms = !debug.physics_flags.transforms;
    }
    if input.toggle_debug_physics_contacts {
        input.toggle_debug_physics_contacts = false;
        debug.physics_flags.contacts = !debug.physics_flags.contacts;
    }
}

/// The heading derived from the held arrow keys: the angle of the vector
/// whose components are right minus left and up minus down, or nothing
/// when the keys cancel out on both axes.
pub open spec fn intent_direction(left: bool, right: bool, up: bool, down: bool)
    -> Option<i64>
{
    if left != right || up != down {
        let dx = (if right { 1int } else { 0 }) - (if left { 1int } else { 0 });
        let dy = (if up { 1int } else { 0 }) - (if down { 1int } else { 0 });
        Some(atan2_val(dy * FX_ONE, dx * FX_ONE) as i64)
    } else {
        None
    }
}

/// Derive this tick's control intent from the held keys.
pub fn update_cat(input: &Input, cat: &mut Cat)
    ensures
        final(cat).direction == intent_direction(input.left, input.right, input.up,
            input.down),
        final(cat).direction matches Some(d) ==> -PI_FX <= d <= PI_FX,
        final(cat).flying == input.fly,
        final(cat).turning == input.turn,
        final(cat).extending == input.extend,
        final(cat).contracting == input.contract,
        final(cat).path == old(cat).path,
        final(cat).tail == old(cat).tail,
        final(cat).grab_d == old(cat).grab_d,
        final(cat).walk_phase == old(cat).walk_phase,
{
    if (input.left != input.right) || (input.up != input.down) {
        let dx: i64 = (if input.right { FX_ONE } else { 0 }) - (if input.left {
            FX_ONE
        } else {
            0
        });
        let dy: i64 = (if input.up { FX_ONE } else { 0 }) - (if input.down {
            FX_ONE
        } else {
            0
        });
        let d = Vec2 { x: dx, y: dy };
        cat.direction = Some(d.to_angle());
    } else {
        cat.direction = None;
    }
    cat.flying = input.fly;
    cat.turning = input.turn;
    cat.extending = input.extend;
    cat.contracting = input.contract;
}

/// How many fixed sub-steps one frame runs: the elapsed time is capped at
/// the catch-up budget (dropping the excess), then divided by the step.
pub open spec fn substep_count(elapsed: int, step: int, budget: int) -> int {
    (if elapsed > budget * step {
        budget * step
    } else {
        elapsed
    }) / step
}

/// Budget the sub-steps of one frame. Returns the number of steps to run
/// and whether real time had to be dropped to stay within the budget.
pub fn plan_substeps(elapsed: u64, step: u64, budget: u64) -> (r: (u64, bool))
    requires
        0 < step <= 1_000_000_000,
        0 < budget <= 1_000_000,
    ensures
        r.0 == substep_count(elapsed as int, step as int, budget as int),
        r.1 == (elapsed > budget * step),
        r.0 <= budget,
{
    assert((budget as int) * (step as int) <= 1_000_000_000_000_000) by (nonlinear_arith)
        requires
            0 < step <= 1_000_000_000,
            0 < budget <= 1_000_000,
    ;
    let cap: u64 = budget * step;
    let skipped: bool = elapsed > cap;
    let clamped: u64 = if skipped {
        cap
    } else {
        elapsed
    };
    let steps: u64 = clamped / step;
    proof {
        lemma_div_is_ordered(clamped as int, (budget * step) as int, step as int);
        lemma_div_multiples_vanish(budget as int, step as int);
        assert((budget * step) as int == (step * budget) as int) by (nonlinear_arith);
    }
    (steps, skipped)
}

} // verus!
