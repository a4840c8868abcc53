use noodle_cat::game::{Key, handle_event, update_debug, update_cat, plan_substeps};
use noodle_cat::state::{Input, DebugInfo, DebugPhysics, Cat};
use noodle_cat::math::{PI_FX, HALF_PI_FX};

fn fresh_cat() -> Cat {
    Cat {
        direction: None,
        turning: false,
        extending: false,
        contracting: false,
        flying: false,
        path: Vec::new(),
        tail: Vec::new(),
        grab_d: None,
        walk_phase: 0,
    }
}

#[test]
fn key_edges_update_the_input() {
    let mut input = Input::released();
    handle_event(&mut input, Key::Left, true);
    handle_event(&mut input, Key::Fly, true);
    assert!(input.left && input.fly);
    handle_event(&mut input, Key::Left, false);
    assert!(!input.left && input.fly);
    handle_event(&mut input, Key::Other, true);
    assert!(!input.left && input.fly);
}

#[test]
fn debug_toggles_flip_once_and_clear() {
    let mut input = Input::released();
    input.toggle_debug_physics = true;
    input.toggle_debug_physics_joints = true;
    let mut debug = DebugInfo {
        skipped_steps: false,
        paused: false,
        show_physics: false,
        physics_flags: DebugPhysics {
            shapes: true,
            joints: true,
            aabbs: true,
            transforms: true,
            contacts: true,
        },
    };
    update_debug(&mut input, &mut debug);
    assert!(debug.show_physics);
    assert!(!debug.physics_flags.joints);
    assert!(debug.physics_flags.shapes);
    assert!(!input.toggle_debug_physics);
    assert!(!input.toggle_debug_physics_joints);
    update_debug(&mut input, &mut debug);
    assert!(debug.show_physics);
    assert!(!debug.physics_flags.joints);
}

#[test]
fn held_arrows_become_a_heading() {
    let mut input = Input::released();
    let mut cat = fresh_cat();
    update_cat(&input, &mut cat);
    assert_eq!(cat.direction, None);

    input.right = true;
    update_cat(&input, &mut cat);
    assert_eq!(cat.direction, Some(0));

    input.up = true;
    update_cat(&input, &mut cat);
    assert_eq!(cat.direction, Some(785_398));

    input.right = false;
    update_cat(&input, &mut cat);
    assert_eq!(cat.direction, Some(HALF_PI_FX));

    input.left = true;
    input.up = false;
    update_cat(&input, &mut cat);
    assert_eq!(cat.direction, Some(PI_FX));

    input.left = false;
    update_cat(&input, &mut cat);
    assert_eq!(cat.direction, None);
}

#[test]
fn intent_flags_mirror_the_keys() {
    let mut input = Input::released();
    input.fly = true;
    input.turn = true;
    input.extend = true;
    input.contract = true;
    let mut cat = fresh_cat();
    update_cat(&input, &mut cat);
    assert!(cat.flying && cat.turning && cat.extending && cat.contracting);
}

#[test]
fn substeps_are_budgeted() {
    let step: u64 = 2083;
    let (steps, skipped) = plan_substeps(10 * step + 7, step, 48);
    assert_eq!(steps, 10);
    assert!(!skipped);
    let (steps, skipped) = plan_substeps(1_000_000_000, step, 48);
    assert_eq!(steps, 48);
    assert!(skipped);
    let (steps, skipped) = plan_substeps(0, step, 48);
    assert_eq!(steps, 0);
    assert!(!skipped);
}
