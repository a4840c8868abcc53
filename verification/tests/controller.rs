use noodle_cat::cat::{NoodleCat, MuscleTarget};
use noodle_cat::command::Command;
use noodle_cat::math::{Vec2, vec2, HALF_PI_FX, PI_FX};
use noodle_cat::sensor::ContactSample;
use noodle_cat::state::Cat;

const DT: i64 = 2083;

fn straight_path(n: usize) -> Vec<Vec2> {
    (0..n).map(|i| vec2(i as i64 * 100_000, 0)).collect()
}

fn short_tail() -> Vec<Vec2> {
    vec![vec2(-400_000, 0), vec2(-500_000, 0)]
}

fn make_cat(n: usize) -> (NoodleCat, Cat) {
    let cat = Cat {
        direction: None,
        turning: false,
        extending: false,
        contracting: false,
        flying: false,
        path: straight_path(n),
        tail: short_tail(),
        grab_d: None,
        walk_phase: 0,
    };
    let (controller, _) = NoodleCat::new(&cat);
    (controller, cat)
}

fn ground_contact(separation: i64) -> ContactSample {
    ContactSample {
        touching: true,
        sensor_is_a: true,
        sensor_is_b: false,
        other: 99,
        other_dynamic: false,
        separation,
        normal: vec2(0, 1_000_000),
    }
}

fn angles(n: usize) -> Vec<i64> {
    vec![0; n]
}

#[test]
fn construction_matches_the_path() {
    let (c, cat) = make_cat(5);
    assert_eq!(c.links.len(), 5);
    assert_eq!(c.muscles.len(), 4);
    assert_eq!(c.targets.len(), 4);
    assert_eq!(c.tail_links.len(), 2);
    assert_eq!(c.head_sensor_body, *c.links.last().unwrap());
    assert!(c.grab.is_none());
    let (_, cmds) = NoodleCat::new(&cat);
    // Two commands per body, two per joint, one sensor fixture.
    assert_eq!(cmds.len(), 4 * 5 + 4 * 2 - 1);
}

#[test]
fn straight_chain_heading_ahead_keeps_offsets_in_the_limit() {
    let (mut c, mut cat) = make_cat(5);
    cat.direction = Some(0);
    let contacts: Vec<ContactSample> = Vec::new();
    let positions = straight_path(5);
    let cmds = c.control(&cat, &contacts, &positions, &angles(5), DT);
    // Every muscle holds a defined target, and the chain shape is intact.
    assert_eq!(c.targets.len(), c.muscles.len());
    assert_eq!(c.links.len(), c.muscles.len() + 1);
    // A straight chain steered straight ahead bends nowhere: all offsets
    // are zero, trivially within the mechanical limit and non-increasing.
    for t in c.targets.iter() {
        assert_eq!(t.offset, 0);
        assert!(t.offset.abs() <= 188_496);
    }
    // The two head-side muscles are driven at full strength; the third
    // sits in the tapering zone and gets three fifths of the extra torque.
    assert_eq!(c.targets[3].torque, 110_000_000);
    assert_eq!(c.targets[2].torque, 110_000_000);
    assert_eq!(c.targets[1].torque, 70_000_000);
    // The tail-most muscle is beyond the pass and relaxes.
    assert_eq!(c.targets[0].torque, 10_000_000);
    // Swimming advances the walk phase at the fixed rate.
    assert_eq!(c.walk_length, 8 * DT);
    // A swim force on the head comes before the motor commands.
    assert!(cmds.iter().any(|m| matches!(m, Command::ApplyForce { .. })));
}

#[test]
fn grab_creates_an_anchor_with_margin_and_walk_offset() {
    let (mut c, mut cat) = make_cat(5);
    cat.direction = Some(0);
    let contacts = vec![ground_contact(-500_000)];
    let positions = straight_path(5);
    let head = positions[4];
    c.control(&cat, &contacts, &positions, &angles(5), DT);
    assert!(c.grab.is_some());
    assert_eq!(c.grabbed, Some(99));
    assert_eq!(c.grab_d, Some(vec2(0, 1_000_000)));
    // Walking along the tangent at four units per second.
    assert_eq!(c.walk_length, 4 * DT);
    let (mut c, _) = make_cat(5);
    let cmds = {
        let mut cat2 = cat;
        cat2.direction = Some(0);
        c.control(&cat2, &contacts, &positions, &angles(5), DT)
    };
    let grab_cmd = cmds
        .iter()
        .find_map(|m| match m {
            Command::CreateGrabJoint { anchor_head, anchor_other, other, .. } => {
                Some((*anchor_head, *anchor_other, *other))
            },
            _ => None,
        })
        .unwrap();
    assert_eq!(grab_cmd.2, 99);
    assert_eq!(grab_cmd.0, head);
    // The other anchor keeps the 0.3 margin along the normal and walks
    // 4 * dt along the tangent.
    assert_eq!(grab_cmd.1, vec2(head.x + 4 * DT, head.y - 200_000));
}

#[test]
fn losing_the_contact_releases_the_grab() {
    let (mut c, mut cat) = make_cat(5);
    cat.direction = Some(0);
    let contacts = vec![ground_contact(-500_000)];
    let positions = straight_path(5);
    c.control(&cat, &contacts, &positions, &angles(5), DT);
    assert!(c.grab.is_some());
    let joint = c.grab.unwrap();
    let none: Vec<ContactSample> = Vec::new();
    let cmds = c.control(&cat, &none, &positions, &angles(5), DT);
    assert!(c.grab.is_none());
    assert!(cmds.iter().any(|m| matches!(m, Command::DestroyJoint { id } if *id == joint)));
}

#[test]
fn heading_into_the_ground_blocks_the_grab() {
    // Separation -0.5 against flat ground below, heading straight down:
    // the dot product is at most -0.8, so no grab happens.
    let (mut c, mut cat) = make_cat(5);
    cat.direction = Some(-HALF_PI_FX);
    let contacts = vec![ground_contact(-500_000)];
    let positions = straight_path(5);
    c.control(&cat, &contacts, &positions, &angles(5), DT);
    assert!(c.grab.is_none());
    assert!(c.grab_d.is_none());
}

#[test]
fn boundary_contact_does_not_oscillate() {
    // Separation exactly at the -0.3 threshold from the free state: ten
    // ticks with constant inputs never grab.
    let (mut c, mut cat) = make_cat(5);
    cat.direction = Some(HALF_PI_FX);
    let contacts = vec![ground_contact(-300_000)];
    let positions = straight_path(5);
    for _ in 0..10 {
        c.control(&cat, &contacts, &positions, &angles(5), DT);
        assert!(c.grab.is_none());
    }
    // From the grabbed state, the same boundary contact keeps the grab on
    // every one of ten ticks: no flicker either way.
    c.control(&cat, &vec![ground_contact(-500_000)], &positions, &angles(5), DT);
    assert!(c.grab.is_some());
    for _ in 0..10 {
        c.control(&cat, &contacts, &positions, &angles(5), DT);
        assert!(c.grab.is_some());
    }
}

#[test]
fn repeated_control_reaches_identical_targets() {
    // Two ticks with identical intent and senses and no physics step in
    // between produce identical joint targets.
    let (mut c, mut cat) = make_cat(7);
    cat.direction = Some(300_000);
    let contacts: Vec<ContactSample> = Vec::new();
    let positions = straight_path(7);
    c.control(&cat, &contacts, &positions, &angles(7), DT);
    let first = c.targets.clone();
    let first_grab = c.grab;
    c.control(&cat, &contacts, &positions, &angles(7), DT);
    assert_eq!(c.targets, first);
    assert_eq!(c.grab, first_grab);
}

#[test]
fn stretch_correction_slides_links_toward_the_head() {
    // Overstretched chain (0.3 between samples instead of 0.1) while
    // grabbed: the head-side pair is pulled in by the accumulated excess.
    let (mut c, mut cat) = make_cat(5);
    let stretched: Vec<Vec2> = (0..5).map(|i| vec2(i as i64 * 300_000, 0)).collect();
    cat.path = stretched.clone();
    cat.direction = Some(0);
    let contacts = vec![ground_contact(-500_000)];
    let cmds = c.control(&cat, &contacts, &stretched, &angles(5), DT);
    let slides: Vec<(u64, Vec2)> = cmds
        .iter()
        .filter_map(|m| match m {
            Command::SetPosition { body, position } => Some((*body, *position)),
            _ => None,
        })
        .collect();
    assert_eq!(slides.len(), 4);
    // First processed pair: excess 0.2, ratio 200000/300000 of the segment.
    assert_eq!(slides[0].0, c.links[3]);
    assert_eq!(slides[0].1, vec2(900_000 + 199_999, 0));
}

#[test]
fn growth_easing_interpolates_the_displayed_head() {
    let (mut c, mut cat) = make_cat(5);
    c.extend_phase = 500_000;
    let positions = straight_path(5);
    let tails = short_tail();
    c.update(&mut cat, &positions, &tails);
    // The head sample is shown halfway toward its predecessor.
    assert_eq!(cat.path[4], vec2(350_000, 0));
    assert_eq!(cat.path[3], vec2(300_000, 0));
    assert_eq!(cat.tail, tails);
}

#[test]
fn shrink_easing_interpolates_the_displayed_butt() {
    let (mut c, mut cat) = make_cat(5);
    c.contract_phase = 250_000;
    let positions = straight_path(5);
    c.update(&mut cat, &positions, &short_tail());
    // The butt sample is shown three quarters of the way to its successor.
    assert_eq!(cat.path[0], vec2(75_000, 0));
}

#[test]
fn walk_phase_accumulates_only_while_steering() {
    let (mut c, mut cat) = make_cat(5);
    c.walk_length = 16_664;
    cat.direction = Some(0);
    cat.walk_phase = 100;
    c.update(&mut cat, &straight_path(5), &short_tail());
    assert_eq!(cat.walk_phase, 16_764);
    cat.direction = None;
    c.update(&mut cat, &straight_path(5), &short_tail());
    assert_eq!(cat.walk_phase, 0);
}

#[test]
fn flying_sets_the_head_velocity_and_relaxes_the_chain() {
    let (mut c, mut cat) = make_cat(5);
    cat.direction = Some(0);
    cat.flying = true;
    let contacts: Vec<ContactSample> = Vec::new();
    let positions = straight_path(5);
    let cmds = c.control(&cat, &contacts, &positions, &angles(5), DT);
    assert!(cmds.iter().any(|m| matches!(m, Command::SetLinearVelocity { .. })));
    assert!(!cmds.iter().any(|m| matches!(m, Command::ApplyForce { .. })));
    assert_eq!(c.walk_length, 0);
    for t in c.targets.iter() {
        assert_eq!(t.offset, 0);
        assert_eq!(t.torque, 10_000_000);
    }
}

#[test]
fn motor_commands_mirror_the_targets() {
    let (mut c, mut cat) = make_cat(6);
    cat.direction = Some(400_000);
    let contacts: Vec<ContactSample> = Vec::new();
    let positions = straight_path(6);
    let cmds = c.control(&cat, &contacts, &positions, &angles(6), DT);
    let motors: Vec<(u64, i64, i64)> = cmds
        .iter()
        .filter_map(|m| match m {
            Command::SetMotor { id, offset, torque } => Some((*id, *offset, *torque)),
            _ => None,
        })
        .collect();
    // Every muscle gets one motor command, head to tail.
    assert_eq!(motors.len(), 5);
    for (id, offset, torque) in motors {
        let m = c.muscles.iter().position(|x| *x == id).unwrap();
        assert_eq!(offset, c.targets[m].offset);
        assert_eq!(torque, c.targets[m].torque);
    }
}

#[test]
fn turning_reverses_the_chain() {
    let (mut c, mut cat) = make_cat(5);
    cat.turning = true;
    let contacts: Vec<ContactSample> = Vec::new();
    let positions = straight_path(5);
    let cmds = c.control(&cat, &contacts, &positions, &angles(5), DT);
    let moves: Vec<(u64, Vec2, i64)> = cmds
        .iter()
        .filter_map(|m| match m {
            Command::SetTransform { body, position, angle } => {
                Some((*body, *position, *angle))
            },
            _ => None,
        })
        .collect();
    // Every link and every tail link is teleported.
    assert_eq!(moves.len(), 5 + 2);
    for (i, link) in c.links.iter().enumerate() {
        let (body, position, angle) = moves[i];
        assert_eq!(body, *link);
        assert_eq!(position, positions[4 - i]);
        assert_eq!(angle, PI_FX);
    }
    // The tail gathers at one point just ahead of the old head.
    assert_eq!(moves[5].1, moves[6].1);
    assert_eq!(moves[5].2, PI_FX);
    // Turning also suppresses any grab.
    assert!(c.grab.is_none());
}

#[test]
fn reversed_heading_saturates_and_tapers_the_offsets() {
    // Straight chain steered straight backward: every steering error hits
    // the mechanical clamp, so the applied offsets follow the attenuation
    // profile exactly — full limit near the head, tapering to zero by two
    // thirds of the chain, zero beyond.
    let (mut c, mut cat) = make_cat(12);
    cat.direction = Some(PI_FX);
    let contacts: Vec<ContactSample> = Vec::new();
    let positions = straight_path(12);
    c.control(&cat, &contacts, &positions, &angles(12), DT);
    // Head-to-tail positions 0..=3 lie in the first third: full strength.
    for m in [10usize, 9, 8, 7] {
        assert_eq!(c.targets[m].offset.abs(), 188_496);
    }
    // The magnitude never grows toward the tail.
    for m in 2..=10usize {
        assert!(c.targets[m - 1].offset.abs() <= c.targets[m].offset.abs());
    }
    // At two thirds of the chain and beyond, the offset is exactly zero.
    assert_eq!(c.targets[2].offset, 0);
    assert_eq!(c.targets[1].offset, 0);
}

#[test]
fn walk_phase_holds_at_the_top_of_its_range() {
    let (mut c, mut cat) = make_cat(5);
    c.walk_length = 16_664;
    cat.direction = Some(0);
    cat.walk_phase = i64::MAX - 100;
    c.update(&mut cat, &straight_path(5), &short_tail());
    // The advance would overflow, so the phase holds still instead.
    assert_eq!(cat.walk_phase, i64::MAX - 100);
}

#[test]
fn update_copies_the_tail_and_the_grab_normal() {
    let (mut c, mut cat) = make_cat(5);
    c.grab_d = Some(vec2(0, 1_000_000));
    let tails = vec![vec2(1, 2), vec2(3, 4)];
    c.update(&mut cat, &straight_path(5), &tails);
    assert_eq!(cat.tail, tails);
    assert_eq!(cat.grab_d, Some(vec2(0, 1_000_000)));
    assert_eq!(cat.path, straight_path(5));
}


#[test]
fn the_tail_most_muscle_relaxes_every_tick() {
    // Even with no heading, no contact and no grab, the relaxed pass runs
    // over the whole chain: a stale driven target on the tail-most muscle
    // is overwritten and its motor command is emitted.
    let (mut c, cat) = make_cat(5);
    c.targets[0] = MuscleTarget { offset: 188_496, torque: 110_000_000 };
    let contacts: Vec<ContactSample> = Vec::new();
    let positions = straight_path(5);
    let cmds = c.control(&cat, &contacts, &positions, &angles(5), DT);
    assert_eq!(c.targets[0], MuscleTarget { offset: 0, torque: 10_000_000 });
    let tail_motor = c.muscles[0];
    assert!(cmds.iter().any(|m| matches!(m,
        Command::SetMotor { id, offset: 0, torque: 10_000_000 } if *id == tail_motor)));
}

#[test]
fn a_single_link_chain_stands_and_grows() {
    let (mut c, mut cat) = make_cat(1);
    assert_eq!(c.links.len(), 1);
    assert_eq!(c.muscles.len(), 0);
    assert_eq!(c.head_sensor_body, c.links[0]);
    let contacts: Vec<ContactSample> = Vec::new();
    c.control(&cat, &contacts, &straight_path(1), &angles(1), DT);
    assert_eq!(c.links.len(), 1);
    assert!(c.targets.is_empty());
    cat.extending = true;
    c.control(&cat, &contacts, &straight_path(1), &angles(1), DT);
    assert_eq!(c.links.len(), 2);
    assert_eq!(c.muscles.len(), 1);
    assert_eq!(c.head_sensor_body, *c.links.last().unwrap());
}
