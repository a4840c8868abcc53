use noodle_cat::cat::NoodleCat;
use noodle_cat::command::Command;
use noodle_cat::math::{Vec2, vec2};
use noodle_cat::sensor::ContactSample;
use noodle_cat::state::Cat;

const DT: i64 = 2083;

fn straight_path(n: usize) -> Vec<Vec2> {
    (0..n).map(|i| vec2(i as i64 * 100_000, 0)).collect()
}

fn make_cat(n: usize) -> (NoodleCat, Cat) {
    let cat = Cat {
        direction: None,
        turning: false,
        extending: false,
        contracting: false,
        flying: false,
        path: straight_path(n),
        tail: vec![vec2(-400_000, 0), vec2(-500_000, 0)],
        grab_d: None,
        walk_phase: 0,
    };
    let (controller, _) = NoodleCat::new(&cat);
    (controller, cat)
}

fn tick(c: &mut NoodleCat, cat: &mut Cat) -> Vec<Command> {
    // Keep the displayed path and the sensed world in step with the chain,
    // as the embedding does between control ticks.
    let n = c.links.len();
    cat.path = straight_path(n);
    let positions = straight_path(n);
    let angles: Vec<i64> = vec![0; n];
    let contacts: Vec<ContactSample> = Vec::new();
    c.control(cat, &contacts, &positions, &angles, DT)
}

#[test]
fn five_crossings_add_exactly_five_links() {
    let (mut c, mut cat) = make_cat(5);
    cat.extending = true;
    let mut added: usize = 0;
    let mut ticks: usize = 0;
    while added < 5 {
        let before = c.links.len();
        tick(&mut c, &mut cat);
        ticks += 1;
        assert!(ticks < 1000);
        // The chain shape and the sensor placement hold on every tick.
        assert_eq!(c.links.len(), c.muscles.len() + 1);
        assert_eq!(c.targets.len(), c.muscles.len());
        assert_eq!(c.head_sensor_body, *c.links.last().unwrap());
        if c.links.len() > before {
            assert_eq!(c.links.len(), before + 1);
            added += 1;
        }
    }
    assert_eq!(c.links.len(), 10);
    // At the fixed step the counter crosses once every six ticks.
    assert_eq!(ticks, 25);
}

#[test]
fn extension_emits_the_new_link_and_moves_the_sensor() {
    let (mut c, mut cat) = make_cat(5);
    cat.extending = true;
    let old_sensor = c.head_sensor;
    let old_head = *c.links.last().unwrap();
    let cmds = tick(&mut c, &mut cat);
    assert_eq!(c.links.len(), 6);
    let new_head = *c.links.last().unwrap();
    assert!(cmds.iter().any(|m| matches!(m,
        Command::CreateBody { id, .. } if *id == new_head)));
    assert!(cmds.iter().any(|m| matches!(m,
        Command::DestroyFixture { body, fixture }
            if *body == old_head && *fixture == old_sensor)));
    assert!(cmds.iter().any(|m| matches!(m,
        Command::CreateCircleFixture { body, sensor: true, .. } if *body == new_head)));
    assert_eq!(c.head_sensor_body, new_head);
    assert_ne!(c.head_sensor, old_sensor);
}

#[test]
fn the_cap_stops_growth() {
    let (mut c, mut cat) = make_cat(200);
    cat.extending = true;
    for _ in 0..20 {
        tick(&mut c, &mut cat);
        assert_eq!(c.links.len(), 200);
    }
}

#[test]
fn contraction_halts_exactly_at_the_floor() {
    let (mut c, mut cat) = make_cat(40);
    cat.contracting = true;
    for _ in 0..200 {
        tick(&mut c, &mut cat);
        assert_eq!(c.links.len(), c.muscles.len() + 1);
        assert!(c.links.len() >= 30);
    }
    assert_eq!(c.links.len(), 30);
    // Holding the key at the floor destroys nothing further.
    for _ in 0..50 {
        let cmds = tick(&mut c, &mut cat);
        assert_eq!(c.links.len(), 30);
        assert!(!cmds.iter().any(|m| matches!(m, Command::DestroyBody { .. })));
    }
}

#[test]
fn contraction_reroots_the_tail() {
    let (mut c, mut cat) = make_cat(40);
    cat.contracting = true;
    let butt = c.links[0];
    let second = c.links[1];
    let tail_root = c.tail_links[0];
    let mut destroyed = false;
    for _ in 0..10 {
        let cmds = tick(&mut c, &mut cat);
        if cmds.iter().any(|m| matches!(m, Command::DestroyBody { id } if *id == butt)) {
            destroyed = true;
            assert_eq!(c.links[0], second);
            assert!(cmds.iter().any(|m| matches!(m,
                Command::CreateMotorJoint { body_a, body_b, .. }
                    if *body_a == second && *body_b == tail_root)));
            break;
        }
    }
    assert!(destroyed);
}

#[test]
fn a_short_chain_never_contracts() {
    let (mut c, mut cat) = make_cat(30);
    cat.contracting = true;
    for _ in 0..50 {
        let cmds = tick(&mut c, &mut cat);
        assert_eq!(c.links.len(), 30);
        assert!(!cmds.iter().any(|m| matches!(m, Command::DestroyBody { .. })));
    }
}
