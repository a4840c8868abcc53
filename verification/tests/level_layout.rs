use noodle_cat::command::Command;
use noodle_cat::level::{parse_level, initial_path, initial_tail, ground_commands};
use noodle_cat::math::vec2;
use noodle_cat::state::Ground;

#[test]
fn boxes_and_start_are_located() {
    let text: Vec<u8> = b"X P\r\nXX".to_vec();
    let (boxes, start) = parse_level(&text);
    assert_eq!(boxes.len(), 3);
    assert_eq!(boxes[0], vec2(0, 0));
    assert_eq!(boxes[1], vec2(0, -1_000_000));
    assert_eq!(boxes[2], vec2(1_000_000, -1_000_000));
    assert_eq!(start, Some(vec2(2_000_000, 0)));
}

#[test]
fn missing_start_is_reported() {
    let text: Vec<u8> = b"XX\nXX".to_vec();
    let (boxes, start) = parse_level(&text);
    assert_eq!(boxes.len(), 4);
    assert!(start.is_none());
}

#[test]
fn first_start_tile_wins() {
    let text: Vec<u8> = b"P\nP".to_vec();
    let (_, start) = parse_level(&text);
    assert_eq!(start, Some(vec2(0, 0)));
}

#[test]
fn initial_shape_marches_from_the_start() {
    let p = vec2(10_000_000, -3_000_000);
    let path = initial_path(p, 80);
    assert_eq!(path.len(), 80);
    assert_eq!(path[0], vec2(12_000_000, -3_000_000));
    assert_eq!(path[1], vec2(12_100_000, -3_000_000));
    assert_eq!(path[79], vec2(19_900_000, -3_000_000));
    let tail = initial_tail(p, 20);
    assert_eq!(tail.len(), 20);
    assert_eq!(tail[0], vec2(11_600_000, -3_000_000));
    assert_eq!(tail[19], vec2(9_700_000, -3_000_000));
}


#[test]
fn dirty_terrain_is_rebuilt_once() {
    let mut ground = Ground {
        boxes: vec![vec2(0, 0), vec2(1_000_000, -1_000_000)],
        dirty_physics: true,
        dirty_render: true,
    };
    let cmds = ground_commands(&mut ground, Some(7), 8);
    assert!(!ground.dirty_physics);
    assert!(ground.dirty_render);
    assert_eq!(cmds.len(), 4);
    assert!(matches!(cmds[0], Command::DestroyBody { id: 7 }));
    assert!(matches!(cmds[1], Command::CreateStaticBody { id: 8 }));
    assert!(matches!(cmds[2], Command::CreateBoxFixture {
        body: 8,
        half_width: 500_000,
        half_height: 500_000,
        center,
        angle: 0,
        density: 1_000_000,
    } if center == vec2(0, 0)));
    assert!(matches!(cmds[3], Command::CreateBoxFixture { body: 8, center, .. }
        if center == vec2(1_000_000, -1_000_000)));
    // A clean list produces nothing, and the first build destroys nothing.
    assert!(ground_commands(&mut ground, Some(8), 9).is_empty());
    ground.dirty_physics = true;
    let fresh = ground_commands(&mut ground, None, 10);
    assert!(matches!(fresh[0], Command::CreateStaticBody { id: 10 }));
    assert_eq!(fresh.len(), 3);
}
