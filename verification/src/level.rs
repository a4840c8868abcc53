//! Level layout parsing and the creature's initial shape.
//!
//! A level is ASCII art: each byte is one tile column, a newline starts the
//! next row below, `X` marks a terrain box, `P` marks the creature's start,
//! and anything else is decoration. The parser walks the bytes once,
//! producing box centers in world units and the first start tile.

use vstd::prelude::*;
use crate::fixed::FX_ONE;
use crate::math::Vec2;
use crate::cat::points_of;
use crate::command::Command;
use crate::state::Ground;

verus! {

/// Half-extent of a terrain box (0.5 units each way: unit tiles).
pub const GROUND_BOX_HALF: i64 = 500_000;

/// Density of a terrain box fixture (1.0).
pub const GROUND_DENSITY: i64 = 1_000_000;

/// The byte for a blank tile.
pub const TILE_BLANK: u8 = 32;

/// The byte that ends a row.
pub const TILE_ROW_END: u8 = 10;

/// The byte ignored entirely (carriage return).
pub const TILE_IGNORED: u8 = 13;

/// The byte marking a terrain box.
pub const TILE_BOX: u8 = 88;

/// The byte marking the creature's start.
pub const TILE_START: u8 = 80;

/// The terrain box centers of the layout, scanning from tile `(x, y)`.
pub open spec fn level_boxes(s: Seq<u8>, x: int, y: int) -> Seq<(int, int)>
    decreases s.len(),
{
    if s.len() == 0 {
        Seq::empty()
    } else {
        let c = s[0];
        if c == TILE_BLANK {
            level_boxes(s.drop_first(), x + 1, y)
        } else if c == TILE_ROW_END {
            level_boxes(s.drop_first(), 0, y - 1)
        } else if c == TILE_IGNORED {
            level_boxes(s.drop_first(), x, y)
        } else if c == TILE_BOX {
            seq![(x * FX_ONE, y * FX_ONE)] + level_boxes(s.drop_first(), x + 1, y)
        } else {
            level_boxes(s.drop_first(), x + 1, y)
        }
    }
}

/// The first start tile of the layout, scanning from tile `(x, y)`.
pub open spec fn level_start(s: Seq<u8>, x: int, y: int) -> Option<(int, int)>
    decreases s.len(),
{
    if s.len() == 0 {
        Option::None
    } else {
        let c = s[0];
        if c == TILE_BLANK {
            level_start(s.drop_first(), x + 1, y)
        } else if c == TILE_ROW_END {
            level_start(s.drop_first(), 0, y - 1)
        } else if c == TILE_IGNORED {
            level_start(s.drop_first(), x, y)
        } else if c == TILE_START {
            Option::Some((x * FX_ONE, y * FX_ONE))
        } else {
            level_start(s.drop_first(), x + 1, y)
        }
    }
}

/// Parse a level layout into terrain box centers and the start position.
/// The thousand-byte cap keeps every tile coordinate within the coordinate
/// bound that the rest of the library accepts.
pub fn parse_level(text: &Vec<u8>) -> (r: (Vec<Vec2>, Option<Vec2>))
    requires
        text@.len() <= 1000,
    ensures
        points_of(r.0@) == level_boxes(text@, 0, 0),
        (r.1 matches Some(p) ==> level_start(text@, 0, 0) == Some(p@)),
        (r.1 is None ==> level_start(text@, 0, 0) is None),
{
    let mut boxes: Vec<Vec2> = Vec::new();
    let mut start: Option<Vec2> = None;
    let mut x: i64 = 0;
    let mut y: i64 = 0;
    let mut i: usize = 0;
    proof {
        assert(text@.skip(0) =~= text@);
        assert(points_of(boxes@) =~= Seq::<(int, int)>::empty());
        assert(Seq::<(int, int)>::empty() + level_boxes(text@, 0, 0)
            =~= level_boxes(text@, 0, 0));
    }
    while i < text.len()
        invariant
            0 <= i <= text@.len(),
            text@.len() <= 1000,
            0 <= x <= i,
            -(i as int) <= y <= 0,
            points_of(boxes@) + level_boxes(text@.skip(i as int), x as int, y as int)
                == level_boxes(text@, 0, 0),
            level_start(text@, 0, 0) == (if start is Some {
                Some::<(int, int)>(((start->0).x as int, (start->0).y as int))
            } else {
                level_start(text@.skip(i as int), x as int, y as int)
            }),
        decreases text@.len() - i,
    {
        let c: u8 = text[i];
        proof {
            assert(text@.skip(i as int)[0] == text@[i as int]);
            assert(text@.skip(i as int).drop_first() =~= text@.skip(i as int + 1));
        }
        if c == TILE_BLANK {
            x = x + 1;
        } else if c == TILE_ROW_END {
            x = 0;
            y = y - 1;
        } else if c == TILE_IGNORED {
        } else {
            if c == TILE_BOX {
                boxes.push(Vec2 { x: x * FX_ONE, y: y * FX_ONE });
                proof {
                    assert(points_of(boxes@) =~= points_of(boxes@.drop_last())
                        + seq![(x as int * FX_ONE, y as int * FX_ONE)]);
                }
            } else if c == TILE_START {
                if start.is_none() {
                    start = Some(Vec2 { x: x * FX_ONE, y: y * FX_ONE });
                }
            }
            x = x + 1;
        }
        i = i + 1;
    }
    proof {
        assert(text@.skip(text@.len() as int) =~= Seq::<u8>::empty());
        assert(points_of(boxes@) + Seq::<(int, int)>::empty() =~= points_of(boxes@));
    }
    (boxes, start)
}

/// One axis-aligned unit-box fixture per terrain box center, all on the
/// same static body.
pub open spec fn ground_box_cmds(pts: Seq<(int, int)>, body: u64) -> Seq<Command> {
    Seq::new(
        pts.len(),
        |i: int|
            Command::CreateBoxFixture {
                body,
                half_width: GROUND_BOX_HALF,
                half_height: GROUND_BOX_HALF,
                center: Vec2 { x: pts[i].0 as i64, y: pts[i].1 as i64 },
                angle: 0,
                density: GROUND_DENSITY,
            },
    )
}

/// A full terrain rebuild: drop the old ground body (fixtures die with
/// it), create a fresh static body, and lay one box fixture per center.
pub open spec fn ground_rebuild_cmds(pts: Seq<(int, int)>, previous: Option<u64>, body: u64)
    -> Seq<Command>
{
    (match previous {
        Option::Some(p) => seq![Command::DestroyBody { id: p }],
        Option::None => Seq::empty(),
    }) + seq![Command::CreateStaticBody { id: body }] + ground_box_cmds(pts, body)
}

/// Rebuild the static terrain from the box list when it is marked dirty,
/// and clear the mark; otherwise do nothing. `previous` names the ground
/// body of the last build, `body` the one to create now.
pub fn ground_commands(ground: &mut Ground, previous: Option<u64>, body: u64)
    -> (r: Vec<Command>)
    ensures
        !final(ground).dirty_physics,
        final(ground).boxes == old(ground).boxes,
        final(ground).dirty_render == old(ground).dirty_render,
        r@ == (if old(ground).dirty_physics {
            ground_rebuild_cmds(points_of(old(ground).boxes@), previous, body)
        } else {
            Seq::<Command>::empty()
        }),
{
    let mut r: Vec<Command> = Vec::new();
    if !ground.dirty_physics {
        return r;
    }
    if let Some(p) = previous {
        r.push(Command::DestroyBody { id: p });
    }
    r.push(Command::CreateStaticBody { id: body });
    let ghost head = r@;
    let ghost boxes = ground_box_cmds(points_of(ground.boxes@), body);
    let mut i: usize = 0;
    while i < ground.boxes.len()
        invariant
            0 <= i <= ground.boxes@.len(),
            ground == old(ground),
            boxes == ground_box_cmds(points_of(ground.boxes@), body),
            r@ == head + boxes.take(i as int),
        decreases ground.boxes@.len() - i,
    {
        let p: Vec2 = ground.boxes[i];
        r.push(Command::CreateBoxFixture {
            body,
            half_width: GROUND_BOX_HALF,
            half_height: GROUND_BOX_HALF,
            center: p,
            angle: 0,
            density: GROUND_DENSITY,
        });
        proof {
            assert(points_of(ground.boxes@)[i as int] == ground.boxes@[i as int]@);
            assert(r@ =~= head + boxes.take(i as int + 1));
        }
        i = i + 1;
    }
    ground.dirty_physics = false;
    proof {
        assert(boxes.take(boxes.len() as int) =~= boxes);
        assert(head + boxes =~= ground_rebuild_cmds(points_of(old(ground).boxes@), previous,
            body));
    }
    r
}

/// The creature's initial path: samples marching ahead of the start tile,
/// tail to head, a tenth of a unit apart and two units to the right.
pub open spec fn initial_path_val(p: (int, int), count: int) -> Seq<(int, int)> {
    Seq::new(count as nat, |i: int| (p.0 + i * 100_000 + 2_000_000, p.1))
}

/// The creature's initial tail: samples marching back from just left of
/// the path's butt end.
pub open spec fn initial_tail_val(p: (int, int), count: int) -> Seq<(int, int)> {
    Seq::new(count as nat, |i: int| (p.0 - i * 100_000 + 1_600_000, p.1))
}

/// Build the initial path samples from the start position.
pub fn initial_path(p: Vec2, count: usize) -> (r: Vec<Vec2>)
    requires
        count <= 1000,
        -800_000_000 <= p.x <= 800_000_000,
        -800_000_000 <= p.y <= 800_000_000,
    ensures
        points_of(r@) == initial_path_val(p@, count as int),
        r@.len() == count,
{
    let mut r: Vec<Vec2> = Vec::new();
    let mut i: usize = 0;
    while i < count
        invariant
            0 <= i <= count,
            count <= 1000,
            -800_000_000 <= p.x <= 800_000_000,
            -800_000_000 <= p.y <= 800_000_000,
            r@.len() == i,
            points_of(r@) == initial_path_val(p@, count as int).take(i as int),
        decreases count - i,
    {
        r.push(Vec2 { x: p.x + (i as i64) * 100_000 + 2_000_000, y: p.y });
        proof {
            assert(r@.len() == i + 1);
            assert(points_of(r@).len() == r@.len());
            assert(points_of(r@).len() == i + 1);
            assert forall|k: int| 0 <= k < i + 1 implies points_of(r@)[k]
                == initial_path_val(p@, count as int).take(i as int + 1)[k] by {
                assert(points_of(r@)[k] == r@[k]@);
                if k < i {
                    assert(points_of(r@.drop_last())[k] == r@.drop_last()[k]@);
                } else {
                    assert(r@[k] == (Vec2 {
                        x: (p.x + (i as i64) * 100_000 + 2_000_000) as i64,
                        y: p.y,
                    }));
                }
            }
            assert(points_of(r@) =~= initial_path_val(p@, count as int).take(i as int + 1));
        }
        i = i + 1;
    }
    proof {
        assert(initial_path_val(p@, count as int).take(count as int)
            =~= initial_path_val(p@, count as int));
    }
    r
}

/// Build the initial tail samples from the start position.
pub fn initial_tail(p: Vec2, count: usize) -> (r: Vec<Vec2>)
    requires
        count <= 1000,
        -800_000_000 <= p.x <= 800_000_000,
        -800_000_000 <= p.y <= 800_000_000,
    ensures
        points_of(r@) == initial_tail_val(p@, count as int),
        r@.len() == count,
{
    let mut r: Vec<Vec2> = Vec::new();
    let mut i: usize = 0;
    while i < count
        invariant
            0 <= i <= count,
            count <= 1000,
            -800_000_000 <= p.x <= 800_000_000,
            -800_000_000 <= p.y <= 800_000_000,
            r@.len() == i,
            points_of(r@) == initial_tail_val(p@, count as int).take(i as int),
        decreases count - i,
    {
        r.push(Vec2 { x: p.x - (i as i64) * 100_000 + 1_600_000, y: p.y });
        proof {
            assert(r@.len() == i + 1);
            assert(points_of(r@).len() == r@.len());
            assert(points_of(r@).len() == i + 1);
            assert forall|k: int| 0 <= k < i + 1 implies points_of(r@)[k]
                == initial_tail_val(p@, count as int).take(i as int + 1)[k] by {
                assert(points_of(r@)[k] == r@[k]@);
                if k < i {
                    assert(points_of(r@.drop_last())[k] == r@.drop_last()[k]@);
                } else {
                    assert(r@[k] == (Vec2 {
                        x: (p.x - (i as i64) * 100_000 + 1_600_000) as i64,
                        y: p.y,
                    }));
                }
            }
            assert(points_of(r@) =~= initial_tail_val(p@, count as int).take(i as int + 1));
        }
        i = i + 1;
    }
    proof {
        assert(initial_tail_val(p@, count as int).take(count as int)
            =~= initial_tail_val(p@, count as int));
    }
    r
}

} // verus!
