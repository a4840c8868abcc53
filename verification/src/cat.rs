//! The creature's locomotion controller.
//!
//! The controller owns the logical chain — link, muscle and tail ids, the
//! grab state machine, and the growth counters — and never touches the
//! rigid-body engine directly. Each tick it consumes the sensed world
//! (positions, angles, head contacts) as plain values and emits engine
//! commands; the resulting state is pinned down exactly by spec functions,
//! so the grab hysteresis, the tapered bending pass and the growth gating
//! are all machine-checked.

use vstd::prelude::*;
use vstd::arithmetic::div_mod::{
    lemma_fundamental_div_mod,
    lemma_mod_bound,
    lemma_div_pos_is_pos,
    lemma_div_is_ordered,
    lemma_div_multiples_vanish,
};
use crate::fixed::{
    FX_ONE, abs_val, fx_mul_val, fx_div_val, clamp_val,
    fx_mul, fx_div, fx_abs, fx_clamp,
    lemma_fx_mul_le, lemma_fx_mul_nonneg, lemma_fx_div_unit, lemma_abs_sq,
};
use crate::math::{
    Vec2, vec2, PI_FX, wrap_val, wrap_angle, from_angle_val, to_angle_val,
    add_val, sub_val, scale_val, dot_val, len_val, normalized_val, rotated_val, unrotated_val,
    COORD_LIMIT,
};
use crate::sensor::{ContactSample, AnchorCandidate, select_val, select_anchor, sample_bounded};
use crate::state::Cat;
use crate::command::Command;

verus! {

/// Separation below which the head may grab (−0.3 units).
pub const GRAB_SEPARATION: i64 = -300_000;

/// Margin kept between the head and the grabbed surface (0.3 units).
pub const GRAB_MARGIN: i64 = 300_000;

/// Heading–normal dot product at or below which a grab releases (−0.8).
pub const GRAB_DOT_CUTOFF: i64 = -800_000;

/// Tangential projection above which walking advances (0.2).
pub const WALK_PROJECTION_MIN: i64 = 200_000;

/// Walk-phase advance rate while grabbed (4.0 per second).
pub const WALK_GRAB_RATE: i64 = 4_000_000;

/// Walk-phase advance rate while swimming (8.0 per second).
pub const WALK_SWIM_RATE: i64 = 8_000_000;

/// Mechanical swing limit of a chain joint (0.06 of a half turn).
pub const JOINT_LIMIT: i64 = 188_496;

/// Swing limit of the tail root joint (a quarter of a half turn).
pub const TAIL_ROOT_LIMIT: i64 = 785_398;

/// Swing limit of a tail joint (0.1 of a half turn).
pub const TAIL_JOINT_LIMIT: i64 = 314_159;

/// Torque of a relaxed muscle (10.0).
pub const BASE_TORQUE: i64 = 10_000_000;

/// Additional torque granted to fully driven muscles (100.0).
pub const EXTRA_TORQUE: i64 = 100_000_000;

/// Torque of the tail root motor (5.0).
pub const TAIL_ROOT_TORQUE: i64 = 5_000_000;

/// Torque of a tail motor (0.5).
pub const TAIL_TORQUE: i64 = 500_000;

/// Collision radius of a chain link (0.5 units).
pub const LINK_RADIUS: i64 = 500_000;

/// Collision radius of a tail link (0.2 units).
pub const TAIL_RADIUS: i64 = 200_000;

/// Radius of the head contact sensor (1.0 unit).
pub const SENSOR_RADIUS: i64 = 1_000_000;

/// Nominal distance between consecutive path samples (0.1 units).
pub const SEGMENT_LENGTH: i64 = 100_000;

/// Growth counter rate (80.0 per second).
pub const GROWTH_RATE: i64 = 80_000_000;

/// Both growth counters saturate at two full crossings.
pub const PHASE_MAX: i64 = 2_000_000;

/// The chain refuses to grow beyond this many links.
pub const LENGTH_CAP: usize = 200;

/// The chain refuses to shrink below this many links.
pub const LENGTH_FLOOR: usize = 30;

/// Head speed while flying (5.0 units per second).
pub const FLY_SPEED: i64 = 5_000_000;

/// Motor correction factor of chain muscles (1.0).
pub const CORRECTION_FULL: i64 = 1_000_000;

/// Motor correction factor of tail motors (0.5).
pub const CORRECTION_SOFT: i64 = 500_000;

/// Gravity scale of tail links (0.1).
pub const TAIL_GRAVITY: i64 = 100_000;

/// Gravity scale of chain links (1.0).
pub const FULL_GRAVITY: i64 = 1_000_000;

/// Linear damping of every body the controller creates (2.0).
pub const LINEAR_DAMPING: i64 = 2_000_000;

/// Angular damping of every body the controller creates (1.0).
pub const ANGULAR_DAMPING: i64 = 1_000_000;

/// Density of a solid link fixture (1.0); sensor fixtures carry none.
pub const FIXTURE_DENSITY: i64 = 1_000_000;

/// Friction of every creature fixture (zero: the creature slides).
pub const FIXTURE_FRICTION: i64 = 0;

/// Restitution of every creature fixture (zero: no bounce).
pub const FIXTURE_RESTITUTION: i64 = 0;

/// The negative collision group shared by all creature fixtures, which
/// keeps the creature from colliding with itself.
pub const COLLISION_GROUP: i64 = -1;

/// Linear force cap of every motor joint (zero: motors steer angle only).
pub const MOTOR_MAX_FORCE: i64 = 0;

/// Local anchor of the reconnected tail root on the new butt (0.4 units).
pub const TAIL_ROOT_ANCHOR: i64 = 400_000;

/// Distance ahead of the butt at which the tail is placed when turning.
pub const TAIL_TURN_OFFSET: i64 = 300_000;

/// Segments shorter than this are treated as degenerate (0.0001 units).
pub const EPS_LEN: i64 = 100;

/// Squared raw-coordinate form of the degenerate-segment guard.
pub const EPS_LEN_SQ_RAW: i64 = 10_000;

/// The virtual head point of the bending pass is clamped to this box.
pub const HEAD_CLAMP: i64 = 10_000_000_000;

/// Required bound on world positions handed to the controller (1000 units).
pub const POS_LIMIT: i64 = 1_000_000_000;

/// Required bound on world angles handed to the controller.
pub const BODY_ANGLE_LIMIT: i64 = 1_000_000_000_000_000;

/// Largest chain or tail the controller accepts, a machine limit only.
pub const CHAIN_MAX: usize = 10_000;

/// A muscle's motor setting: angular offset target and torque cap.
#[derive(Clone, Copy, Debug, PartialEq, Eq, Structural)]
pub struct MuscleTarget {
    pub offset: i64,
    pub torque: i64,
}

/// The target of a muscle nobody is steering.
pub open spec fn relaxed_target() -> MuscleTarget {
    MuscleTarget { offset: 0, torque: BASE_TORQUE }
}

/// The coordinate views of a position list.
pub open spec fn points_of(s: Seq<Vec2>) -> Seq<(int, int)> {
    s.map_values(|v: Vec2| v@)
}

/// Every coordinate within `[-bound, bound]`.
pub open spec fn points_bounded(s: Seq<Vec2>, bound: int) -> bool {
    forall|i: int| 0 <= i < s.len() ==> -bound <= (#[trigger] s[i]).x <= bound
        && -bound <= s[i].y <= bound
}

/// Every angle within `[-bound, bound]`.
pub open spec fn angles_bounded(s: Seq<i64>, bound: int) -> bool {
    forall|i: int| 0 <= i < s.len() ==> -bound <= #[trigger] s[i] <= bound
}

/// The locomotion controller.
///
/// `links` and `muscles` are engine ids ordered tail to head; muscle `i`
/// joins links `i` and `i + 1`. `targets` mirrors the motor settings last
/// written to each muscle.
pub struct NoodleCat {
    pub links: Vec<u64>,
    pub muscles: Vec<u64>,
    pub targets: Vec<MuscleTarget>,
    pub tail_links: Vec<u64>,
    pub head_sensor: u64,
    pub head_sensor_body: u64,
    pub grab: Option<u64>,
    pub grabbed: Option<u64>,
    pub grab_d: Option<Vec2>,
    pub walk_length: i64,
    pub extend_phase: i64,
    pub contracting: bool,
    pub contract_phase: i64,
    pub next_id: u64,
}

impl NoodleCat {
    /// Structural well-formedness: the chain shape, the sensor placement and
    /// the growth counters are always in their lanes.
    pub open spec fn wf(self) -> bool {
        &&& 1 <= self.links@.len() <= CHAIN_MAX
        &&& self.muscles@.len() + 1 == self.links@.len()
        &&& self.targets@.len() == self.muscles@.len()
        &&& 1 <= self.tail_links@.len() <= CHAIN_MAX
        &&& self.head_sensor_body == self.links@.last()
        &&& self.grab is Some ==> self.grabbed is Some
        &&& self.contracting ==> self.links@.len() > LENGTH_FLOOR
        &&& 0 <= self.walk_length <= WALK_SWIM_RATE
        &&& 0 <= self.extend_phase <= PHASE_MAX
        &&& -PHASE_MAX <= self.contract_phase <= FX_ONE
        &&& self.links@.len() == 1 ==> self.extend_phase == FX_ONE
        &&& !self.contracting ==> self.contract_phase <= 0
    }
}

/// Body-and-fixture creation commands for a run of round links, two ids per
/// link starting at `base`.
pub open spec fn body_cmds(pts: Seq<(int, int)>, i: int, base: int, radius: int, gravity: int)
    -> Seq<Command>
    decreases pts.len() - i,
{
    if i < 0 || i >= pts.len() {
        Seq::empty()
    } else {
        seq![
            Command::CreateBody {
                id: (base + 2 * i) as u64,
                position: Vec2 { x: pts[i].0 as i64, y: pts[i].1 as i64 },
                angle: 0,
                gravity_scale: gravity as i64,
                linear_damping: LINEAR_DAMPING,
                angular_damping: ANGULAR_DAMPING,
            },
            Command::CreateCircleFixture {
                id: (base + 2 * i + 1) as u64,
                body: (base + 2 * i) as u64,
                radius: radius as i64,
                density: FIXTURE_DENSITY,
                friction: FIXTURE_FRICTION,
                restitution: FIXTURE_RESTITUTION,
                group: COLLISION_GROUP,
                sensor: false,
            },
        ] + body_cmds(pts, i + 1, base, radius, gravity)
    }
}

/// Limit-and-motor joint commands for consecutive pairs of a run of bodies.
/// Bodies sit two ids apart starting at `body_base`; motors take one id each
/// starting at `motor_base`.
pub open spec fn joint_cmds(
    pts: Seq<(int, int)>,
    j: int,
    body_base: int,
    motor_base: int,
    swing: int,
    torque: int,
    correction: int,
) -> Seq<Command>
    decreases pts.len() - j,
{
    if j < 0 || j + 1 >= pts.len() {
        Seq::empty()
    } else {
        seq![
            Command::CreateLimitJoint {
                body_a: (body_base + 2 * j) as u64,
                body_b: (body_base + 2 * j + 2) as u64,
                anchor_b: Vec2 {
                    x: (pts[j].0 - pts[j + 1].0) as i64,
                    y: (pts[j].1 - pts[j + 1].1) as i64,
                },
                lower: (-swing) as i64,
                upper: swing as i64,
            },
            Command::CreateMotorJoint {
                id: (motor_base + j) as u64,
                body_a: (body_base + 2 * j) as u64,
                body_b: (body_base + 2 * j + 2) as u64,
                max_force: MOTOR_MAX_FORCE,
                max_torque: torque as i64,
                correction: correction as i64,
            },
        ] + joint_cmds(pts, j + 1, body_base, motor_base, swing, torque, correction)
    }
}

/// The two commands that hang the tail root on a butt link.
pub open spec fn tail_root_cmds(butt: int, tail_root: int, anchor: (int, int), motor_id: int)
    -> Seq<Command>
{
    seq![
        Command::CreateLimitJoint {
            body_a: butt as u64,
            body_b: tail_root as u64,
            anchor_b: Vec2 { x: anchor.0 as i64, y: anchor.1 as i64 },
            lower: (-(TAIL_ROOT_LIMIT as int)) as i64,
            upper: TAIL_ROOT_LIMIT,
        },
        Command::CreateMotorJoint {
            id: motor_id as u64,
            body_a: butt as u64,
            body_b: tail_root as u64,
            max_force: MOTOR_MAX_FORCE,
            max_torque: TAIL_ROOT_TORQUE,
            correction: CORRECTION_SOFT,
        },
    ]
}

/// The full construction command list for an initial path and tail.
pub open spec fn construction_cmds(pts: Seq<(int, int)>, tail: Seq<(int, int)>) -> Seq<Command> {
    let n = pts.len() as int;
    let t = tail.len() as int;
    body_cmds(pts, 0, 0, LINK_RADIUS as int, FX_ONE as int)
        + joint_cmds(pts, 0, 0, 2 * n, JOINT_LIMIT as int, BASE_TORQUE as int,
            CORRECTION_FULL as int)
        + body_cmds(tail, 0, 3 * n - 1, TAIL_RADIUS as int, TAIL_GRAVITY as int)
        + tail_root_cmds(0, 3 * n - 1, sub_val(pts[0], tail[0]), 3 * n - 1 + 2 * t)
        + joint_cmds(tail, 0, 3 * n - 1, 3 * n + 2 * t, TAIL_JOINT_LIMIT as int,
            TAIL_TORQUE as int, CORRECTION_SOFT as int)
        + seq![
            Command::CreateCircleFixture {
                id: (3 * n + 3 * t - 1) as u64,
                body: (2 * n - 2) as u64,
                radius: SENSOR_RADIUS,
                density: 0,
                friction: FIXTURE_FRICTION,
                restitution: FIXTURE_RESTITUTION,
                group: COLLISION_GROUP,
                sensor: true,
            },
        ]
}

/// One saturating step of the id counter; ids never wrap.
pub open spec fn bump(n: u64) -> u64 {
    if n < u64::MAX {
        (n + 1) as u64
    } else {
        n
    }
}

/// Attenuation of the bending pass at joint `n` of a chain of `len` links,
/// counted from the head: full strength over the first third, linear decay
/// to zero at two thirds, zero beyond.
pub open spec fn ik_factor(n: int, len: int) -> int {
    if len < 2 || n < 0 {
        0
    } else if n <= len / 3 {
        FX_ONE as int
    } else if n > 2 * len / 3 {
        0
    } else {
        ((2 * len / 3 - n) * 3_000_000) / len
    }
}

/// The attenuation factor is a fraction of one unit.
pub proof fn lemma_ik_factor_range(n: int, len: int)
    requires
        2 <= len,
    ensures
        0 <= ik_factor(n, len) <= FX_ONE as int,
{
    if 0 <= n && n > len / 3 && n <= 2 * len / 3 {
        let c = 2 * len / 3;
        lemma_fundamental_div_mod(2 * len, 3);
        lemma_mod_bound(2 * len, 3);
        lemma_fundamental_div_mod(len, 3);
        lemma_mod_bound(len, 3);
        assert(3 * (c - n) <= len - 1);
        lemma_div_pos_is_pos((c - n) * 3_000_000, len);
        assert((c - n) * 3_000_000 <= (len - 1) * 1_000_000) by (nonlinear_arith)
            requires
                3 * (c - n) <= len - 1,
        ;
        lemma_div_is_ordered((c - n) * 3_000_000, (len - 1) * 1_000_000, len);
        lemma_div_is_ordered((len - 1) * 1_000_000, len * 1_000_000, len);
        lemma_div_multiples_vanish(1_000_000, len);
        assert(len * 1_000_000 == 1_000_000 * len) by (nonlinear_arith);
    }
}

/// The attenuation factor never grows toward the tail.
pub proof fn lemma_ik_factor_mono(n1: int, n2: int, len: int)
    requires
        2 <= len,
        0 <= n1 <= n2,
    ensures
        ik_factor(n2, len) <= ik_factor(n1, len),
{
    lemma_ik_factor_range(n1, len);
    lemma_ik_factor_range(n2, len);
    let c = 2 * len / 3;
    if n1 > len / 3 && n1 <= c && n2 <= c {
        assert((c - n2) * 3_000_000 <= (c - n1) * 3_000_000) by (nonlinear_arith)
            requires
                n1 <= n2,
        ;
        lemma_div_pos_is_pos((c - n2) * 3_000_000, len);
        lemma_div_is_ordered((c - n2) * 3_000_000, (c - n1) * 3_000_000, len);
    }
}

/// The bend angle at link `m`: the angle between the segments on either
/// side, or zero when either segment is degenerate.
pub open spec fn bend_val(pts: Seq<(int, int)>, m: int) -> int {
    if m < 1 || m + 1 >= pts.len() {
        0
    } else {
        let d = sub_val(pts[m], pts[m - 1]);
        let d2 = sub_val(pts[m + 1], pts[m]);
        if len_val(d) >= EPS_LEN && len_val(d2) >= EPS_LEN {
            to_angle_val(unrotated_val(d2, normalized_val(d)))
        } else {
            0
        }
    }
}

/// One step of the bending pass at head-side position `n`: the motor target
/// for the muscle, and the propagated virtual head point.
pub open spec fn ik_step(pts: Seq<(int, int)>, dir: int, n: int, hp: (int, int))
    -> (MuscleTarget, (int, int))
{
    let len = pts.len() as int;
    let m = len - 2 - n;
    let p = pts[m];
    let lp = sub_val(hp, p);
    if lp.0 * lp.0 + lp.1 * lp.1 < EPS_LEN_SQ_RAW {
        (relaxed_target(), hp)
    } else {
        let bend = bend_val(pts, m);
        let raw = wrap_val(bend + dir - to_angle_val(lp));
        let off = clamp_val(raw, -(JOINT_LIMIT as int), JOINT_LIMIT as int);
        let f = ik_factor(n, len);
        let tgt = MuscleTarget {
            offset: fx_mul_val(off, f) as i64,
            torque: (BASE_TORQUE + fx_mul_val(EXTRA_TORQUE as int, f)) as i64,
        };
        let moved = add_val(rotated_val(lp, from_angle_val(off - bend)), p);
        (
            tgt,
            (
                clamp_val(moved.0, -(HEAD_CLAMP as int), HEAD_CLAMP as int),
                clamp_val(moved.1, -(HEAD_CLAMP as int), HEAD_CLAMP as int),
            ),
        )
    }
}

/// The driven motor targets of the bending pass, from head-side position `n`
/// onward: the pass covers the muscles head to tail and stops once two
/// thirds of the chain is reached.
pub open spec fn ik_from(pts: Seq<(int, int)>, dir: int, n: int, hp: (int, int))
    -> Seq<MuscleTarget>
    decreases pts.len() - n,
{
    let len = pts.len() as int;
    if n < 0 || n >= len - 2 {
        Seq::empty()
    } else {
        let s = ik_step(pts, dir, n, hp);
        if n >= 2 * len / 3 {
            seq![s.0]
        } else {
            seq![s.0] + ik_from(pts, dir, n + 1, s.1)
        }
    }
}

/// The motor targets after one control tick, one per muscle: the bending
/// pass drives the head-side muscles only when free, steering and not
/// flying, and the relaxed pass always covers the rest, so every muscle is
/// written every tick — the tail-most one lies beyond the pass and is
/// always relaxed.
pub open spec fn tick_targets(
    count: nat,
    pts: Seq<(int, int)>,
    dir: Option<i64>,
    grabbed: bool,
    flying: bool,
) -> Seq<MuscleTarget> {
    let len = pts.len() as int;
    let directed: Seq<MuscleTarget> = if !grabbed && !flying && dir is Some {
        ik_from(pts, dir->0 as int, 0, pts.last())
    } else {
        Seq::empty()
    };
    Seq::new(
        count,
        |m: int|
            {
                let n = len - 2 - m;
                if 0 <= n < directed.len() {
                    directed[n]
                } else {
                    relaxed_target()
                }
            },
    )
}

/// Whether the head grabs this tick. Hysteresis: a deep enough contact (or
/// any finite contact while already grabbed), a heading not pointing away
/// from the surface, and neither turning nor extending.
pub open spec fn grab_decision(
    prev_grab: bool,
    sensed: Option<(int, (int, int), u64)>,
    dir: Option<i64>,
    turning: bool,
    extending: bool,
) -> bool {
    if turning || extending {
        false
    } else {
        match sensed {
            Option::None => false,
            Option::Some(s) => {
                let reachable = s.0 < GRAB_SEPARATION || prev_grab;
                if !reachable {
                    false
                } else {
                    match dir {
                        Option::Some(d) => dot_val(from_angle_val(d as int), s.1)
                            > GRAB_DOT_CUTOFF,
                        Option::None => prev_grab,
                    }
                }
            },
        }
    }
}

/// The body grabbed this tick: the sensed candidate while steering, else
/// whatever was grabbed before.
pub open spec fn grab_other(
    prev_grabbed: Option<u64>,
    sensed: Option<(int, (int, int), u64)>,
    dir: Option<i64>,
) -> u64 {
    if dir is Some {
        (sensed->0).2
    } else {
        prev_grabbed->0
    }
}

/// Walk-phase advance granted by a grab: full rate when the heading's
/// tangential projection is large enough, else none.
pub open spec fn grab_walk(
    sensed: Option<(int, (int, int), u64)>,
    dir: Option<i64>,
    dt: int,
) -> int {
    match (sensed, dir) {
        (Option::Some(s), Option::Some(d)) => {
            let t = rotated_val(s.1, (0int, FX_ONE as int));
            let proj = dot_val(t, from_angle_val(d as int));
            if abs_val(proj) > WALK_PROJECTION_MIN {
                fx_mul_val(WALK_GRAB_RATE as int, dt)
            } else {
                0
            }
        },
        _ => 0,
    }
}

/// Anchor point on the grabbed body: the head position pushed out along the
/// normal to keep the grab margin, plus a tangential walking offset when
/// the heading projects onto the surface.
pub open spec fn grab_anchor(
    head: (int, int),
    sensed: Option<(int, (int, int), u64)>,
    dir: Option<i64>,
    dt: int,
) -> (int, int) {
    match (sensed, dir) {
        (Option::Some(s), Option::Some(d)) => {
            let oa = add_val(head, scale_val(s.1, s.0 + GRAB_MARGIN));
            let t = rotated_val(s.1, (0int, FX_ONE as int));
            let proj = dot_val(t, from_angle_val(d as int));
            if abs_val(proj) > WALK_PROJECTION_MIN {
                let wl = fx_mul_val(WALK_GRAB_RATE as int, dt);
                add_val(oa, scale_val(t, if proj >= 0 { wl } else { -wl }))
            } else {
                oa
            }
        },
        _ => head,
    }
}

/// One tick of the growth state machine, over the only state it reads:
/// the chain length, the two phase counters and the armed-contraction
/// flag, as `(length, extend_phase, contract_phase, contracting)`.
/// `control` pins its growth effects to exactly this function.
pub open spec fn growth_next(
    s: (int, int, int, bool),
    extending: bool,
    want_contract: bool,
    dt: int,
) -> (int, int, int, bool) {
    let ep_up = phase_up(s.1, dt);
    let ext = extending && s.0 < LENGTH_CAP && ep_up > FX_ONE;
    let len1 = if ext { s.0 + 1 } else { s.0 };
    let ep2 = if extending && s.0 < LENGTH_CAP {
        if ext { ep_up - FX_ONE } else { ep_up }
    } else if ep_up > FX_ONE {
        FX_ONE as int
    } else {
        ep_up
    };
    let cp_dn = phase_down(s.2, dt);
    let fire = s.3 && cp_dn <= 0;
    let len2 = if fire { len1 - 1 } else { len1 };
    let contracting2 = if fire {
        false
    } else if want_contract && len1 > LENGTH_FLOOR && cp_dn < 0 {
        true
    } else {
        s.3
    };
    let cp2 = if fire {
        cp_dn
    } else if want_contract && len1 > LENGTH_FLOOR {
        if cp_dn < 0 { cp_dn + FX_ONE } else { cp_dn }
    } else if cp_dn < 0 {
        0
    } else {
        cp_dn
    };
    (len2, ep2, cp2, contracting2)
}

/// The growth state after `k` ticks under constant intent.
pub open spec fn growth_iter(
    s: (int, int, int, bool),
    extending: bool,
    want_contract: bool,
    dt: int,
    k: nat,
) -> (int, int, int, bool)
    decreases k,
{
    if k == 0 {
        s
    } else {
        growth_next(growth_iter(s, extending, want_contract, dt, (k - 1) as nat), extending,
            want_contract, dt)
    }
}

/// The length floor holds over any number of ticks: a chain at or above
/// the floor never drops below it, because a contraction only arms above
/// the floor and removes a single link when it fires.
pub proof fn lemma_contraction_floor(
    s: (int, int, int, bool),
    extending: bool,
    want_contract: bool,
    dt: int,
    k: nat,
)
    requires
        LENGTH_FLOOR <= s.0,
        s.3 ==> s.0 > LENGTH_FLOOR,
    ensures
        LENGTH_FLOOR <= growth_iter(s, extending, want_contract, dt, k).0,
        growth_iter(s, extending, want_contract, dt, k).3
            ==> growth_iter(s, extending, want_contract, dt, k).0 > LENGTH_FLOOR,
    decreases k,
{
    if k > 0 {
        lemma_contraction_floor(s, extending, want_contract, dt, (k - 1) as nat);
    }
}

/// How many times the extension counter crosses one whole unit over `k`
/// ticks, starting from phase `ep`, while the extension gate stays open.
pub open spec fn extension_crossings(ep: int, dt: int, k: nat) -> int
    decreases k,
{
    if k == 0 {
        0
    } else {
        let up = phase_up(ep, dt);
        if up > FX_ONE {
            1 + extension_crossings(up - FX_ONE, dt, (k - 1) as nat)
        } else {
            extension_crossings(up, dt, (k - 1) as nat)
        }
    }
}

/// Growth conservation: with extension held, no contraction pending and
/// room below the cap, `k` ticks grow the chain by exactly the number of
/// counter crossings — one link per crossing, never more, never fewer.
pub proof fn lemma_extension_conserved(s: (int, int, int, bool), dt: int, k: nat)
    requires
        s.0 + k <= LENGTH_CAP,
        1 <= s.0,
        !s.3,
        s.2 <= 0,
        0 <= dt,
    ensures
        growth_iter(s, true, false, dt, k).0 == s.0 + extension_crossings(s.1, dt, k),
        0 <= extension_crossings(s.1, dt, k) <= k,
    decreases k,
{
    if k > 0 {
        lemma_fx_mul_nonneg(GROWTH_RATE as int, dt);
        let n = growth_next(s, true, false, dt);
        assert(n.2 <= 0 && !n.3 && 1 <= n.0);
        lemma_extension_conserved(n, dt, (k - 1) as nat);
        assert(growth_iter(s, true, false, dt, k)
            == growth_iter(n, true, false, dt, (k - 1) as nat)) by {
            lemma_growth_iter_shift(s, true, false, dt, k);
        }
    }
}

/// Iterating `k` ticks is one tick followed by `k - 1` ticks.
proof fn lemma_growth_iter_shift(
    s: (int, int, int, bool),
    extending: bool,
    want_contract: bool,
    dt: int,
    k: nat,
)
    requires
        1 <= k,
    ensures
        growth_iter(s, extending, want_contract, dt, k) == growth_iter(
            growth_next(s, extending, want_contract, dt),
            extending,
            want_contract,
            dt,
            (k - 1) as nat,
        ),
    decreases k,
{
    let n = growth_next(s, extending, want_contract, dt);
    assert(growth_iter(s, extending, want_contract, dt, k)
        == growth_next(growth_iter(s, extending, want_contract, dt, (k - 1) as nat),
            extending, want_contract, dt));
    if k == 1 {
        assert(growth_iter(s, extending, want_contract, dt, 0) == s);
        assert(growth_iter(n, extending, want_contract, dt, 0) == n);
    } else {
        lemma_growth_iter_shift(s, extending, want_contract, dt, (k - 1) as nat);
        assert(growth_iter(n, extending, want_contract, dt, (k - 1) as nat)
            == growth_next(growth_iter(n, extending, want_contract, dt, (k - 2) as nat),
                extending, want_contract, dt));
    }
}

/// The joint commands of the grab state machine: any existing anchor joint
/// is destroyed, and a fresh one is created while grabbing.
pub open spec fn grab_cmds(
    prev: Option<u64>,
    g: bool,
    gid: u64,
    head: u64,
    other: u64,
    anchor_head: (int, int),
    anchor_other: (int, int),
) -> Seq<Command> {
    let destroy: Seq<Command> = match prev {
        Option::Some(j) => seq![Command::DestroyJoint { id: j }],
        Option::None => Seq::empty(),
    };
    if g {
        destroy + seq![
            Command::CreateGrabJoint {
                id: gid,
                head,
                other,
                anchor_head: Vec2 { x: anchor_head.0 as i64, y: anchor_head.1 as i64 },
                anchor_other: Vec2 { x: anchor_other.0 as i64, y: anchor_other.1 as i64 },
            },
        ]
    } else {
        destroy
    }
}

/// The displayed path after growth easing: the head sample slides in from
/// its predecessor while a link grows, and the butt sample slides toward
/// its successor while one shrinks.
pub open spec fn eased_path(pts: Seq<(int, int)>, ep: int, cp: int) -> Seq<(int, int)> {
    let n = pts.len() as int;
    let a = if ep < FX_ONE && n >= 2 {
        pts.update(n - 1, add_val(pts[n - 2], scale_val(sub_val(pts[n - 1], pts[n - 2]), ep)))
    } else {
        pts
    };
    if cp > 0 && n >= 2 {
        a.update(0, add_val(a[1], scale_val(sub_val(a[0], a[1]), cp)))
    } else {
        a
    }
}

/// Advance the walk phase, holding at the top of the range.
pub open spec fn walk_adv(p: int, wl: int) -> int {
    if p + wl <= i64::MAX {
        p + wl
    } else {
        p
    }
}

/// Saturating upward advance of the growth counter.
pub open spec fn phase_up(p: int, dt: int) -> int {
    if p + fx_mul_val(GROWTH_RATE as int, dt) > PHASE_MAX {
        PHASE_MAX as int
    } else {
        p + fx_mul_val(GROWTH_RATE as int, dt)
    }
}

/// Saturating downward advance of the shrink counter.
pub open spec fn phase_down(p: int, dt: int) -> int {
    if p - fx_mul_val(GROWTH_RATE as int, dt) < -PHASE_MAX {
        -PHASE_MAX as int
    } else {
        p - fx_mul_val(GROWTH_RATE as int, dt)
    }
}

/// The motor commands of one tick: every muscle, head to tail, written
/// from the fresh targets.
pub open spec fn motor_cmds(muscles: Seq<u64>, t: Seq<MuscleTarget>) -> Seq<Command> {
    let count = muscles.len() as int;
    Seq::new(
        muscles.len(),
        |n: int|
            {
                let m = count - 1 - n;
                Command::SetMotor { id: muscles[m], offset: t[m].offset, torque: t[m].torque }
            },
    )
}

/// Stretch-correction commands, walking pair `j` (head side) down to the
/// butt with the running stretch `stretch`.
pub open spec fn follow_from(links: Seq<u64>, pts: Seq<(int, int)>, j: int, stretch: int)
    -> Seq<Command>
    decreases j + 1,
{
    if j < 0 || j + 1 >= pts.len() {
        Seq::empty()
    } else {
        let d = sub_val(pts[j + 1], pts[j]);
        let l = len_val(d);
        let s2 = stretch + l - SEGMENT_LENGTH;
        if l >= EPS_LEN {
            let adj = clamp_val(s2, 0, l);
            let npos = add_val(pts[j], scale_val(d, fx_div_val(adj, l)));
            seq![
                Command::SetPosition {
                    body: links[j],
                    position: Vec2 { x: npos.0 as i64, y: npos.1 as i64 },
                },
            ] + follow_from(links, pts, j - 1, s2 - adj)
        } else {
            follow_from(links, pts, j - 1, s2)
        }
    }
}

/// Turning: every link teleports onto the reversed chain with flipped
/// angles, and the tail gathers just ahead of the new butt.
pub open spec fn turn_cmds(
    links: Seq<u64>,
    tails: Seq<u64>,
    pos: Seq<(int, int)>,
    ang: Seq<i64>,
) -> Seq<Command> {
    let len = pos.len() as int;
    Seq::new(
        links.len(),
        |i: int|
            Command::SetTransform {
                body: links[i],
                position: Vec2 { x: pos[len - 1 - i].0 as i64, y: pos[len - 1 - i].1 as i64 },
                angle: (if i < len - 1 {
                    ang[len - 2 - i] + PI_FX
                } else {
                    ang[0] + PI_FX
                }) as i64,
            },
    ) + ({
        let tp = add_val(
            pos[len - 1],
            scale_val(from_angle_val(ang[len - 1] as int), TAIL_TURN_OFFSET as int),
        );
        let ta = (ang[len - 1] + PI_FX) as i64;
        Seq::new(
            tails.len(),
            |k: int|
                Command::SetTransform {
                    body: tails[k],
                    position: Vec2 { x: tp.0 as i64, y: tp.1 as i64 },
                    angle: ta,
                },
        )
    })
}

/// The commands that materialize a new head link.
pub open spec fn extend_cmds(
    prev_head: u64,
    old_sensor: u64,
    body_id: u64,
    fixture_id: u64,
    motor_id: u64,
    sensor_id: u64,
    p2: (int, int),
    angle: i64,
) -> Seq<Command> {
    seq![
        Command::CreateBody {
            id: body_id,
            position: Vec2 { x: p2.0 as i64, y: p2.1 as i64 },
            angle,
            gravity_scale: FX_ONE,
            linear_damping: LINEAR_DAMPING,
            angular_damping: ANGULAR_DAMPING,
        },
        Command::CreateCircleFixture {
            id: fixture_id,
            body: body_id,
            radius: LINK_RADIUS,
            density: FIXTURE_DENSITY,
            friction: FIXTURE_FRICTION,
            restitution: FIXTURE_RESTITUTION,
            group: COLLISION_GROUP,
            sensor: false,
        },
        Command::CreateLimitJoint {
            body_a: prev_head,
            body_b: body_id,
            anchor_b: Vec2 { x: (-(SEGMENT_LENGTH as int)) as i64, y: 0 },
            lower: (-(JOINT_LIMIT as int)) as i64,
            upper: JOINT_LIMIT,
        },
        Command::CreateMotorJoint {
            id: motor_id,
            body_a: prev_head,
            body_b: body_id,
            max_force: MOTOR_MAX_FORCE,
            max_torque: BASE_TORQUE,
            correction: CORRECTION_FULL,
        },
        Command::DestroyFixture { body: prev_head, fixture: old_sensor },
        Command::CreateCircleFixture {
            id: sensor_id,
            body: body_id,
            radius: SENSOR_RADIUS,
            density: 0,
            friction: FIXTURE_FRICTION,
            restitution: FIXTURE_RESTITUTION,
            group: COLLISION_GROUP,
            sensor: true,
        },
    ]
}

/// The commands that remove the butt link and re-root the tail.
pub open spec fn contract_cmds(butt: u64, new_butt: u64, tail_root: u64, motor_id: u64)
    -> Seq<Command>
{
    seq![
        Command::DestroyBody { id: butt },
        Command::CreateLimitJoint {
            body_a: new_butt,
            body_b: tail_root,
            anchor_b: Vec2 { x: TAIL_ROOT_ANCHOR, y: 0 },
            lower: (-(TAIL_ROOT_LIMIT as int)) as i64,
            upper: TAIL_ROOT_LIMIT,
        },
        Command::CreateMotorJoint {
            id: motor_id,
            body_a: new_butt,
            body_b: tail_root,
            max_force: MOTOR_MAX_FORCE,
            max_torque: TAIL_ROOT_TORQUE,
            correction: CORRECTION_SOFT,
        },
    ]
}

/// The grab decision is a fixed point of itself: feeding its own outcome
/// back in with the same senses and intent yields the same outcome, so the
/// state machine cannot oscillate while its inputs hold still — including
/// exactly on the separation and heading thresholds.
pub proof fn lemma_grab_decision_stable(
    prev: bool,
    sensed: Option<(int, (int, int), u64)>,
    dir: Option<i64>,
    turning: bool,
    extending: bool,
)
    ensures
        grab_decision(grab_decision(prev, sensed, dir, turning, extending), sensed, dir,
            turning, extending) == grab_decision(prev, sensed, dir, turning, extending),
{
}

/// Running the target computation twice with the same senses, intent and
/// displayed path yields the same motor targets: the grab decision settles
/// after one step, and the pass depends only on it and on the path.
pub proof fn lemma_targets_idempotent(
    prev: bool,
    sensed: Option<(int, (int, int), u64)>,
    dir: Option<i64>,
    turning: bool,
    extending: bool,
    flying: bool,
    count: nat,
    pts: Seq<(int, int)>,
)
    ensures
        ({
            let g1 = grab_decision(prev, sensed, dir, turning, extending);
            let t1 = tick_targets(count, pts, dir, g1, flying);
            let g2 = grab_decision(g1, sensed, dir, turning, extending);
            tick_targets(count, pts, dir, g2, flying) == t1
        }),
{
    lemma_grab_decision_stable(prev, sensed, dir, turning, extending);
}

/// Every target the bending pass emits from position `n` onward keeps its
/// offset within the joint limit scaled by that position's attenuation.
pub proof fn lemma_ik_from_offsets(pts: Seq<(int, int)>, dir: int, n: int, hp: (int, int))
    requires
        2 <= pts.len(),
        0 <= n,
    ensures
        forall|k: int| 0 <= k < ik_from(pts, dir, n, hp).len()
            ==> abs_val((#[trigger] ik_from(pts, dir, n, hp)[k]).offset as int)
                <= (JOINT_LIMIT * ik_factor(n + k, pts.len() as int)) / (FX_ONE as int),
    decreases pts.len() - n,
{
    let len = pts.len() as int;
    let r = ik_from(pts, dir, n, hp);
    if n >= len - 2 {
    } else {
        let s = ik_step(pts, dir, n, hp);
        lemma_ik_factor_range(n, len);
        lemma_div_pos_is_pos(JOINT_LIMIT * ik_factor(n, len), FX_ONE as int);
        assert(JOINT_LIMIT * ik_factor(n, len) >= 0) by (nonlinear_arith)
            requires
                ik_factor(n, len) >= 0,
        ;
        assert(abs_val(s.0.offset as int)
            <= (JOINT_LIMIT * ik_factor(n, len)) / (FX_ONE as int)) by {
            let m = len - 2 - n;
            let p = pts[m];
            let lp = sub_val(hp, p);
            if lp.0 * lp.0 + lp.1 * lp.1 < EPS_LEN_SQ_RAW {
            } else {
                let bend = bend_val(pts, m);
                let raw = wrap_val(bend + dir - to_angle_val(lp));
                let off = clamp_val(raw, -(JOINT_LIMIT as int), JOINT_LIMIT as int);
                lemma_fx_mul_le(off, ik_factor(n, len), JOINT_LIMIT as int,
                    ik_factor(n, len));
            }
        }
        if n >= 2 * len / 3 {
        } else {
            lemma_ik_from_offsets(pts, dir, n + 1, s.1);
            assert forall|k: int| 0 <= k < r.len() implies abs_val(
                (#[trigger] r[k]).offset as int)
                <= (JOINT_LIMIT * ik_factor(n + k, len)) / (FX_ONE as int) by {
                if k == 0 {
                } else {
                    let rest = ik_from(pts, dir, n + 1, s.1);
                    assert(r[k] == rest[k - 1]);
                    assert(abs_val(rest[k - 1].offset as int)
                        <= (JOINT_LIMIT * ik_factor(n + 1 + (k - 1), len))
                            / (FX_ONE as int));
                }
            }
        }
    }
}

/// The attenuation bound of the bending pass never grows toward the tail.
pub proof fn lemma_attenuation_monotone(len: int, n1: int, n2: int)
    requires
        2 <= len,
        0 <= n1 <= n2,
    ensures
        (JOINT_LIMIT * ik_factor(n2, len)) / (FX_ONE as int)
            <= (JOINT_LIMIT * ik_factor(n1, len)) / (FX_ONE as int),
{
    lemma_ik_factor_mono(n1, n2, len);
    lemma_ik_factor_range(n1, len);
    lemma_ik_factor_range(n2, len);
    assert(JOINT_LIMIT * ik_factor(n2, len) <= JOINT_LIMIT * ik_factor(n1, len))
        by (nonlinear_arith)
        requires
            0 <= ik_factor(n2, len) <= ik_factor(n1, len),
    ;
    lemma_div_is_ordered(JOINT_LIMIT * ik_factor(n2, len), JOINT_LIMIT * ik_factor(n1, len),
        FX_ONE as int);
}

/// Two thirds of the way down the chain, the attenuation reaches zero.
pub proof fn lemma_attenuation_boundary(len: int, n: int)
    requires
        2 <= len,
        n >= 2 * len / 3,
    ensures
        ik_factor(n, len) == 0,
{
    lemma_fundamental_div_mod(2 * len, 3);
    lemma_mod_bound(2 * len, 3);
    lemma_fundamental_div_mod(len, 3);
    lemma_mod_bound(len, 3);
    assert(2 * len / 3 > len / 3);
}

/// After a tick, every muscle holds an offset no larger than the joint
/// limit scaled by its attenuation factor; that bound is non-increasing
/// from the head toward the tail, and from two thirds of the chain onward
/// the offset is exactly zero.
pub proof fn lemma_ik_attenuation(
    count: nat,
    pts: Seq<(int, int)>,
    dir: Option<i64>,
    grabbed: bool,
    flying: bool,
    m: int,
)
    requires
        count + 1 == pts.len(),
        2 <= pts.len(),
        0 <= m < count,
    ensures
        ({
            let t = tick_targets(count, pts, dir, grabbed, flying);
            let n = pts.len() as int - 2 - m;
            &&& abs_val(t[m].offset as int)
                <= (JOINT_LIMIT * ik_factor(n, pts.len() as int)) / (FX_ONE as int)
            &&& abs_val(t[m].offset as int) <= JOINT_LIMIT
            &&& (n >= 2 * pts.len() as int / 3 ==> t[m].offset == 0)
        }),
{
    let len = pts.len() as int;
    let t = tick_targets(count, pts, dir, grabbed, flying);
    let n = len - 2 - m;
    lemma_ik_factor_range(n, len);
    lemma_div_pos_is_pos(JOINT_LIMIT * ik_factor(n, len), FX_ONE as int);
    assert(JOINT_LIMIT * ik_factor(n, len) >= 0) by (nonlinear_arith)
        requires
            ik_factor(n, len) >= 0,
    ;
    if !grabbed && !flying && dir is Some {
        lemma_ik_from_offsets(pts, dir->0 as int, 0, pts.last());
    }
    assert(abs_val(t[m].offset as int)
        <= (JOINT_LIMIT * ik_factor(n, len)) / (FX_ONE as int));
    assert(JOINT_LIMIT * ik_factor(n, len) <= JOINT_LIMIT * (FX_ONE as int))
        by (nonlinear_arith)
        requires
            0 <= ik_factor(n, len) <= FX_ONE as int,
    ;
    lemma_div_is_ordered(JOINT_LIMIT * ik_factor(n, len), JOINT_LIMIT * (FX_ONE as int),
        FX_ONE as int);
    lemma_div_multiples_vanish(JOINT_LIMIT as int, FX_ONE as int);
    assert(JOINT_LIMIT * (FX_ONE as int) == (FX_ONE as int) * JOINT_LIMIT)
        by (nonlinear_arith);
    if n >= 2 * len / 3 {
        lemma_attenuation_boundary(len, n);
        assert(t[m].offset == 0);
    }
}

/// The bending pass is saturated from position `n` onward: no virtual head
/// point degenerates, and every steering error is at least the joint limit,
/// so every clamp engages. A chain whose steering error is this large all
/// the way down bends at exactly the attenuation profile.
pub open spec fn ik_saturated(pts: Seq<(int, int)>, dir: int, n: int, hp: (int, int)) -> bool
    decreases pts.len() - n,
{
    let len = pts.len() as int;
    if n < 0 || n >= len - 2 {
        true
    } else {
        let m = len - 2 - n;
        let lp = sub_val(hp, pts[m]);
        let s = ik_step(pts, dir, n, hp);
        &&& lp.0 * lp.0 + lp.1 * lp.1 >= EPS_LEN_SQ_RAW
        &&& abs_val(wrap_val(bend_val(pts, m) + dir - to_angle_val(lp))) >= JOINT_LIMIT
        &&& (n >= 2 * len / 3 || ik_saturated(pts, dir, n + 1, s.1))
    }
}

/// On a saturated pass, each driven offset magnitude is exactly the joint
/// limit scaled by its attenuation factor.
pub proof fn lemma_ik_saturated_offsets(pts: Seq<(int, int)>, dir: int, n: int, hp: (int, int))
    requires
        2 <= pts.len(),
        0 <= n,
        ik_saturated(pts, dir, n, hp),
    ensures
        forall|k: int| 0 <= k < ik_from(pts, dir, n, hp).len()
            ==> abs_val((#[trigger] ik_from(pts, dir, n, hp)[k]).offset as int)
                == (JOINT_LIMIT * ik_factor(n + k, pts.len() as int)) / (FX_ONE as int),
    decreases pts.len() - n,
{
    let len = pts.len() as int;
    let r = ik_from(pts, dir, n, hp);
    if n >= len - 2 {
    } else {
        let s = ik_step(pts, dir, n, hp);
        let m = len - 2 - n;
        let lp = sub_val(hp, pts[m]);
        let raw = wrap_val(bend_val(pts, m) + dir - to_angle_val(lp));
        let off = clamp_val(raw, -(JOINT_LIMIT as int), JOINT_LIMIT as int);
        let f = ik_factor(n, len);
        lemma_ik_factor_range(n, len);
        assert(abs_val(off) == JOINT_LIMIT as int);
        crate::fixed::lemma_fx_mul_abs(off, f);
        assert(abs_val(off) * abs_val(f) == JOINT_LIMIT * f) by (nonlinear_arith)
            requires
                abs_val(off) == JOINT_LIMIT as int,
                abs_val(f) == f,
        ;
        if n >= 2 * len / 3 {
        } else {
            lemma_ik_saturated_offsets(pts, dir, n + 1, s.1);
            assert forall|k: int| 0 <= k < r.len() implies abs_val(
                (#[trigger] r[k]).offset as int)
                == (JOINT_LIMIT * ik_factor(n + k, len)) / (FX_ONE as int) by {
                if k == 0 {
                } else {
                    let rest = ik_from(pts, dir, n + 1, s.1);
                    assert(r[k] == rest[k - 1]);
                    assert(abs_val(rest[k - 1].offset as int)
                        == (JOINT_LIMIT * ik_factor(n + 1 + (k - 1), len))
                            / (FX_ONE as int));
                }
            }
        }
    }
}

/// On a saturated pass, the applied offset magnitudes themselves are
/// non-increasing from the head toward the tail: the muscle nearer the
/// head always bends at least as hard.
pub proof fn lemma_saturated_attenuation(
    count: nat,
    pts: Seq<(int, int)>,
    dir: i64,
    m_head: int,
    m_tail: int,
)
    requires
        count + 1 == pts.len(),
        2 <= pts.len(),
        0 <= m_tail <= m_head < count,
        ik_saturated(pts, dir as int, 0, pts.last()),
    ensures
        ({
            let t = tick_targets(count, pts, Some(dir), false, false);
            abs_val(t[m_tail].offset as int) <= abs_val(t[m_head].offset as int)
        }),
{
    let len = pts.len() as int;
    let t = tick_targets(count, pts, Some(dir), false, false);
    let directed = ik_from(pts, dir as int, 0, pts.last());
    let n_head = len - 2 - m_head;
    let n_tail = len - 2 - m_tail;
    lemma_ik_saturated_offsets(pts, dir as int, 0, pts.last());
    lemma_ik_factor_range(n_head, len);
    lemma_ik_factor_range(n_tail, len);
    if n_tail < directed.len() {
        assert(n_head < directed.len());
        lemma_attenuation_monotone(len, n_head, n_tail);
    } else {
        assert(t[m_tail].offset == 0);
        lemma_div_pos_is_pos(JOINT_LIMIT * ik_factor(n_head, len), FX_ONE as int);
        assert(JOINT_LIMIT * ik_factor(n_head, len) >= 0) by (nonlinear_arith)
            requires
                ik_factor(n_head, len) >= 0,
        ;
    }
}

/// Append a copy of every command in `src` to `dst`.
fn push_all(dst: &mut Vec<Command>, src: &Vec<Command>)
    ensures
        final(dst)@ == old(dst)@ + src@,
{
    let mut i: usize = 0;
    while i < src.len()
        invariant
            0 <= i <= src@.len(),
            dst@ == old(dst)@ + src@.take(i as int),
        decreases src@.len() - i,
    {
        dst.push(src[i]);
        proof {
            assert(old(dst)@ + src@.take(i as int + 1)
                =~= (old(dst)@ + src@.take(i as int)).push(src@[i as int]));
        }
        i = i + 1;
    }
    proof {
        assert(src@.take(src@.len() as int) =~= src@);
    }
}

/// The attenuation factor, as executable arithmetic.
fn ik_factor_x(n: usize, len: usize) -> (r: i64)
    requires
        2 <= len <= CHAIN_MAX,
        n <= 2 * len / 3,
    ensures
        r as int == ik_factor(n as int, len as int),
        0 <= r <= FX_ONE,
{
    proof {
        lemma_ik_factor_range(n as int, len as int);
    }
    if n <= len / 3 {
        FX_ONE
    } else {
        let c: usize = 2 * len / 3;
        let num: u64 = ((c - n) as u64) * 3_000_000;
        let q: u64 = num / (len as u64);
        q as i64
    }
}

/// The bend angle at link `m`, as executable arithmetic.
fn bend_at(path: &Vec<Vec2>, m: usize) -> (r: i64)
    requires
        1 <= m,
        m + 1 < path@.len(),
        path@.len() <= CHAIN_MAX,
        points_bounded(path@, POS_LIMIT as int),
    ensures
        r as int == bend_val(points_of(path@), m as int),
        -PI_FX <= r <= PI_FX,
{
    let ghost pts = points_of(path@);
    proof {
        assert(pts[m as int] == path@[m as int]@);
        assert(pts[m as int - 1] == path@[m as int - 1]@);
        assert(pts[m as int + 1] == path@[m as int + 1]@);
    }
    let p: Vec2 = path[m];
    let d: Vec2 = p.sub(path[m - 1]);
    let d2: Vec2 = path[m + 1].sub(p);
    let dl: i64 = d.length();
    let d2l: i64 = d2.length();
    if dl >= EPS_LEN && d2l >= EPS_LEN {
        proof {
            if d.x == 0 && d.y == 0 {
                crate::fixed::lemma_sqrt_val(0);
                assert(len_val(d@) == 0) by (nonlinear_arith)
                    requires
                        len_val(d@) * len_val(d@) <= 0,
                        0 <= len_val(d@),
                ;
            }
            lemma_abs_sq(d.x as int);
            lemma_abs_sq(d.y as int);
            assert((d.x as int) * (d.x as int) <= (d.x as int) * (d.x as int)
                + (d.y as int) * (d.y as int)) by (nonlinear_arith);
            crate::fixed::lemma_sqrt_ge(
                (d.x as int) * (d.x as int) + (d.y as int) * (d.y as int),
                abs_val(d.x as int),
            );
            assert((d.y as int) * (d.y as int) <= (d.x as int) * (d.x as int)
                + (d.y as int) * (d.y as int)) by (nonlinear_arith);
            crate::fixed::lemma_sqrt_ge(
                (d.x as int) * (d.x as int) + (d.y as int) * (d.y as int),
                abs_val(d.y as int),
            );
        }
        let nd: Vec2 = d.normalized();
        proof {
            lemma_fx_div_unit(abs_val(d.x as int), len_val(d@));
            lemma_fx_div_unit(abs_val(d.y as int), len_val(d@));
        }
        let u: Vec2 = d2.unrotated(nd);
        proof {
            lemma_fx_mul_le(d2.x as int, nd.x as int, 4_000_000_000, FX_ONE as int);
            lemma_fx_mul_le(d2.y as int, nd.y as int, 4_000_000_000, FX_ONE as int);
            lemma_fx_mul_le(d2.x as int, nd.y as int, 4_000_000_000, FX_ONE as int);
            lemma_fx_mul_le(d2.y as int, nd.x as int, 4_000_000_000, FX_ONE as int);
        }
        u.to_angle()
    } else {
        0
    }
}

/// The bending pass: walk the muscles head to tail, steering each toward
/// the heading with tapering strength, and stop at two thirds of the chain.
fn ik_pass(path: &Vec<Vec2>, dir: i64) -> (r: Vec<MuscleTarget>)
    requires
        1 <= path@.len() <= CHAIN_MAX,
        points_bounded(path@, POS_LIMIT as int),
        -BODY_ANGLE_LIMIT <= dir <= BODY_ANGLE_LIMIT,
    ensures
        r@ == ik_from(points_of(path@), dir as int, 0, points_of(path@).last()),
{
    let len: usize = path.len();
    let ghost pts = points_of(path@);
    proof {
        assert(pts.len() == path@.len());
        assert(pts.last() == path@[len - 1]@);
    }
    let mut out: Vec<MuscleTarget> = Vec::new();
    let mut head_p: Vec2 = path[len - 1];
    let ghost full = ik_from(pts, dir as int, 0, head_p@);
    if len < 3 {
        return out;
    }
    let cut: usize = 2 * len / 3;
    let mut n: usize = 0;
    while n < len - 2
        invariant_except_break
            3 <= len <= CHAIN_MAX,
            len == path@.len(),
            pts == points_of(path@),
            points_bounded(path@, POS_LIMIT as int),
            -BODY_ANGLE_LIMIT <= dir <= BODY_ANGLE_LIMIT,
            cut == 2 * len / 3,
            0 <= n <= len - 2,
            n <= cut,
            -HEAD_CLAMP <= head_p.x <= HEAD_CLAMP,
            -HEAD_CLAMP <= head_p.y <= HEAD_CLAMP,
            full == ik_from(pts, dir as int, 0, points_of(path@).last()),
            out@ + ik_from(pts, dir as int, n as int, head_p@) == full,
        ensures
            out@ == full,
        decreases len - 2 - n,
    {
        let ghost head_before = head_p@;
        let m: usize = len - 2 - n;
        let p: Vec2 = path[m];
        proof {
            assert(pts[m as int] == path@[m as int]@);
            assert(pts[m as int - 1] == path@[m as int - 1]@);
            assert(pts[m as int + 1] == path@[m as int + 1]@);
        }
        let lp: Vec2 = head_p.sub(p);
        let ax: i64 = fx_abs(lp.x);
        let ay: i64 = fx_abs(lp.y);
        let degenerate: bool = if ax < 100 && ay < 100 {
            assert(0 <= (ax as int) * (ax as int) < 10_000
                && 0 <= (ay as int) * (ay as int) < 10_000) by (nonlinear_arith)
                requires
                    0 <= ax < 100,
                    0 <= ay < 100,
            ;
            ax * ax + ay * ay < EPS_LEN_SQ_RAW
        } else {
            false
        };
        proof {
            lemma_abs_sq(lp.x as int);
            lemma_abs_sq(lp.y as int);
            if ax >= 100 {
                assert((ax as int) * (ax as int) >= 10_000) by (nonlinear_arith)
                    requires
                        ax >= 100,
                ;
                assert((ay as int) * (ay as int) >= 0) by (nonlinear_arith);
            } else if ay >= 100 {
                assert((ay as int) * (ay as int) >= 10_000) by (nonlinear_arith)
                    requires
                        ay >= 100,
                ;
                assert((ax as int) * (ax as int) >= 0) by (nonlinear_arith);
            }
            assert(degenerate == (lp@.0 * lp@.0 + lp@.1 * lp@.1 < EPS_LEN_SQ_RAW));
        }
        let tgt: MuscleTarget;
        if degenerate {
            tgt = MuscleTarget { offset: 0, torque: BASE_TORQUE };
        } else {
            let bend: i64 = bend_at(path, m);
            let raw: i64 = wrap_angle(bend + dir - lp.to_angle());
            let off: i64 = fx_clamp(raw, -JOINT_LIMIT, JOINT_LIMIT);
            let f: i64 = ik_factor_x(n, len);
            proof {
                lemma_fx_mul_le(off as int, f as int, JOINT_LIMIT as int, FX_ONE as int);
                lemma_fx_mul_le(EXTRA_TORQUE as int, f as int, EXTRA_TORQUE as int, FX_ONE as int);
            }
            tgt = MuscleTarget {
                offset: fx_mul(off, f),
                torque: BASE_TORQUE + fx_mul(EXTRA_TORQUE, f),
            };
            let unit: Vec2 = Vec2::from_angle(off - bend);
            proof {
                crate::math::lemma_unit_range(off - bend);
            }
            let rot: Vec2 = lp.rotated(unit);
            proof {
                lemma_fx_mul_le(lp.x as int, unit.x as int, 11_000_000_000, 10_000_000);
                lemma_fx_mul_le(lp.y as int, unit.y as int, 11_000_000_000, 10_000_000);
                lemma_fx_mul_le(lp.x as int, unit.y as int, 11_000_000_000, 10_000_000);
                lemma_fx_mul_le(lp.y as int, unit.x as int, 11_000_000_000, 10_000_000);
            }
            let moved: Vec2 = rot.add(p);
            head_p = moved.clamped(HEAD_CLAMP);
        }
        proof {
            let s = ik_step(pts, dir as int, n as int, head_before);
            assert(tgt == s.0);
            assert(head_p@ == s.1);
            if n as int >= 2 * (len as int) / 3 {
                assert(ik_from(pts, dir as int, n as int, head_before) == seq![s.0]);
            } else {
                assert(ik_from(pts, dir as int, n as int, head_before)
                    == seq![s.0] + ik_from(pts, dir as int, n as int + 1, s.1));
            }
        }
        out.push(tgt);
        if n >= cut {
            proof {
                assert(out@ =~= full);
            }
            break;
        }
        proof {
            assert(out@ + ik_from(pts, dir as int, n as int + 1, head_p@) =~= full);
        }
        n = n + 1;
    }
    out
}

/// Assemble the full motor-target list for this tick: the bending pass
/// where it reaches, the relaxed target everywhere else, so no muscle is
/// ever left unwritten.
fn compute_targets(
    path: &Vec<Vec2>,
    dir: Option<i64>,
    grabbed: bool,
    flying: bool,
) -> (r: Vec<MuscleTarget>)
    requires
        1 <= path@.len() <= CHAIN_MAX,
        points_bounded(path@, POS_LIMIT as int),
        dir matches Some(d) ==> -BODY_ANGLE_LIMIT <= d <= BODY_ANGLE_LIMIT,
    ensures
        r@ == tick_targets((path@.len() - 1) as nat, points_of(path@), dir, grabbed, flying),
        r@.len() == path@.len() - 1,
{
    let ghost tick = tick_targets((path@.len() - 1) as nat, points_of(path@), dir, grabbed,
        flying);
    let directed: Vec<MuscleTarget> = if !grabbed && !flying && dir.is_some() {
        ik_pass(path, dir.unwrap())
    } else {
        Vec::new()
    };
    let len: usize = path.len();
    let mut out: Vec<MuscleTarget> = Vec::new();
    let mut m: usize = 0;
    while m + 1 < len
        invariant
            0 <= m <= len - 1,
            len == path@.len(),
            1 <= len <= CHAIN_MAX,
            tick == tick_targets((len - 1) as nat, points_of(path@), dir, grabbed, flying),
            directed@ == (if !grabbed && !flying && dir is Some {
                ik_from(points_of(path@), dir->0 as int, 0, points_of(path@).last())
            } else {
                Seq::<MuscleTarget>::empty()
            }),
            out@ == tick.take(m as int),
        decreases len - 1 - m,
    {
        let n: usize = len - 2 - m;
        let t: MuscleTarget = if n < directed.len() {
            directed[n]
        } else {
            MuscleTarget { offset: 0, torque: BASE_TORQUE }
        };
        out.push(t);
        proof {
            assert(tick[m as int] == t);
            assert(out@ =~= tick.take(m as int + 1));
        }
        m = m + 1;
    }
    proof {
        assert(tick.take(tick.len() as int) =~= tick);
    }
    out
}

/// Emit one motor command per muscle, head to tail.
fn motor_commands(muscles: &Vec<u64>, t: &Vec<MuscleTarget>) -> (r: Vec<Command>)
    requires
        t@.len() == muscles@.len(),
    ensures
        r@ == motor_cmds(muscles@, t@),
{
    let ghost full = motor_cmds(muscles@, t@);
    let mut r: Vec<Command> = Vec::new();
    let count: usize = muscles.len();
    let mut n: usize = 0;
    while n < count
        invariant
            0 <= n <= count,
            count == muscles@.len(),
            t@.len() == count,
            full == motor_cmds(muscles@, t@),
            r@ == full.take(n as int),
        decreases count - n,
    {
        let m: usize = count - 1 - n;
        r.push(Command::SetMotor { id: muscles[m], offset: t[m].offset, torque: t[m].torque });
        proof {
            assert(full[n as int] == Command::SetMotor {
                id: muscles@[m as int],
                offset: t@[m as int].offset,
                torque: t@[m as int].torque,
            });
            assert(r@ =~= full.take(n as int + 1));
        }
        n = n + 1;
    }
    proof {
        assert(full.take(full.len() as int) =~= full);
    }
    r
}

/// Stretch correction: slide each link toward its head-side neighbor by the
/// accumulated excess of segment length over the nominal spacing. The
/// corrector runs on the ticks that hold a grab — the overall control flow
/// applies it to the anchored creature, whose head cannot yield — and
/// leaves a free-swimming chain to its joints.
fn follow_commands(links: &Vec<u64>, path: &Vec<Vec2>) -> (r: Vec<Command>)
    requires
        links@.len() == path@.len(),
        1 <= path@.len() <= CHAIN_MAX,
        points_bounded(path@, POS_LIMIT as int),
    ensures
        r@ == follow_from(links@, points_of(path@), path@.len() - 2, 0),
{
    let len: usize = path.len();
    let ghost pts = points_of(path@);
    let ghost full = follow_from(links@, pts, len as int - 2, 0);
    let mut r: Vec<Command> = Vec::new();
    let mut stretch: i64 = 0;
    let mut jp: usize = len - 1;
    while jp > 0
        invariant
            0 <= jp <= len - 1,
            len == path@.len(),
            1 <= len <= CHAIN_MAX,
            links@.len() == len,
            points_bounded(path@, POS_LIMIT as int),
            pts == points_of(path@),
            full == follow_from(links@, pts, len as int - 2, 0),
            -3_100_000_000 * (len - jp) as int <= stretch as int
                <= 3_100_000_000 * (len - jp) as int,
            r@ + follow_from(links@, pts, jp as int - 1, stretch as int) == full,
        decreases jp,
    {
        let j: usize = jp - 1;
        proof {
            assert(pts[j as int] == path@[j as int]@);
            assert(pts[j as int + 1] == path@[j as int + 1]@);
        }
        let d: Vec2 = path[j + 1].sub(path[j]);
        let l: i64 = d.length();
        let s2: i64 = stretch + l - SEGMENT_LENGTH;
        if l >= EPS_LEN {
            let adj: i64 = fx_clamp(s2, 0, l);
            proof {
                lemma_fx_div_unit(adj as int, l as int);
            }
            let ratio: i64 = fx_div(adj, l);
            proof {
                lemma_fx_mul_le(d.x as int, ratio as int, 4_000_000_000, FX_ONE as int);
                lemma_fx_mul_le(d.y as int, ratio as int, 4_000_000_000, FX_ONE as int);
            }
            let npos: Vec2 = path[j].add(d.scale(ratio));
            r.push(Command::SetPosition { body: links[j], position: npos });
            proof {
                assert(follow_from(links@, pts, j as int, stretch as int)
                    == seq![
                        Command::SetPosition { body: links@[j as int], position: npos },
                    ] + follow_from(links@, pts, j as int - 1, s2 as int - adj as int));
                assert(r@ + follow_from(links@, pts, j as int - 1, s2 as int - adj as int)
                    =~= full);
            }
            stretch = s2 - adj;
        } else {
            proof {
                assert(follow_from(links@, pts, j as int, stretch as int)
                    == follow_from(links@, pts, j as int - 1, s2 as int));
            }
            stretch = s2;
        }
        jp = j;
    }
    proof {
        assert(follow_from(links@, pts, -1, stretch as int) == Seq::<Command>::empty());
        assert(r@ =~= full);
    }
    r
}

/// Turn the whole creature around: reversed positions, flipped angles, and
/// the tail gathered ahead of the new butt.
fn turn_commands(links: &Vec<u64>, tails: &Vec<u64>, positions: &Vec<Vec2>, angles: &Vec<i64>)
    -> (r: Vec<Command>)
    requires
        links@.len() == positions@.len(),
        links@.len() == angles@.len(),
        1 <= links@.len() <= CHAIN_MAX,
        1 <= tails@.len() <= CHAIN_MAX,
        points_bounded(positions@, POS_LIMIT as int),
        angles_bounded(angles@, BODY_ANGLE_LIMIT as int),
    ensures
        r@ == turn_cmds(links@, tails@, points_of(positions@), angles@),
{
    let len: usize = links.len();
    let ghost pos = points_of(positions@);
    let ghost full = turn_cmds(links@, tails@, pos, angles@);
    let ghost link_part = Seq::new(
        links@.len(),
        |i: int|
            Command::SetTransform {
                body: links@[i],
                position: Vec2 {
                    x: pos[len - 1 - i].0 as i64,
                    y: pos[len - 1 - i].1 as i64,
                },
                angle: (if i < len - 1 {
                    angles@[len - 2 - i] + PI_FX
                } else {
                    angles@[0] + PI_FX
                }) as i64,
            },
    );
    let mut r: Vec<Command> = Vec::new();
    let mut i: usize = 0;
    while i < len
        invariant
            0 <= i <= len,
            len == links@.len(),
            len == positions@.len(),
            len == angles@.len(),
            1 <= len <= CHAIN_MAX,
            points_bounded(positions@, POS_LIMIT as int),
            angles_bounded(angles@, BODY_ANGLE_LIMIT as int),
            pos == points_of(positions@),
            link_part == Seq::new(
                links@.len(),
                |k: int|
                    Command::SetTransform {
                        body: links@[k],
                        position: Vec2 {
                            x: pos[len - 1 - k].0 as i64,
                            y: pos[len - 1 - k].1 as i64,
                        },
                        angle: (if k < len - 1 {
                            angles@[len - 2 - k] + PI_FX
                        } else {
                            angles@[0] + PI_FX
                        }) as i64,
                    },
            ),
            r@ == link_part.take(i as int),
        decreases len - i,
    {
        let p: Vec2 = positions[len - 1 - i];
        let a: i64 = if i < len - 1 {
            angles[len - 2 - i] + PI_FX
        } else {
            angles[0] + PI_FX
        };
        r.push(Command::SetTransform { body: links[i], position: p, angle: a });
        proof {
            assert(pos[len - 1 - i as int] == positions@[len - 1 - i as int]@);
            assert(link_part[i as int] == Command::SetTransform {
                body: links@[i as int],
                position: p,
                angle: a,
            });
            assert(r@ =~= link_part.take(i as int + 1));
        }
        i = i + 1;
    }
    proof {
        assert(link_part.take(len as int) =~= link_part);
    }
    let head_angle: i64 = angles[len - 1];
    let unit: Vec2 = Vec2::from_angle(head_angle);
    proof {
        crate::math::lemma_unit_range(head_angle as int);
        lemma_fx_mul_le(unit.x as int, TAIL_TURN_OFFSET as int, 10_000_000,
            TAIL_TURN_OFFSET as int);
        lemma_fx_mul_le(unit.y as int, TAIL_TURN_OFFSET as int, 10_000_000,
            TAIL_TURN_OFFSET as int);
        assert(pos[len - 1] == positions@[len - 1]@);
    }
    let tp: Vec2 = positions[len - 1].add(unit.scale(TAIL_TURN_OFFSET));
    let ta: i64 = head_angle + PI_FX;
    let ghost tail_part = Seq::new(
        tails@.len(),
        |k: int| Command::SetTransform { body: tails@[k], position: tp, angle: ta },
    );
    let mut k: usize = 0;
    while k < tails.len()
        invariant
            0 <= k <= tails@.len(),
            tail_part == Seq::new(
                tails@.len(),
                |q: int| Command::SetTransform { body: tails@[q], position: tp, angle: ta },
            ),
            r@ == link_part + tail_part.take(k as int),
        decreases tails@.len() - k,
    {
        r.push(Command::SetTransform { body: tails[k], position: tp, angle: ta });
        proof {
            assert(r@ =~= link_part + tail_part.take(k as int + 1));
        }
        k = k + 1;
    }
    proof {
        assert(tail_part.take(tails@.len() as int) =~= tail_part);
        assert(r@ == link_part + tail_part);
        assert(full == link_part + tail_part);
    }
    r
}

impl NoodleCat {
    /// Allocate the next engine id; the counter saturates rather than wraps.
    fn fresh_id(&mut self) -> (id: u64)
        ensures
            id == old(self).next_id,
            *final(self) == (NoodleCat { next_id: bump(old(self).next_id), ..*old(self) }),
    {
        let id: u64 = self.next_id;
        if self.next_id < u64::MAX {
            self.next_id = self.next_id + 1;
        }
        id
    }
}

impl NoodleCat {
    /// Build the controller and the command list that creates its bodies,
    /// fixtures and joints, from an initial path (tail to head) and an
    /// initial tail (root to tip).
    pub fn new(cat: &Cat) -> (r: (NoodleCat, Vec<Command>))
        requires
            1 <= cat.path@.len() <= CHAIN_MAX,
            1 <= cat.tail@.len() <= CHAIN_MAX,
            points_bounded(cat.path@, POS_LIMIT as int),
            points_bounded(cat.tail@, POS_LIMIT as int),
        ensures
            r.0.wf(),
            r.0.links@ == Seq::new(cat.path@.len(), |i: int| (2 * i) as u64),
            r.0.muscles@ == Seq::new(
                (cat.path@.len() - 1) as nat,
                |j: int| (2 * cat.path@.len() + j) as u64,
            ),
            r.0.targets@ == Seq::new((cat.path@.len() - 1) as nat, |j: int| relaxed_target()),
            r.0.tail_links@ == Seq::new(
                cat.tail@.len(),
                |k: int| (3 * cat.path@.len() - 1 + 2 * k) as u64,
            ),
            r.0.head_sensor == 3 * cat.path@.len() + 3 * cat.tail@.len() - 1,
            r.0.head_sensor_body == 2 * cat.path@.len() - 2,
            r.0.grab is None,
            r.0.grabbed is None,
            r.0.grab_d is None,
            r.0.walk_length == 0,
            r.0.extend_phase == FX_ONE,
            !r.0.contracting,
            r.0.contract_phase == 0,
            r.0.next_id == 3 * cat.path@.len() + 3 * cat.tail@.len(),
            r.1@ == construction_cmds(points_of(cat.path@), points_of(cat.tail@)),
    {
        let n: usize = cat.path.len();
        let t: usize = cat.tail.len();
        let ghost pts = points_of(cat.path@);
        let ghost tpts = points_of(cat.tail@);
        let mut cmds: Vec<Command> = Vec::new();
        let mut links: Vec<u64> = Vec::new();
        let mut muscles: Vec<u64> = Vec::new();
        let mut targets: Vec<MuscleTarget> = Vec::new();
        let mut tail_links: Vec<u64> = Vec::new();

        // Chain bodies with their collision fixtures.
        let mut i: usize = 0;
        while i < n
            invariant
                0 <= i <= n,
                n == cat.path@.len(),
                1 <= n <= CHAIN_MAX,
                points_bounded(cat.path@, POS_LIMIT as int),
                pts == points_of(cat.path@),
                links@ == Seq::new(i as nat, |k: int| (2 * k) as u64),
                cmds@ + body_cmds(pts, i as int, 0, LINK_RADIUS as int, FX_ONE as int)
                    == body_cmds(pts, 0, 0, LINK_RADIUS as int, FX_ONE as int),
            decreases n - i,
        {
            let p = cat.path[i];
            let id: u64 = (2 * i) as u64;
            cmds.push(Command::CreateBody {
                id,
                position: p,
                angle: 0,
                gravity_scale: FX_ONE,
                linear_damping: LINEAR_DAMPING,
                angular_damping: ANGULAR_DAMPING,
            });
            cmds.push(Command::CreateCircleFixture {
                id: id + 1,
                body: id,
                radius: LINK_RADIUS,
                density: FIXTURE_DENSITY,
                friction: FIXTURE_FRICTION,
                restitution: FIXTURE_RESTITUTION,
                group: COLLISION_GROUP,
                sensor: false,
            });
            links.push(id);
            proof {
                assert(pts[i as int] == cat.path@[i as int]@);
                assert(links@ =~= Seq::new((i + 1) as nat, |k: int| (2 * k) as u64));
                assert(body_cmds(pts, i as int, 0, LINK_RADIUS as int, FX_ONE as int)
                    == seq![
                        Command::CreateBody {
                            id: (2 * i) as u64,
                            position: Vec2 { x: pts[i as int].0 as i64, y: pts[i as int].1 as i64 },
                            angle: 0,
                            gravity_scale: FX_ONE,
                            linear_damping: LINEAR_DAMPING,
                            angular_damping: ANGULAR_DAMPING,
                        },
                        Command::CreateCircleFixture {
                            id: (2 * i + 1) as u64,
                            body: (2 * i) as u64,
                            radius: LINK_RADIUS,
                            density: FIXTURE_DENSITY,
                            friction: FIXTURE_FRICTION,
                            restitution: FIXTURE_RESTITUTION,
                            group: COLLISION_GROUP,
                            sensor: false,
                        },
                    ] + body_cmds(pts, i as int + 1, 0, LINK_RADIUS as int, FX_ONE as int));
                assert(cmds@ + body_cmds(pts, i as int + 1, 0, LINK_RADIUS as int, FX_ONE as int)
                    =~= body_cmds(pts, 0, 0, LINK_RADIUS as int, FX_ONE as int));
            }
            i = i + 1;
        }

        // Chain limit joints and muscles.
        let ghost after_bodies = cmds@;
        let mut j: usize = 0;
        while j + 1 < n
            invariant
                0 <= j <= n - 1,
                n == cat.path@.len(),
                1 <= n <= CHAIN_MAX,
                points_bounded(cat.path@, POS_LIMIT as int),
                pts == points_of(cat.path@),
                muscles@ == Seq::new(j as nat, |k: int| (2 * n + k) as u64),
                targets@ == Seq::new(j as nat, |k: int| relaxed_target()),
                cmds@ + joint_cmds(pts, j as int, 0, 2 * n as int, JOINT_LIMIT as int,
                    BASE_TORQUE as int, CORRECTION_FULL as int)
                    == after_bodies + joint_cmds(pts, 0, 0, 2 * n as int, JOINT_LIMIT as int,
                        BASE_TORQUE as int, CORRECTION_FULL as int),
            decreases n - j,
        {
            let p = cat.path[j];
            let p2 = cat.path[j + 1];
            let body_a: u64 = (2 * j) as u64;
            let body_b: u64 = (2 * j + 2) as u64;
            let motor_id: u64 = (2 * n + j) as u64;
            cmds.push(Command::CreateLimitJoint {
                body_a,
                body_b,
                anchor_b: Vec2 { x: p.x - p2.x, y: p.y - p2.y },
                lower: -JOINT_LIMIT,
                upper: JOINT_LIMIT,
            });
            cmds.push(Command::CreateMotorJoint {
                id: motor_id,
                body_a,
                body_b,
                max_force: MOTOR_MAX_FORCE,
                max_torque: BASE_TORQUE,
                correction: CORRECTION_FULL,
            });
            muscles.push(motor_id);
            targets.push(MuscleTarget { offset: 0, torque: BASE_TORQUE });
            proof {
                assert(pts[j as int] == cat.path@[j as int]@);
                assert(pts[j as int + 1] == cat.path@[j as int + 1]@);
                assert(muscles@ =~= Seq::new((j + 1) as nat, |k: int| (2 * n + k) as u64));
                assert(targets@ =~= Seq::new((j + 1) as nat, |k: int| relaxed_target()));
                assert(joint_cmds(pts, j as int, 0, 2 * n as int, JOINT_LIMIT as int,
                    BASE_TORQUE as int, CORRECTION_FULL as int)
                    == seq![
                        Command::CreateLimitJoint {
                            body_a: (2 * j) as u64,
                            body_b: (2 * j + 2) as u64,
                            anchor_b: Vec2 {
                                x: (pts[j as int].0 - pts[j as int + 1].0) as i64,
                                y: (pts[j as int].1 - pts[j as int + 1].1) as i64,
                            },
                            lower: (-(JOINT_LIMIT as int)) as i64,
                            upper: JOINT_LIMIT,
                        },
                        Command::CreateMotorJoint {
                            id: (2 * n + j) as u64,
                            body_a: (2 * j) as u64,
                            body_b: (2 * j + 2) as u64,
                            max_force: MOTOR_MAX_FORCE,
                            max_torque: BASE_TORQUE,
                            correction: CORRECTION_FULL,
                        },
                    ] + joint_cmds(pts, j as int + 1, 0, 2 * n as int, JOINT_LIMIT as int,
                        BASE_TORQUE as int, CORRECTION_FULL as int));
                assert(cmds@ + joint_cmds(pts, j as int + 1, 0, 2 * n as int, JOINT_LIMIT as int,
                    BASE_TORQUE as int, CORRECTION_FULL as int)
                    =~= after_bodies + joint_cmds(pts, 0, 0, 2 * n as int, JOINT_LIMIT as int,
                        BASE_TORQUE as int, CORRECTION_FULL as int));
            }
            j = j + 1;
        }

        // Tail bodies with their collision fixtures.
        let ghost after_joints = cmds@;
        let tail_base: usize = 3 * n - 1;
        let mut k: usize = 0;
        while k < t
            invariant
                0 <= k <= t,
                t == cat.tail@.len(),
                1 <= t <= CHAIN_MAX,
                n == cat.path@.len(),
                1 <= n <= CHAIN_MAX,
                tail_base == 3 * n - 1,
                points_bounded(cat.tail@, POS_LIMIT as int),
                tpts == points_of(cat.tail@),
                tail_links@ == Seq::new(k as nat, |q: int| (3 * n - 1 + 2 * q) as u64),
                cmds@ + body_cmds(tpts, k as int, tail_base as int, TAIL_RADIUS as int,
                    TAIL_GRAVITY as int)
                    == after_joints + body_cmds(tpts, 0, tail_base as int, TAIL_RADIUS as int,
                        TAIL_GRAVITY as int),
            decreases t - k,
        {
            let p = cat.tail[k];
            let id: u64 = (tail_base + 2 * k) as u64;
            cmds.push(Command::CreateBody {
                id,
                position: p,
                angle: 0,
                gravity_scale: TAIL_GRAVITY,
                linear_damping: LINEAR_DAMPING,
                angular_damping: ANGULAR_DAMPING,
            });
            cmds.push(Command::CreateCircleFixture {
                id: id + 1,
                body: id,
                radius: TAIL_RADIUS,
                density: FIXTURE_DENSITY,
                friction: FIXTURE_FRICTION,
                restitution: FIXTURE_RESTITUTION,
                group: COLLISION_GROUP,
                sensor: false,
            });
            tail_links.push(id);
            proof {
                assert(tpts[k as int] == cat.tail@[k as int]@);
                assert(tail_links@ =~= Seq::new((k + 1) as nat, |q: int| (3 * n - 1 + 2 * q) as u64));
                assert(body_cmds(tpts, k as int, tail_base as int, TAIL_RADIUS as int,
                    TAIL_GRAVITY as int)
                    == seq![
                        Command::CreateBody {
                            id: (tail_base + 2 * k) as u64,
                            position: Vec2 {
                                x: tpts[k as int].0 as i64,
                                y: tpts[k as int].1 as i64,
                            },
                            angle: 0,
                            gravity_scale: TAIL_GRAVITY,
                            linear_damping: LINEAR_DAMPING,
                            angular_damping: ANGULAR_DAMPING,
                        },
                        Command::CreateCircleFixture {
                            id: (tail_base + 2 * k + 1) as u64,
                            body: (tail_base + 2 * k) as u64,
                            radius: TAIL_RADIUS,
                            density: FIXTURE_DENSITY,
                            friction: FIXTURE_FRICTION,
                            restitution: FIXTURE_RESTITUTION,
                            group: COLLISION_GROUP,
                            sensor: false,
                        },
                    ] + body_cmds(tpts, k as int + 1, tail_base as int, TAIL_RADIUS as int,
                        TAIL_GRAVITY as int));
                assert(cmds@ + body_cmds(tpts, k as int + 1, tail_base as int, TAIL_RADIUS as int,
                    TAIL_GRAVITY as int)
                    =~= after_joints + body_cmds(tpts, 0, tail_base as int, TAIL_RADIUS as int,
                        TAIL_GRAVITY as int));
            }
            k = k + 1;
        }

        // Tail root joints.
        let root_motor: usize = 3 * n - 1 + 2 * t;
        let d0 = Vec2 { x: cat.path[0].x - cat.tail[0].x, y: cat.path[0].y - cat.tail[0].y };
        cmds.push(Command::CreateLimitJoint {
            body_a: 0,
            body_b: tail_base as u64,
            anchor_b: d0,
            lower: -TAIL_ROOT_LIMIT,
            upper: TAIL_ROOT_LIMIT,
        });
        cmds.push(Command::CreateMotorJoint {
            id: root_motor as u64,
            body_a: 0,
            body_b: tail_base as u64,
            max_force: MOTOR_MAX_FORCE,
            max_torque: TAIL_ROOT_TORQUE,
            correction: CORRECTION_SOFT,
        });
        proof {
            assert(d0@ == sub_val(pts[0], tpts[0]));
        }

        // Tail limit joints and motors.
        let ghost after_root = cmds@;
        let tail_motor_base: usize = 3 * n + 2 * t;
        let mut q: usize = 0;
        while q + 1 < t
            invariant
                0 <= q <= t - 1,
                t == cat.tail@.len(),
                1 <= t <= CHAIN_MAX,
                n == cat.path@.len(),
                1 <= n <= CHAIN_MAX,
                tail_base == 3 * n - 1,
                tail_motor_base == 3 * n + 2 * t,
                points_bounded(cat.tail@, POS_LIMIT as int),
                tpts == points_of(cat.tail@),
                cmds@ + joint_cmds(tpts, q as int, tail_base as int, tail_motor_base as int,
                    TAIL_JOINT_LIMIT as int, TAIL_TORQUE as int, CORRECTION_SOFT as int)
                    == after_root + joint_cmds(tpts, 0, tail_base as int, tail_motor_base as int,
                        TAIL_JOINT_LIMIT as int, TAIL_TORQUE as int, CORRECTION_SOFT as int),
            decreases t - q,
        {
            let p = cat.tail[q];
            let p2 = cat.tail[q + 1];
            let body_a: u64 = (tail_base + 2 * q) as u64;
            let body_b: u64 = (tail_base + 2 * q + 2) as u64;
            cmds.push(Command::CreateLimitJoint {
                body_a,
                body_b,
                anchor_b: Vec2 { x: p.x - p2.x, y: p.y - p2.y },
                lower: -TAIL_JOINT_LIMIT,
                upper: TAIL_JOINT_LIMIT,
            });
            cmds.push(Command::CreateMotorJoint {
                id: (tail_motor_base + q) as u64,
                body_a,
                body_b,
                max_force: MOTOR_MAX_FORCE,
                max_torque: TAIL_TORQUE,
                correction: CORRECTION_SOFT,
            });
            proof {
                assert(tpts[q as int] == cat.tail@[q as int]@);
                assert(tpts[q as int + 1] == cat.tail@[q as int + 1]@);
                assert(joint_cmds(tpts, q as int, tail_base as int, tail_motor_base as int,
                    TAIL_JOINT_LIMIT as int, TAIL_TORQUE as int, CORRECTION_SOFT as int)
                    == seq![
                        Command::CreateLimitJoint {
                            body_a: (tail_base + 2 * q) as u64,
                            body_b: (tail_base + 2 * q + 2) as u64,
                            anchor_b: Vec2 {
                                x: (tpts[q as int].0 - tpts[q as int + 1].0) as i64,
                                y: (tpts[q as int].1 - tpts[q as int + 1].1) as i64,
                            },
                            lower: (-(TAIL_JOINT_LIMIT as int)) as i64,
                            upper: TAIL_JOINT_LIMIT,
                        },
                        Command::CreateMotorJoint {
                            id: (tail_motor_base + q) as u64,
                            body_a: (tail_base + 2 * q) as u64,
                            body_b: (tail_base + 2 * q + 2) as u64,
                            max_force: MOTOR_MAX_FORCE,
                            max_torque: TAIL_TORQUE,
                            correction: CORRECTION_SOFT,
                        },
                    ] + joint_cmds(tpts, q as int + 1, tail_base as int, tail_motor_base as int,
                        TAIL_JOINT_LIMIT as int, TAIL_TORQUE as int, CORRECTION_SOFT as int));
                assert(cmds@ + joint_cmds(tpts, q as int + 1, tail_base as int,
                    tail_motor_base as int, TAIL_JOINT_LIMIT as int, TAIL_TORQUE as int,
                    CORRECTION_SOFT as int)
                    =~= after_root + joint_cmds(tpts, 0, tail_base as int, tail_motor_base as int,
                        TAIL_JOINT_LIMIT as int, TAIL_TORQUE as int, CORRECTION_SOFT as int));
            }
            q = q + 1;
        }

        // Head contact sensor on the head link.
        let sensor_id: usize = 3 * n + 3 * t - 1;
        let head_body: u64 = (2 * n - 2) as u64;
        cmds.push(Command::CreateCircleFixture {
            id: sensor_id as u64,
            body: head_body,
            radius: SENSOR_RADIUS,
            density: 0,
            friction: FIXTURE_FRICTION,
            restitution: FIXTURE_RESTITUTION,
            group: COLLISION_GROUP,
            sensor: true,
        });

        let controller = NoodleCat {
            links,
            muscles,
            targets,
            tail_links,
            head_sensor: sensor_id as u64,
            head_sensor_body: head_body,
            grab: None,
            grabbed: None,
            grab_d: None,
            walk_length: 0,
            extend_phase: FX_ONE,
            contracting: false,
            contract_phase: 0,
            next_id: (3 * n + 3 * t) as u64,
        };
        proof {
            assert(controller.links@.last() == (2 * (n - 1)) as u64);
            assert(cmds@ =~= construction_cmds(pts, tpts));
        }
        (controller, cmds)
    }


    /// Refresh the anchor joint on the sensed candidate: keep the grab
    /// margin along the normal, walk along the tangent when the heading
    /// projects onto it, and remember the surface normal.
    #[verifier::spinoff_prover]
    fn apply_grab(
        &mut self,
        cat: &Cat,
        a: AnchorCandidate,
        positions: &Vec<Vec2>,
        dt: i64,
        cmds: &mut Vec<Command>,
    )
        requires
            old(self).wf(),
            positions@.len() == old(self).links@.len(),
            points_bounded(positions@, POS_LIMIT as int),
            -COORD_LIMIT <= a.separation <= COORD_LIMIT,
            -2_000_000 <= a.normal.x <= 2_000_000,
            -2_000_000 <= a.normal.y <= 2_000_000,
            cat.direction matches Some(d) ==> -BODY_ANGLE_LIMIT <= d <= BODY_ANGLE_LIMIT,
            cat.direction is None ==> old(self).grabbed is Some,
            0 < dt <= FX_ONE,
        ensures
            ({
                let sensed = Some::<(int, (int, int), u64)>(
                    (a.separation as int, a.normal@, a.other),
                );
                &&& final(self).grab == Some(old(self).next_id)
                &&& final(self).grabbed == Some(grab_other(old(self).grabbed, sensed,
                    cat.direction))
                &&& final(self).grab_d == Some(a.normal)
                &&& final(self).next_id == bump(old(self).next_id)
                &&& final(self).walk_length as int == grab_walk(sensed, cat.direction,
                    dt as int)
                &&& final(cmds)@ == old(cmds)@ + grab_cmds(old(self).grab, true,
                    old(self).next_id, old(self).links@.last(),
                    grab_other(old(self).grabbed, sensed, cat.direction),
                    points_of(positions@).last(),
                    grab_anchor(points_of(positions@).last(), sensed, cat.direction,
                        dt as int))
            }),
            final(self).links == old(self).links,
            final(self).muscles == old(self).muscles,
            final(self).targets == old(self).targets,
            final(self).tail_links == old(self).tail_links,
            final(self).head_sensor == old(self).head_sensor,
            final(self).head_sensor_body == old(self).head_sensor_body,
            final(self).extend_phase == old(self).extend_phase,
            final(self).contracting == old(self).contracting,
            final(self).contract_phase == old(self).contract_phase,
            0 <= final(self).walk_length <= WALK_SWIM_RATE,
    {
        if let Some(old_joint) = self.grab {
            cmds.push(Command::DestroyJoint { id: old_joint });
        }
        let other: u64 = if cat.direction.is_some() {
            a.other
        } else {
            self.grabbed.unwrap()
        };
        let head_anchor: Vec2 = positions[positions.len() - 1];
        proof {
            assert(points_of(positions@).last() == positions@.last()@);
        }
        let mut other_anchor: Vec2 = head_anchor;
        let mut wl: i64 = 0;
        if let Some(d) = cat.direction {
            proof {
                crate::math::lemma_unit_range(d as int);
                lemma_fx_mul_le(a.normal.x as int, a.separation + GRAB_MARGIN, 2_000_000,
                    2_300_000_000);
                lemma_fx_mul_le(a.normal.y as int, a.separation + GRAB_MARGIN, 2_000_000,
                    2_300_000_000);
            }
            let dv: Vec2 = Vec2::from_angle(d);
            other_anchor = other_anchor.add(a.normal.scale(a.separation + GRAB_MARGIN));
            let tangent: Vec2 = a.normal.rotated(vec2(0, FX_ONE));
            proof {
                lemma_fx_mul_le(a.normal.x as int, 0, 2_000_000, 1);
                lemma_fx_mul_le(a.normal.x as int, FX_ONE as int, 2_000_000, FX_ONE as int);
                lemma_fx_mul_le(a.normal.y as int, 0, 2_000_000, 1);
                lemma_fx_mul_le(a.normal.y as int, FX_ONE as int, 2_000_000, FX_ONE as int);
            }
            let proj: i64 = tangent.dot(dv);
            proof {
                lemma_fx_mul_le(tangent.x as int, dv.x as int, 4_000_001, 10_000_000);
                lemma_fx_mul_le(tangent.y as int, dv.y as int, 4_000_001, 10_000_000);
            }
            if fx_abs(proj) > WALK_PROJECTION_MIN {
                wl = fx_mul(WALK_GRAB_RATE, dt);
                proof {
                    lemma_fx_mul_le(WALK_GRAB_RATE as int, dt as int, WALK_GRAB_RATE as int,
                        FX_ONE as int);
                    lemma_fx_mul_nonneg(WALK_GRAB_RATE as int, dt as int);
                    lemma_fx_mul_le(tangent.x as int, wl as int, 4_000_001,
                        WALK_GRAB_RATE as int);
                    lemma_fx_mul_le(tangent.y as int, wl as int, 4_000_001,
                        WALK_GRAB_RATE as int);
                    lemma_fx_mul_le(tangent.x as int, -(wl as int), 4_000_001,
                        WALK_GRAB_RATE as int);
                    lemma_fx_mul_le(tangent.y as int, -(wl as int), 4_000_001,
                        WALK_GRAB_RATE as int);
                }
                let step: i64 = if proj >= 0 {
                    wl
                } else {
                    -wl
                };
                other_anchor = other_anchor.add(tangent.scale(step));
            }
        }
        self.walk_length = wl;
        let head_link: u64 = self.links[self.links.len() - 1];
        let gid: u64 = self.fresh_id();
        cmds.push(Command::CreateGrabJoint {
            id: gid,
            head: head_link,
            other,
            anchor_head: head_anchor,
            anchor_other: other_anchor,
        });
        self.grab = Some(gid);
        self.grabbed = Some(other);
        self.grab_d = Some(a.normal);
        proof {
            let sensed = Some::<(int, (int, int), u64)>(
                (a.separation as int, a.normal@, a.other),
            );
            assert(other_anchor@ == grab_anchor(points_of(positions@).last(), sensed,
                cat.direction, dt as int));
            assert(cmds@ =~= old(cmds)@ + grab_cmds(old(self).grab, true, old(self).next_id,
                old(self).links@.last(), grab_other(old(self).grabbed, sensed, cat.direction),
                points_of(positions@).last(),
                grab_anchor(points_of(positions@).last(), sensed, cat.direction, dt as int)));
        }
    }

    /// Sense, decide and act on the grab state machine: destroy or recreate
    /// the anchor joint, and record the walking advance it grants.
    #[verifier::rlimit(100)]
    #[verifier::spinoff_prover]
    fn grab_phase(
        &mut self,
        cat: &Cat,
        contacts: &Vec<ContactSample>,
        positions: &Vec<Vec2>,
        dt: i64,
        cmds: &mut Vec<Command>,
    ) -> (g: bool)
        requires
            old(self).wf(),
            positions@.len() == old(self).links@.len(),
            points_bounded(positions@, POS_LIMIT as int),
            forall|i: int| 0 <= i < contacts@.len() ==> sample_bounded(#[trigger] contacts@[i]),
            cat.direction matches Some(d) ==> -BODY_ANGLE_LIMIT <= d <= BODY_ANGLE_LIMIT,
            0 < dt <= FX_ONE,
        ensures
            ({
                let sensed = select_val(contacts@);
                &&& g == grab_decision(old(self).grab is Some, sensed, cat.direction,
                    cat.turning, cat.extending)
                &&& (final(self).grab is Some <==> g)
                &&& (g ==> final(self).grab == Some(old(self).next_id)
                    && final(self).grabbed == Some(grab_other(old(self).grabbed, sensed,
                        cat.direction))
                    && (final(self).grab_d matches Some(nv) && nv@ == (sensed->0).1)
                    && final(self).next_id == bump(old(self).next_id))
                &&& (!g ==> final(self).grab is None && final(self).grab_d is None
                    && final(self).grabbed == old(self).grabbed
                    && final(self).next_id == old(self).next_id)
                &&& final(self).walk_length as int == (if g {
                    grab_walk(sensed, cat.direction, dt as int)
                } else {
                    0
                })
                &&& final(cmds)@ == old(cmds)@ + grab_cmds(old(self).grab, g,
                    old(self).next_id, old(self).links@.last(),
                    grab_other(old(self).grabbed, sensed, cat.direction),
                    points_of(positions@).last(),
                    grab_anchor(points_of(positions@).last(), sensed, cat.direction,
                        dt as int))
            }),
            final(self).links == old(self).links,
            final(self).muscles == old(self).muscles,
            final(self).targets == old(self).targets,
            final(self).tail_links == old(self).tail_links,
            final(self).head_sensor == old(self).head_sensor,
            final(self).head_sensor_body == old(self).head_sensor_body,
            final(self).extend_phase == old(self).extend_phase,
            final(self).contracting == old(self).contracting,
            final(self).contract_phase == old(self).contract_phase,
            0 <= final(self).walk_length <= WALK_SWIM_RATE,
    {
        self.walk_length = 0;
        let anchor: Option<AnchorCandidate> = select_anchor(contacts);
        let ghost sensed = select_val(contacts@);
        proof {
            crate::sensor::lemma_select_bounded(contacts@);
        }

        let prev_grab: bool = self.grab.is_some();
        let mut g: bool = match &anchor {
            Some(a) => a.separation < GRAB_SEPARATION || prev_grab,
            None => false,
        };
        if g {
            if let Some(d) = cat.direction {
                match &anchor {
                    Some(a) => {
                        proof {
                            crate::math::lemma_unit_range(d as int);
                        }
                        let dv: Vec2 = Vec2::from_angle(d);
                        g = dv.dot(a.normal) > GRAB_DOT_CUTOFF;
                    },
                    None => {
                        proof {
                            assert(false);
                        }
                    },
                }
            } else {
                if !prev_grab {
                    g = false;
                }
            }
        }
        if cat.turning || cat.extending {
            g = false;
        }
        proof {
            assert(g == grab_decision(old(self).grab is Some, sensed, cat.direction,
                cat.turning, cat.extending));
        }

        if g {
            let a: AnchorCandidate = anchor.unwrap();
            self.apply_grab(cat, a, positions, dt, cmds);
            proof {
                assert(sensed == Some::<(int, (int, int), u64)>(
                    (a.separation as int, a.normal@, a.other)));
                assert(cmds@ =~= old(cmds)@ + grab_cmds(old(self).grab, g,
                    old(self).next_id, old(self).links@.last(),
                    grab_other(old(self).grabbed, sensed, cat.direction),
                    points_of(positions@).last(),
                    grab_anchor(points_of(positions@).last(), sensed, cat.direction,
                        dt as int)));
            }
        } else {
            if let Some(old_joint) = self.grab {
                cmds.push(Command::DestroyJoint { id: old_joint });
            }
            self.grab = None;
            self.grab_d = None;
            proof {
                assert(cmds@ =~= old(cmds)@ + grab_cmds(old(self).grab, g,
                    old(self).next_id, old(self).links@.last(),
                    grab_other(old(self).grabbed, sensed, cat.direction),
                    points_of(positions@).last(),
                    grab_anchor(points_of(positions@).last(), sensed, cat.direction,
                        dt as int)));
            }
        }
        g
    }

    /// Write this tick's motor targets, push the creature along its heading
    /// while free, and correct stretch while anchored.
    fn move_phase(&mut self, cat: &Cat, g: bool, dt: i64, cmds: &mut Vec<Command>)
        requires
            old(self).wf(),
            cat.path@.len() == old(self).links@.len(),
            points_bounded(cat.path@, POS_LIMIT as int),
            cat.direction matches Some(d) ==> -BODY_ANGLE_LIMIT <= d <= BODY_ANGLE_LIMIT,
            0 < dt <= FX_ONE,
            0 <= old(self).walk_length <= WALK_SWIM_RATE,
        ensures
            final(self).targets@ == tick_targets(old(self).muscles@.len(), points_of(cat.path@),
                cat.direction, g, cat.flying),
            final(self).walk_length as int == (if !g && cat.direction is Some && !cat.flying {
                fx_mul_val(WALK_SWIM_RATE as int, dt as int)
            } else {
                old(self).walk_length as int
            }),
            0 <= final(self).walk_length <= WALK_SWIM_RATE,
            final(self).links == old(self).links,
            final(self).muscles == old(self).muscles,
            final(self).tail_links == old(self).tail_links,
            final(self).head_sensor == old(self).head_sensor,
            final(self).head_sensor_body == old(self).head_sensor_body,
            final(self).grab == old(self).grab,
            final(self).grabbed == old(self).grabbed,
            final(self).grab_d == old(self).grab_d,
            final(self).extend_phase == old(self).extend_phase,
            final(self).contracting == old(self).contracting,
            final(self).contract_phase == old(self).contract_phase,
            final(self).next_id == old(self).next_id,
            ({
                let pts_path = points_of(cat.path@);
                let tt = tick_targets(old(self).muscles@.len(), pts_path, cat.direction, g,
                    cat.flying);
                let head_link = old(self).links@.last();
                let l0 = old(self).links@.len() as int;
                final(cmds)@ == old(cmds)@ + (if g {
                    motor_cmds(old(self).muscles@, tt)
                        + follow_from(old(self).links@, pts_path, l0 - 2, 0)
                } else {
                    (match cat.direction {
                        Option::Some(d) => if cat.flying {
                            seq![
                                Command::SetLinearVelocity {
                                    body: head_link,
                                    velocity: Vec2 {
                                        x: scale_val(from_angle_val(d as int),
                                            FLY_SPEED as int).0 as i64,
                                        y: scale_val(from_angle_val(d as int),
                                            FLY_SPEED as int).1 as i64,
                                    },
                                },
                            ]
                        } else {
                            seq![
                                Command::ApplyForce {
                                    body: head_link,
                                    force: Vec2 {
                                        x: scale_val(from_angle_val(d as int),
                                            l0 * FX_ONE).0 as i64,
                                        y: scale_val(from_angle_val(d as int),
                                            l0 * FX_ONE).1 as i64,
                                    },
                                },
                            ]
                        },
                        Option::None => Seq::empty(),
                    }) + motor_cmds(old(self).muscles@, tt)
                })
            }),
    {
        let ghost entry_cmds = cmds@;
        let new_targets: Vec<MuscleTarget> = compute_targets(&cat.path, cat.direction, g,
            cat.flying);
        let head_link: u64 = self.links[self.links.len() - 1];
        if !g {
            if let Some(d) = cat.direction {
                proof {
                    crate::math::lemma_unit_range(d as int);
                }
                let dv: Vec2 = Vec2::from_angle(d);
                if cat.flying {
                    proof {
                        lemma_fx_mul_le(dv.x as int, FLY_SPEED as int, 10_000_000,
                            FLY_SPEED as int);
                        lemma_fx_mul_le(dv.y as int, FLY_SPEED as int, 10_000_000,
                            FLY_SPEED as int);
                    }
                    cmds.push(Command::SetLinearVelocity {
                        body: head_link,
                        velocity: dv.scale(FLY_SPEED),
                    });
                } else {
                    let flen: i64 = (self.links.len() as i64) * FX_ONE;
                    proof {
                        lemma_fx_mul_le(dv.x as int, flen as int, 10_000_000,
                            10_000_000_000_000);
                        lemma_fx_mul_le(dv.y as int, flen as int, 10_000_000,
                            10_000_000_000_000);
                    }
                    cmds.push(Command::ApplyForce { body: head_link, force: dv.scale(flen) });
                    self.walk_length = fx_mul(WALK_SWIM_RATE, dt);
                    proof {
                        lemma_fx_mul_le(WALK_SWIM_RATE as int, dt as int,
                            WALK_SWIM_RATE as int, FX_ONE as int);
                        lemma_fx_mul_nonneg(WALK_SWIM_RATE as int, dt as int);
                    }
                }
            }
        }
        let motor: Vec<Command> = motor_commands(&self.muscles, &new_targets);
        push_all(cmds, &motor);
        if g {
            let follow: Vec<Command> = follow_commands(&self.links, &cat.path);
            push_all(cmds, &follow);
            proof {
                let pts_path = points_of(cat.path@);
                let tt = tick_targets(old(self).muscles@.len(), pts_path, cat.direction, g,
                    cat.flying);
                let l0 = old(self).links@.len() as int;
                assert(cmds@ =~= entry_cmds + (motor_cmds(old(self).muscles@, tt)
                    + follow_from(old(self).links@, pts_path, l0 - 2, 0)));
            }
        } else {
            proof {
                let pts_path = points_of(cat.path@);
                let tt = tick_targets(old(self).muscles@.len(), pts_path, cat.direction, g,
                    cat.flying);
                assert(cmds@ =~= entry_cmds + (cmds@.subrange(entry_cmds.len() as int,
                    cmds@.len() as int)));
            }
        }
        self.targets = new_targets;
    }

    /// Advance the growth counter and materialize a new head link on each
    /// crossing, moving the head sensor onto it.
    fn extend_step(&mut self, cat: &Cat, angles: &Vec<i64>, dt: i64, cmds: &mut Vec<Command>)
        requires
            1 <= old(self).links@.len() <= CHAIN_MAX,
            old(self).links@.len() == 1 ==> old(self).extend_phase == FX_ONE,
            old(self).muscles@.len() + 1 == old(self).links@.len(),
            old(self).targets@.len() == old(self).muscles@.len(),
            old(self).head_sensor_body == old(self).links@.last(),
            0 <= old(self).extend_phase <= PHASE_MAX,
            cat.path@.len() == old(self).links@.len(),
            angles@.len() == old(self).links@.len(),
            points_bounded(cat.path@, POS_LIMIT as int),
            angles_bounded(angles@, BODY_ANGLE_LIMIT as int),
            0 < dt <= FX_ONE,
        ensures
            ({
                let l0 = old(self).links@.len() as int;
                let ep_up = phase_up(old(self).extend_phase as int, dt as int);
                let ext = cat.extending && l0 < LENGTH_CAP && ep_up > FX_ONE;
                let body_id = old(self).next_id;
                let mot = bump(bump(old(self).next_id));
                let sens = bump(bump(bump(old(self).next_id)));
                &&& final(self).links@ == (if ext { old(self).links@.push(body_id) } else {
                    old(self).links@
                })
                &&& final(self).muscles@ == (if ext { old(self).muscles@.push(mot) } else {
                    old(self).muscles@
                })
                &&& final(self).targets@ == (if ext {
                    old(self).targets@.push(relaxed_target())
                } else {
                    old(self).targets@
                })
                &&& final(self).head_sensor == (if ext { sens } else {
                    old(self).head_sensor
                })
                &&& final(self).head_sensor_body == (if ext { body_id } else {
                    old(self).head_sensor_body
                })
                &&& final(self).next_id == (if ext {
                    bump(bump(bump(bump(old(self).next_id))))
                } else {
                    old(self).next_id
                })
                &&& final(self).extend_phase as int == (if cat.extending && l0 < LENGTH_CAP {
                    if ext { ep_up - FX_ONE } else { ep_up }
                } else if ep_up > FX_ONE {
                    FX_ONE as int
                } else {
                    ep_up
                })
                &&& final(cmds)@ == old(cmds)@ + (if ext {
                    extend_cmds(old(self).links@.last(), old(self).head_sensor, body_id,
                        bump(old(self).next_id), mot, sens,
                        add_val(points_of(cat.path@).last(), scale_val(
                            from_angle_val(angles@.last() as int), SEGMENT_LENGTH as int)),
                        angles@.last())
                } else {
                    Seq::empty()
                })
            }),
            final(self).tail_links == old(self).tail_links,
            final(self).grab == old(self).grab,
            final(self).grabbed == old(self).grabbed,
            final(self).grab_d == old(self).grab_d,
            final(self).walk_length == old(self).walk_length,
            final(self).contracting == old(self).contracting,
            final(self).contract_phase == old(self).contract_phase,
            0 <= final(self).extend_phase <= PHASE_MAX,
            final(self).links@.len() == 1 ==> final(self).extend_phase == FX_ONE,
    {
        let delta: i64 = fx_mul(GROWTH_RATE, dt);
        proof {
            lemma_fx_mul_le(GROWTH_RATE as int, dt as int, GROWTH_RATE as int, FX_ONE as int);
            lemma_fx_mul_nonneg(GROWTH_RATE as int, dt as int);
            assert(GROWTH_RATE * (dt as int) >= GROWTH_RATE * 1) by (nonlinear_arith)
                requires
                    dt >= 1,
            ;
            lemma_div_is_ordered(GROWTH_RATE as int, GROWTH_RATE * (dt as int),
                FX_ONE as int);
            assert(delta >= 80);
        }
        let mut ep: i64 = if self.extend_phase + delta > PHASE_MAX {
            PHASE_MAX
        } else {
            self.extend_phase + delta
        };
        let len0: usize = self.links.len();
        if cat.extending && len0 < LENGTH_CAP {
            if ep > FX_ONE {
                let prev_head: u64 = self.links[len0 - 1];
                let old_sensor: u64 = self.head_sensor;
                let angle: i64 = angles[angles.len() - 1];
                let ph: Vec2 = cat.path[cat.path.len() - 1];
                proof {
                    crate::math::lemma_unit_range(angle as int);
                    assert(points_of(cat.path@).last() == cat.path@.last()@);
                }
                let unit: Vec2 = Vec2::from_angle(angle);
                proof {
                    lemma_fx_mul_le(unit.x as int, SEGMENT_LENGTH as int, 10_000_000,
                        SEGMENT_LENGTH as int);
                    lemma_fx_mul_le(unit.y as int, SEGMENT_LENGTH as int, 10_000_000,
                        SEGMENT_LENGTH as int);
                }
                let p2: Vec2 = ph.add(unit.scale(SEGMENT_LENGTH));
                let body_id: u64 = self.fresh_id();
                let fix_id: u64 = self.fresh_id();
                let motor_id: u64 = self.fresh_id();
                let sensor_id: u64 = self.fresh_id();
                cmds.push(Command::CreateBody {
                    id: body_id,
                    position: p2,
                    angle,
                    gravity_scale: FX_ONE,
                    linear_damping: LINEAR_DAMPING,
                    angular_damping: ANGULAR_DAMPING,
                });
                cmds.push(Command::CreateCircleFixture {
                    id: fix_id,
                    body: body_id,
                    radius: LINK_RADIUS,
                    density: FIXTURE_DENSITY,
                    friction: FIXTURE_FRICTION,
                    restitution: FIXTURE_RESTITUTION,
                    group: COLLISION_GROUP,
                    sensor: false,
                });
                cmds.push(Command::CreateLimitJoint {
                    body_a: prev_head,
                    body_b: body_id,
                    anchor_b: vec2(-SEGMENT_LENGTH, 0),
                    lower: -JOINT_LIMIT,
                    upper: JOINT_LIMIT,
                });
                cmds.push(Command::CreateMotorJoint {
                    id: motor_id,
                    body_a: prev_head,
                    body_b: body_id,
                    max_force: MOTOR_MAX_FORCE,
                    max_torque: BASE_TORQUE,
                    correction: CORRECTION_FULL,
                });
                cmds.push(Command::DestroyFixture { body: prev_head, fixture: old_sensor });
                cmds.push(Command::CreateCircleFixture {
                    id: sensor_id,
                    body: body_id,
                    radius: SENSOR_RADIUS,
                    density: 0,
                    friction: FIXTURE_FRICTION,
                    restitution: FIXTURE_RESTITUTION,
                    group: COLLISION_GROUP,
                    sensor: true,
                });
                self.links.push(body_id);
                self.muscles.push(motor_id);
                self.targets.push(MuscleTarget { offset: 0, torque: BASE_TORQUE });
                self.head_sensor = sensor_id;
                self.head_sensor_body = body_id;
                ep = ep - FX_ONE;
                proof {
                    assert(cmds@ =~= old(cmds)@ + extend_cmds(old(self).links@.last(),
                        old(self).head_sensor, body_id, fix_id, motor_id, sensor_id,
                        add_val(points_of(cat.path@).last(), scale_val(
                            from_angle_val(angles@.last() as int), SEGMENT_LENGTH as int)),
                        angles@.last()));
                }
            }
        } else {
            if ep > FX_ONE {
                ep = FX_ONE;
            }
        }
        self.extend_phase = ep;
    }

    /// Advance the shrink counter; once armed and run out, remove the butt
    /// link and hang the tail root on the new butt.
    fn contract_step(&mut self, cat: &Cat, dt: i64, cmds: &mut Vec<Command>)
        requires
            1 <= old(self).links@.len() <= CHAIN_MAX,
            old(self).muscles@.len() + 1 == old(self).links@.len(),
            old(self).targets@.len() == old(self).muscles@.len(),
            1 <= old(self).tail_links@.len(),
            old(self).contracting ==> old(self).links@.len() > LENGTH_FLOOR,
            !old(self).contracting ==> old(self).contract_phase <= 0,
            -PHASE_MAX <= old(self).contract_phase <= FX_ONE,
            0 < dt <= FX_ONE,
        ensures
            ({
                let cp_dn = phase_down(old(self).contract_phase as int, dt as int);
                let fire = old(self).contracting && cp_dn <= 0;
                &&& final(self).links@ == (if fire { old(self).links@.drop_first() } else {
                    old(self).links@
                })
                &&& final(self).muscles@ == (if fire {
                    old(self).muscles@.drop_first()
                } else {
                    old(self).muscles@
                })
                &&& final(self).targets@ == (if fire {
                    old(self).targets@.drop_first()
                } else {
                    old(self).targets@
                })
                &&& final(self).next_id == (if fire { bump(old(self).next_id) } else {
                    old(self).next_id
                })
                &&& final(self).contracting == (if fire {
                    false
                } else if cat.contracting && old(self).links@.len() > LENGTH_FLOOR
                    && cp_dn < 0 {
                    true
                } else {
                    old(self).contracting
                })
                &&& final(self).contract_phase as int == (if fire {
                    cp_dn
                } else if cat.contracting && old(self).links@.len() > LENGTH_FLOOR {
                    if cp_dn < 0 { cp_dn + FX_ONE } else { cp_dn }
                } else if cp_dn < 0 {
                    0
                } else {
                    cp_dn
                })
                &&& final(cmds)@ == old(cmds)@ + (if fire {
                    contract_cmds(old(self).links@[0], old(self).links@[1],
                        old(self).tail_links@[0], old(self).next_id)
                } else {
                    Seq::empty()
                })
            }),
            final(self).tail_links == old(self).tail_links,
            final(self).grab == old(self).grab,
            final(self).grabbed == old(self).grabbed,
            final(self).grab_d == old(self).grab_d,
            final(self).walk_length == old(self).walk_length,
            final(self).extend_phase == old(self).extend_phase,
            final(self).head_sensor == old(self).head_sensor,
            final(self).head_sensor_body == old(self).head_sensor_body,
            -PHASE_MAX <= final(self).contract_phase <= FX_ONE,
            final(self).contracting ==> final(self).links@.len() > LENGTH_FLOOR,
            !final(self).contracting ==> final(self).contract_phase <= 0,
    {
        let delta: i64 = fx_mul(GROWTH_RATE, dt);
        proof {
            lemma_fx_mul_le(GROWTH_RATE as int, dt as int, GROWTH_RATE as int, FX_ONE as int);
            lemma_fx_mul_nonneg(GROWTH_RATE as int, dt as int);
        }
        let cp: i64 = if self.contract_phase - delta < -PHASE_MAX {
            -PHASE_MAX
        } else {
            self.contract_phase - delta
        };
        if self.contracting && cp <= 0 {
            let butt: u64 = self.links[0];
            let new_butt: u64 = self.links[1];
            let tail_root: u64 = self.tail_links[0];
            let contract_motor: u64 = self.fresh_id();
            cmds.push(Command::DestroyBody { id: butt });
            cmds.push(Command::CreateLimitJoint {
                body_a: new_butt,
                body_b: tail_root,
                anchor_b: vec2(TAIL_ROOT_ANCHOR, 0),
                lower: -TAIL_ROOT_LIMIT,
                upper: TAIL_ROOT_LIMIT,
            });
            cmds.push(Command::CreateMotorJoint {
                id: contract_motor,
                body_a: new_butt,
                body_b: tail_root,
                max_force: MOTOR_MAX_FORCE,
                max_torque: TAIL_ROOT_TORQUE,
                correction: CORRECTION_SOFT,
            });
            self.links.remove(0);
            self.muscles.remove(0);
            self.targets.remove(0);
            self.contracting = false;
            self.contract_phase = cp;
            proof {
                assert(self.links@ =~= old(self).links@.drop_first());
                assert(self.muscles@ =~= old(self).muscles@.drop_first());
                assert(self.targets@ =~= old(self).targets@.drop_first());
                assert(cmds@ =~= old(cmds)@ + contract_cmds(old(self).links@[0],
                    old(self).links@[1], old(self).tail_links@[0], old(self).next_id));
            }
        } else if cat.contracting && self.links.len() > LENGTH_FLOOR {
            if cp < 0 {
                self.contracting = true;
                self.contract_phase = cp + FX_ONE;
            } else {
                self.contract_phase = cp;
            }
        } else {
            self.contract_phase = if cp < 0 {
                0
            } else {
                cp
            };
        }
    }

    /// One control tick.
    ///
    /// Consumes the control intent, the contacts sensed around the head, and
    /// the true body positions and angles read back from the engine, and
    /// returns the engine commands of this tick: grab and release, motor
    /// targets, swimming or flying propulsion, stretch correction while
    /// anchored, turning teleports, and growth at the ends of the chain.
    /// Every piece of the new state is pinned to a spec-level formula, so
    /// repeated calls on the same inputs are fully deterministic.
    #[verifier::rlimit(100)]
    pub fn control(
        &mut self,
        cat: &Cat,
        contacts: &Vec<ContactSample>,
        positions: &Vec<Vec2>,
        angles: &Vec<i64>,
        dt: i64,
    ) -> (cmds: Vec<Command>)
        requires
            old(self).wf(),
            cat.path@.len() == old(self).links@.len(),
            positions@.len() == old(self).links@.len(),
            angles@.len() == old(self).links@.len(),
            points_bounded(cat.path@, POS_LIMIT as int),
            points_bounded(positions@, POS_LIMIT as int),
            angles_bounded(angles@, BODY_ANGLE_LIMIT as int),
            forall|i: int| 0 <= i < contacts@.len() ==> sample_bounded(#[trigger] contacts@[i]),
            cat.direction matches Some(d) ==> -BODY_ANGLE_LIMIT <= d <= BODY_ANGLE_LIMIT,
            0 < dt <= FX_ONE,
        ensures
            final(self).wf(),
            final(self).tail_links == old(self).tail_links,
            old(self).links@.len() >= LENGTH_FLOOR ==> final(self).links@.len() >= LENGTH_FLOOR,
            (
                final(self).links@.len() as int,
                final(self).extend_phase as int,
                final(self).contract_phase as int,
                final(self).contracting,
            ) == growth_next(
                (
                    old(self).links@.len() as int,
                    old(self).extend_phase as int,
                    old(self).contract_phase as int,
                    old(self).contracting,
                ),
                cat.extending,
                cat.contracting,
                dt as int,
            ),
            ({
                let sensed = select_val(contacts@);
                let g = grab_decision(old(self).grab is Some, sensed, cat.direction,
                    cat.turning, cat.extending);
                &&& (final(self).grab is Some <==> g)
                &&& (g ==> final(self).grab == Some(old(self).next_id)
                    && final(self).grabbed == Some(grab_other(old(self).grabbed, sensed,
                        cat.direction))
                    && (final(self).grab_d matches Some(nv) && nv@ == (sensed->0).1))
                &&& (!g ==> final(self).grab is None && final(self).grab_d is None
                    && final(self).grabbed == old(self).grabbed)
                &&& final(self).walk_length as int == (if g {
                    grab_walk(sensed, cat.direction, dt as int)
                } else if cat.direction is Some && !cat.flying {
                    fx_mul_val(WALK_SWIM_RATE as int, dt as int)
                } else {
                    0
                })
            }),
            ({
                let sensed = select_val(contacts@);
                let g = grab_decision(old(self).grab is Some, sensed, cat.direction,
                    cat.turning, cat.extending);
                let l0 = old(self).links@.len() as int;
                let ep_up = phase_up(old(self).extend_phase as int, dt as int);
                let ext = cat.extending && l0 < LENGTH_CAP && ep_up > FX_ONE;
                let n1 = if g { bump(old(self).next_id) } else { old(self).next_id };
                let body_id = n1;
                let mot = bump(bump(n1));
                let sens = bump(bump(bump(n1)));
                let n2 = if ext { bump(bump(bump(bump(n1)))) } else { n1 };
                let links1 = if ext { old(self).links@.push(body_id) } else { old(self).links@ };
                let muscles1 = if ext { old(self).muscles@.push(mot) } else {
                    old(self).muscles@
                };
                let t1 = {
                    let tt = tick_targets(old(self).muscles@.len(), points_of(cat.path@),
                        cat.direction, g, cat.flying);
                    if ext { tt.push(relaxed_target()) } else { tt }
                };
                let cp_dn = phase_down(old(self).contract_phase as int, dt as int);
                let fire = old(self).contracting && cp_dn <= 0;
                &&& final(self).links@ == (if fire { links1.drop_first() } else { links1 })
                &&& final(self).muscles@ == (if fire { muscles1.drop_first() } else { muscles1 })
                &&& final(self).targets@ == (if fire { t1.drop_first() } else { t1 })
                &&& final(self).head_sensor == (if ext { sens } else { old(self).head_sensor })
                &&& final(self).head_sensor_body == (if ext { body_id } else {
                    old(self).head_sensor_body
                })
                &&& final(self).next_id == (if fire { bump(n2) } else { n2 })
                &&& final(self).extend_phase as int == (if cat.extending && l0 < LENGTH_CAP {
                    if ext { ep_up - FX_ONE } else { ep_up }
                } else if ep_up > FX_ONE {
                    FX_ONE as int
                } else {
                    ep_up
                })
                &&& final(self).contracting == (if fire {
                    false
                } else if cat.contracting && links1.len() > LENGTH_FLOOR && cp_dn < 0 {
                    true
                } else {
                    old(self).contracting
                })
                &&& final(self).contract_phase as int == (if fire {
                    cp_dn
                } else if cat.contracting && links1.len() > LENGTH_FLOOR {
                    if cp_dn < 0 { cp_dn + FX_ONE } else { cp_dn }
                } else if cp_dn < 0 {
                    0
                } else {
                    cp_dn
                })
            }),
            ({
                let sensed = select_val(contacts@);
                let g = grab_decision(old(self).grab is Some, sensed, cat.direction,
                    cat.turning, cat.extending);
                let l0 = old(self).links@.len() as int;
                let pts_path = points_of(cat.path@);
                let pos = points_of(positions@);
                let head_link = old(self).links@.last();
                let tt = tick_targets(old(self).muscles@.len(), pts_path, cat.direction, g,
                    cat.flying);
                let ep_up = phase_up(old(self).extend_phase as int, dt as int);
                let ext = cat.extending && l0 < LENGTH_CAP && ep_up > FX_ONE;
                let n1 = if g { bump(old(self).next_id) } else { old(self).next_id };
                let n2 = if ext { bump(bump(bump(bump(n1)))) } else { n1 };
                let links1 = if ext { old(self).links@.push(n1) } else { old(self).links@ };
                let cp_dn = phase_down(old(self).contract_phase as int, dt as int);
                let fire = old(self).contracting && cp_dn <= 0;
                let grab_seq = grab_cmds(old(self).grab, g, old(self).next_id, head_link,
                    grab_other(old(self).grabbed, sensed, cat.direction), pos.last(),
                    grab_anchor(pos.last(), sensed, cat.direction, dt as int));
                let move_seq: Seq<Command> = if g {
                    motor_cmds(old(self).muscles@, tt)
                        + follow_from(old(self).links@, pts_path, l0 - 2, 0)
                } else {
                    (match cat.direction {
                        Option::Some(d) => if cat.flying {
                            seq![
                                Command::SetLinearVelocity {
                                    body: head_link,
                                    velocity: Vec2 {
                                        x: scale_val(from_angle_val(d as int),
                                            FLY_SPEED as int).0 as i64,
                                        y: scale_val(from_angle_val(d as int),
                                            FLY_SPEED as int).1 as i64,
                                    },
                                },
                            ]
                        } else {
                            seq![
                                Command::ApplyForce {
                                    body: head_link,
                                    force: Vec2 {
                                        x: scale_val(from_angle_val(d as int),
                                            l0 * FX_ONE).0 as i64,
                                        y: scale_val(from_angle_val(d as int),
                                            l0 * FX_ONE).1 as i64,
                                    },
                                },
                            ]
                        },
                        Option::None => Seq::empty(),
                    }) + motor_cmds(old(self).muscles@, tt)
                };
                let turn_seq: Seq<Command> = if cat.turning {
                    turn_cmds(old(self).links@, old(self).tail_links@, pos, angles@)
                } else {
                    Seq::empty()
                };
                let ext_seq: Seq<Command> = if ext {
                    extend_cmds(head_link, old(self).head_sensor, n1, bump(n1),
                        bump(bump(n1)), bump(bump(bump(n1))),
                        add_val(pts_path.last(), scale_val(
                            from_angle_val(angles@.last() as int), SEGMENT_LENGTH as int)),
                        angles@.last())
                } else {
                    Seq::empty()
                };
                let con_seq: Seq<Command> = if fire {
                    contract_cmds(links1[0], links1[1], old(self).tail_links@[0], n2)
                } else {
                    Seq::empty()
                };
                cmds@ == grab_seq + move_seq + turn_seq + ext_seq + con_seq
            }),
    {
        let mut cmds: Vec<Command> = Vec::new();
        let g: bool = self.grab_phase(cat, contacts, positions, dt, &mut cmds);
        let ghost after_grab = cmds@;
        self.move_phase(cat, g, dt, &mut cmds);
        if cat.turning {
            let turn: Vec<Command> = turn_commands(&self.links, &self.tail_links, positions,
                angles);
            push_all(&mut cmds, &turn);
        }
        self.extend_step(cat, angles, dt, &mut cmds);
        self.contract_step(cat, dt, &mut cmds);
        proof {
            let sensed = select_val(contacts@);
            let pos = points_of(positions@);
            let grab_seq = grab_cmds(old(self).grab, g, old(self).next_id,
                old(self).links@.last(), grab_other(old(self).grabbed, sensed, cat.direction),
                pos.last(), grab_anchor(pos.last(), sensed, cat.direction, dt as int));
            assert(Seq::<Command>::empty() + grab_seq =~= grab_seq);
            assert(after_grab == grab_seq);
        }
        cmds
    }

    /// Copy the sampled body positions out for rendering, easing the head
    /// and butt samples while a link grows or shrinks, and advance the walk
    /// phase while the creature is steering.
    pub fn update(&self, cat: &mut Cat, positions: &Vec<Vec2>, tail_positions: &Vec<Vec2>)
        requires
            self.wf(),
            positions@.len() == self.links@.len(),
            tail_positions@.len() == self.tail_links@.len(),
            points_bounded(positions@, POS_LIMIT as int),
            points_bounded(tail_positions@, POS_LIMIT as int),
        ensures
            points_of(final(cat).path@) == eased_path(points_of(positions@),
                self.extend_phase as int, self.contract_phase as int),
            final(cat).path@.len() == positions@.len(),
            final(cat).tail@ == tail_positions@,
            final(cat).grab_d == self.grab_d,
            final(cat).walk_phase as int == (if old(cat).direction is Some {
                walk_adv(old(cat).walk_phase as int, self.walk_length as int)
            } else {
                0
            }),
            final(cat).direction == old(cat).direction,
            final(cat).turning == old(cat).turning,
            final(cat).extending == old(cat).extending,
            final(cat).contracting == old(cat).contracting,
            final(cat).flying == old(cat).flying,
    {
        let ghost base = points_of(positions@);
        let mut path: Vec<Vec2> = Vec::new();
        let mut i: usize = 0;
        while i < positions.len()
            invariant
                0 <= i <= positions@.len(),
                path@ == positions@.take(i as int),
            decreases positions@.len() - i,
        {
            path.push(positions[i]);
            proof {
                assert(path@ =~= positions@.take(i as int + 1));
            }
            i = i + 1;
        }
        proof {
            assert(positions@.take(positions@.len() as int) =~= positions@);
        }
        let len: usize = path.len();
        if self.extend_phase < FX_ONE {
            let prev: Vec2 = path[len - 2];
            let head: Vec2 = path[len - 1];
            proof {
                lemma_fx_mul_le(head.x - prev.x, self.extend_phase as int, 2_000_000_000,
                    FX_ONE as int);
                lemma_fx_mul_le(head.y - prev.y, self.extend_phase as int, 2_000_000_000,
                    FX_ONE as int);
            }
            let eased: Vec2 = prev.add(head.sub(prev).scale(self.extend_phase));
            path.set(len - 1, eased);
        }
        if self.contract_phase > 0 {
            let next: Vec2 = path[1];
            let butt: Vec2 = path[0];
            proof {
                lemma_fx_mul_le(butt.x - next.x, self.contract_phase as int, 4_000_000_000,
                    FX_ONE as int);
                lemma_fx_mul_le(butt.y - next.y, self.contract_phase as int, 4_000_000_000,
                    FX_ONE as int);
            }
            let eased: Vec2 = next.add(butt.sub(next).scale(self.contract_phase));
            path.set(0, eased);
        }
        proof {
            assert(points_of(path@) =~= eased_path(base, self.extend_phase as int,
                self.contract_phase as int));
        }
        cat.path = path;
        let mut tail: Vec<Vec2> = Vec::new();
        let mut k: usize = 0;
        while k < tail_positions.len()
            invariant
                0 <= k <= tail_positions@.len(),
                tail@ == tail_positions@.take(k as int),
            decreases tail_positions@.len() - k,
        {
            tail.push(tail_positions[k]);
            proof {
                assert(tail@ =~= tail_positions@.take(k as int + 1));
            }
            k = k + 1;
        }
        proof {
            assert(tail_positions@.take(tail_positions@.len() as int) =~= tail_positions@);
        }
        cat.tail = tail;
        cat.grab_d = self.grab_d;
        if cat.direction.is_some() {
            if cat.walk_phase <= i64::MAX - self.walk_length {
                cat.walk_phase = cat.walk_phase + self.walk_length;
            }
        } else {
            cat.walk_phase = 0;
        }
    }
}

} // verus!
