//! Contact sensing around the head.
//!
//! The embedding reports, for every contact touching the head link's body,
//! a plain sample: which side of the fixture pair is the head sensor, the
//! other body, whether that body is dynamic, and the manifold's deepest
//! separation and normal. The sensor picks the best anchor candidate: the
//! qualifying sample with the smallest (deepest) separation, earliest wins
//! on ties.

use vstd::prelude::*;
use crate::math::{Vec2, neg_val, COORD_LIMIT};

verus! {

/// One contact reported around the head body.
#[derive(Clone, Copy, Debug, PartialEq, Eq, Structural)]
pub struct ContactSample {
    /// Whether the contact is currently touching.
    pub touching: bool,
    /// Whether fixture A of the pair is the head sensor on the head body.
    pub sensor_is_a: bool,
    /// Whether fixture B of the pair is the head sensor on the head body.
    pub sensor_is_b: bool,
    /// The body on the non-sensor side.
    pub other: u64,
    /// Whether that body is dynamic (dynamic bodies are not grabbed).
    pub other_dynamic: bool,
    /// Smallest signed separation of the manifold; negative means overlap.
    pub separation: i64,
    /// Contact normal as reported, pointing from fixture A toward fixture B.
    pub normal: Vec2,
}

/// The chosen anchor candidate.
#[derive(Clone, Copy, Debug, PartialEq, Eq, Structural)]
pub struct AnchorCandidate {
    pub separation: i64,
    /// Normal pointing from the other body toward the head sensor.
    pub normal: Vec2,
    pub other: u64,
}

/// A sample qualifies when it touches, one side is the head sensor, and the
/// other body is not dynamic.
pub open spec fn sample_ok(s: ContactSample) -> bool {
    s.touching && (s.sensor_is_a || s.sensor_is_b) && !s.other_dynamic
}

/// The normal oriented from the other body toward the sensor.
pub open spec fn sample_normal(s: ContactSample) -> (int, int) {
    if s.sensor_is_a {
        s.normal@
    } else {
        neg_val(s.normal@)
    }
}

/// Geometry bounds the sensing layer guarantees for a sample.
pub open spec fn sample_bounded(s: ContactSample) -> bool {
    &&& -COORD_LIMIT <= s.separation <= COORD_LIMIT
    &&& -2_000_000 <= s.normal.x <= 2_000_000
    &&& -2_000_000 <= s.normal.y <= 2_000_000
}

/// The anchor candidate selected from a list of samples: the qualifying
/// sample with the strictly smallest separation, earliest first.
pub open spec fn select_val(samples: Seq<ContactSample>) -> Option<(int, (int, int), u64)>
    decreases samples.len(),
{
    if samples.len() == 0 {
        None
    } else {
        let prev = select_val(samples.drop_last());
        let s = samples.last();
        if !sample_ok(s) {
            prev
        } else {
            match prev {
                Option::None => Option::Some(
                    (s.separation as int, sample_normal(s), s.other),
                ),
                Option::Some(p) => if (s.separation as int) < p.0 {
                    Option::Some((s.separation as int, sample_normal(s), s.other))
                } else {
                    prev
                },
            }
        }
    }
}

/// A candidate selected from bounded samples is itself bounded.
pub proof fn lemma_select_bounded(samples: Seq<ContactSample>)
    requires
        forall|i: int| 0 <= i < samples.len() ==> sample_bounded(#[trigger] samples[i]),
    ensures
        select_val(samples) matches Some(s) ==> -COORD_LIMIT <= s.0 <= COORD_LIMIT
            && -2_000_000 <= s.1.0 <= 2_000_000 && -2_000_000 <= s.1.1 <= 2_000_000,
    decreases samples.len(),
{
    if samples.len() > 0 {
        assert(forall|i: int| 0 <= i < samples.drop_last().len() ==> sample_bounded(
            #[trigger] samples.drop_last()[i])) by {
            assert(forall|i: int| 0 <= i < samples.drop_last().len()
                ==> samples.drop_last()[i] == #[trigger] samples[i]);
        }
        lemma_select_bounded(samples.drop_last());
        assert(sample_bounded(samples[samples.len() - 1]));
    }
}

/// Scan the reported contacts and keep the deepest qualifying candidate.
pub fn select_anchor(samples: &Vec<ContactSample>) -> (r: Option<AnchorCandidate>)
    requires
        forall|i: int| 0 <= i < samples@.len() ==> (#[trigger] samples@[i]).normal.x
            > i64::MIN && samples@[i].normal.y > i64::MIN,
    ensures
        r is Some <==> select_val(samples@) is Some,
        r matches Some(c) ==> select_val(samples@) == Some::<(int, (int, int), u64)>(
            (c.separation as int, c.normal@, c.other),
        ),
{
    let mut best: Option<AnchorCandidate> = None;
    let mut i: usize = 0;
    while i < samples.len()
        invariant
            0 <= i <= samples@.len(),
            forall|k: int| 0 <= k < samples@.len() ==> (#[trigger] samples@[k]).normal.x
                > i64::MIN && samples@[k].normal.y > i64::MIN,
            best is Some <==> select_val(samples@.take(i as int)) is Some,
            best matches Some(c) ==> select_val(samples@.take(i as int))
                == Some::<(int, (int, int), u64)>((c.separation as int, c.normal@, c.other)),
        decreases samples@.len() - i,
    {
        let s = samples[i];
        proof {
            assert(samples@.take(i + 1).drop_last() =~= samples@.take(i as int));
            assert(samples@.take(i + 1).last() == samples@[i as int]);
        }
        let qualifies: bool = s.touching && (s.sensor_is_a || s.sensor_is_b)
            && !s.other_dynamic;
        if qualifies {
            let normal: Vec2 = if s.sensor_is_a {
                s.normal
            } else {
                Vec2 { x: -s.normal.x, y: -s.normal.y }
            };
            let take: bool = match &best {
                None => true,
                Some(b) => s.separation < b.separation,
            };
            if take {
                best = Some(AnchorCandidate { separation: s.separation, normal, other: s.other });
            }
        }
        i = i + 1;
    }
    proof {
        assert(samples@.take(samples@.len() as int) =~= samples@);
    }
    best
}

} // verus!
