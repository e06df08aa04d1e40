//! Progress along the track, measured per segment against its forward direction.
use vstd::prelude::*;
use std::collections::HashMap;
use crate::bounding_box::BoundingBox;
use crate::geometry::{FVec, clamp_i64, sat_add};
use crate::track::{Track, first_containing, forward_spec, TrackSegmentDirection};

verus! {

broadcast use vstd::std_specs::hash::group_hash_axioms;

/// The gain of moving by `diff` through a tile of direction `d`.
pub open spec fn progress(diff: FVec, d: TrackSegmentDirection) -> int {
    diff.dot_spec(forward_spec(d))
}

/// The score after a gain: their sum, held to the range of `i64`.
pub open spec fn score_after(score: int, gain: int) -> int {
    clamp_i64(score + gain)
}

/// `after` is `before` once a car with box `car_body` has been scored over
/// `delta`: the progress since its last visit to the segment that holds its
/// center is added, and the best score and the staleness timer follow. Off
/// the track nothing changes.
pub open spec fn score_updated(before: Score, after: Score, car_body: BoundingBox, track: Track, delta: int) -> bool {
    match first_containing(track.segments@, car_body.center_spec(), 0) {
        None => after == before,
        Some(k) => {
            let seg = track.segments@[k];
            let c = car_body.center_spec();
            let diff = if before.position@.contains_key(seg.id) {
                FVec {
                    x: (c.x - before.position@[seg.id].x) as i64,
                    y: (c.y - before.position@[seg.id].y) as i64,
                }
            } else {
                FVec { x: 0, y: 0 }
            };
            let s = score_after(before.score as int, progress(diff, seg.direction));
            &&& after.position@ == before.position@.insert(seg.id, c)
            &&& after.score == s
            &&& if s > before.top_score {
                after.top_score == s && after.stale_time == 0
            } else {
                after.top_score == before.top_score && after.stale_time
                    == clamp_i64(before.stale_time + delta)
            }
        }
    }
}

/// A car's progress: its score, its best score, and how long since the best.
#[derive(Debug)]
pub struct Score {
    pub top_score: i64,
    pub score: i64,
    /// The last center seen on each segment, by segment id.
    pub position: HashMap<u128, FVec>,
    /// How long, in microseconds, the score has not beaten its best.
    pub stale_time: i64,
}

impl Score {
    /// Every recorded center lies in the world.
    pub open spec fn wf(&self) -> bool {
        forall|id: u128| #[trigger] self.position@.contains_key(id) ==> self.position@[id].in_world()
    }

    pub fn new() -> (r: Score)
        ensures
            r.wf(),
            r.score == 0 && r.top_score == 0 && r.stale_time == 0,
            r.position@.is_empty(),
    {
        Score { position: HashMap::new(), score: 0, top_score: 0, stale_time: 0 }
    }

    /// Whether the score has not beaten its best for longer than `time`.
    pub fn is_stale_for(&self, time: i64) -> (r: bool)
        ensures
            r == (self.stale_time > time),
    {
        self.stale_time > time
    }

    pub fn reset(&mut self)
        ensures
            final(self).wf(),
            final(self).score == 0 && final(self).top_score == 0 && final(self).stale_time == 0,
            final(self).position@.is_empty(),
    {
        self.position.clear();
        self.top_score = 0;
        self.score = 0;
        self.stale_time = 0;
    }

    /// Adds the progress made since the last visit to the segment that holds
    /// the car's center, and keeps the best score and the staleness timer.
    /// Off the track nothing changes.
    pub fn update(&mut self, car_body: &BoundingBox, track: &Track, delta: i64)
        requires
            old(self).wf(),
            car_body.wf(),
            track.wf(),
            delta >= 0,
        ensures
            final(self).wf(),
            score_updated(*old(self), *final(self), *car_body, *track, delta as int),
    {
        let current_pos = car_body.get_center().unwrap();
        proof {
            crate::track::lemma_first_containing_in_range(track.segments@, current_pos, 0);
        }
        if let Some(seg) = track.on_which_track_seg(car_body) {
            let mut diff = FVec { x: 0, y: 0 };
            if let Some(last_pos) = self.position.get(&seg.id) {
                diff = current_pos.sub(*last_pos);
            }
            self.position.insert(seg.id, current_pos);
            let f = seg.direction.forward();
            proof {
                crate::geometry::lemma_mul_bound(diff.x as int, f.x as int, 2_000_000_000, 1);
                crate::geometry::lemma_mul_bound(diff.y as int, f.y as int, 2_000_000_000, 1);
            }
            let gain = diff.dot(&f);
            self.score = sat_add(self.score, gain as i64);
            if self.score > self.top_score {
                self.top_score = self.score;
                self.stale_time = 0;
            } else {
                self.stale_time = sat_add(self.stale_time, delta);
            }
        }
    }
}

/// Moving forward along a tile's direction raises the score, moving
/// backward lowers it, short of the ends of the score's range.
pub proof fn lemma_forward_motion_raises_score(score: i64, d: TrackSegmentDirection, amount: int)
    requires
        0 < amount <= crate::geometry::WORLD,
    ensures
        score < i64::MAX ==> score_after(
            score as int,
            progress(FVec { x: (amount * forward_spec(d).x) as i64, y: (amount * forward_spec(d).y) as i64 }, d),
        ) > score,
        score > i64::MIN ==> score_after(
            score as int,
            progress(FVec { x: (-amount * forward_spec(d).x) as i64, y: (-amount * forward_spec(d).y) as i64 }, d),
        ) < score,
{
    let f = forward_spec(d);
    let (fx, fy) = (f.x as int, f.y as int);
    assert(-1 <= fx <= 1 && -1 <= fy <= 1 && (fx != 0 || fy != 0));
    assert(-amount <= amount * fx <= amount && -amount <= amount * fy <= amount
        && (amount * fx) * fx + (amount * fy) * fy >= amount
        && (-amount * fx) * fx + (-amount * fy) * fy <= -amount
        && -amount <= -amount * fx <= amount && -amount <= -amount * fy <= amount) by (nonlinear_arith)
        requires
            -1 <= fx <= 1,
            -1 <= fy <= 1,
            fx != 0 || fy != 0,
            amount > 0,
    ;
}

} // verus!
