//! Four distance rays around a car, cut short by the walls of the track.
use vstd::prelude::*;
use crate::angle::{FULL_TURN, rotate_four, rotated_spec};
use crate::bounding_box::BoundingBox;
use crate::car::Car;
use crate::geometry::{FVec, Line, intersect_spec, isqrt_spec, lemma_isqrt_unique};
use crate::track::{Track, TrackSegment, first_containing, heading_eighths, lemma_first_containing_in_range};

verus! {

/// How far a ray reaches.
pub const SENSOR_RANGE: i64 = 200_000;

/// How far along `ray` it meets the wall `b`, rounded down.
pub open spec fn hit_dist(ray: Line, b: Line) -> Option<int> {
    match intersect_spec(ray, b) {
        Some(q) => Some(isqrt_spec(ray.start.dist_sq_spec(FVec { x: q.0 as i64, y: q.1 as i64 }))),
        None => None,
    }
}

/// The reading `acc`, shortened if `ray` meets `b` sooner.
pub open spec fn closer(acc: int, ray: Line, b: Line) -> int {
    match hit_dist(ray, b) {
        Some(d) => if d < acc {
            d
        } else {
            acc
        },
        None => acc,
    }
}

/// The reading after the first `n` walls of `bounds`.
pub open spec fn scan_bounds(ray: Line, bounds: Seq<Line>, n: int, acc: int) -> int
    decreases n,
{
    if n <= 0 {
        acc
    } else {
        closer(scan_bounds(ray, bounds, n - 1, acc), ray, bounds[n - 1])
    }
}

/// A segment whose center is within twice the sensor range of `center`.
pub open spec fn near(seg: TrackSegment, center: FVec) -> bool {
    // 160_000_000_000 is (2 * SENSOR_RANGE) squared
    center.dist_sq_spec(seg.body.center_spec()) <= 160_000_000_000
}

/// The reading after the walls of the first `n` segments near `center`.
pub open spec fn scan_segs(ray: Line, segs: Seq<TrackSegment>, center: FVec, n: int, acc: int) -> int
    decreases n,
{
    if n <= 0 {
        acc
    } else {
        let a = scan_segs(ray, segs, center, n - 1, acc);
        if near(segs[n - 1], center) {
            scan_bounds(ray, segs[n - 1].boundaries@, segs[n - 1].boundaries@.len() as int, a)
        } else {
            a
        }
    }
}

/// The ray from `c` to `c` plus the offset turned by `rot`.
pub open spec fn ray_spec(c: FVec, off: FVec, rot: int) -> Line {
    let o = rotated_spec(off, rot);
    Line { start: c, end: FVec { x: (c.x + o.x) as i64, y: (c.y + o.y) as i64 } }
}

/// Four rays around a car and how far each reaches before a wall.
#[derive(Debug)]
pub struct Sensor {
    pub forward: Line,
    pub right: Line,
    pub back: Line,
    pub left: Line,
    pub forward_dis: i64,
    pub right_dis: i64,
    pub back_dis: i64,
    pub left_dis: i64,
    /// The heading of the segment the car is on.
    pub track_direction: i64,
}

impl Sensor {
    /// All rays lie in the world, and readings and heading are in range.
    pub open spec fn wf(&self) -> bool {
        &&& self.forward.in_world() && self.right.in_world() && self.back.in_world() && self.left.in_world()
        &&& 0 <= self.forward_dis <= SENSOR_RANGE && 0 <= self.right_dis <= SENSOR_RANGE
        &&& 0 <= self.back_dis <= SENSOR_RANGE && 0 <= self.left_dis <= SENSOR_RANGE
        &&& 0 <= self.track_direction < FULL_TURN
    }

    pub fn new() -> (r: Sensor)
        ensures
            r.wf(),
            r.forward_dis == SENSOR_RANGE && r.right_dis == SENSOR_RANGE,
            r.back_dis == SENSOR_RANGE && r.left_dis == SENSOR_RANGE,
            r.track_direction == 0,
    {
        let z = Line { start: FVec { x: 0, y: 0 }, end: FVec { x: 0, y: 0 } };
        Sensor {
            forward: z,
            right: z,
            back: z,
            left: z,
            forward_dis: SENSOR_RANGE,
            right_dis: SENSOR_RANGE,
            back_dis: SENSOR_RANGE,
            left_dis: SENSOR_RANGE,
            track_direction: 0,
        }
    }

    /// Roots the rays at `center_point`, facing forward, right, back and left
    /// of the heading `rotate`, at full range.
    pub fn reset(&mut self, center_point: FVec, rotate: i64)
        requires
            center_point.within(910_000_000),
            0 <= rotate < FULL_TURN,
            0 <= old(self).track_direction < FULL_TURN,
        ensures
            final(self).wf(),
            final(self).forward == ray_spec(center_point, FVec { x: SENSOR_RANGE, y: 0 }, rotate as int),
            final(self).right == ray_spec(center_point, FVec { x: 0, y: SENSOR_RANGE }, rotate as int),
            final(self).back == ray_spec(center_point, FVec { x: (-SENSOR_RANGE) as i64, y: 0 }, rotate as int),
            final(self).left == ray_spec(center_point, FVec { x: 0, y: (-SENSOR_RANGE) as i64 }, rotate as int),
            final(self).forward_dis == SENSOR_RANGE && final(self).right_dis == SENSOR_RANGE,
            final(self).back_dis == SENSOR_RANGE && final(self).left_dis == SENSOR_RANGE,
            final(self).track_direction == old(self).track_direction,
    {
        let offsets = [
            FVec { x: SENSOR_RANGE, y: 0 },
            FVec { x: 0, y: SENSOR_RANGE },
            FVec { x: -SENSOR_RANGE, y: 0 },
            FVec { x: 0, y: -SENSOR_RANGE },
        ];
        let ends = rotate_four(rotate, offsets);
        proof {
            assert forall|i: int| 0 <= i < 4 implies (#[trigger] ends@[i]).within(400_000) by {
                let c = crate::angle::cos_spec(rotate as int);
                let s = crate::angle::sin_spec(rotate as int);
                crate::angle::lemma_trig_range(rotate as int);
                let v = offsets@[i];
                crate::geometry::lemma_mul_bound(c, v.x as int, 1_000_000, 200_000);
                crate::geometry::lemma_mul_bound(s, v.y as int, 1_000_000, 200_000);
                crate::geometry::lemma_mul_bound(s, v.x as int, 1_000_000, 200_000);
                crate::geometry::lemma_mul_bound(c, v.y as int, 1_000_000, 200_000);
                crate::geometry::lemma_tdiv_bound(c * v.x - s * v.y, 1_000_000, 400_000);
                crate::geometry::lemma_tdiv_bound(s * v.x + c * v.y, 1_000_000, 400_000);
            }
        }
        let c = center_point;
        self.forward = Line { start: c, end: FVec { x: c.x + ends[0].x, y: c.y + ends[0].y } };
        self.right = Line { start: c, end: FVec { x: c.x + ends[1].x, y: c.y + ends[1].y } };
        self.back = Line { start: c, end: FVec { x: c.x + ends[2].x, y: c.y + ends[2].y } };
        self.left = Line { start: c, end: FVec { x: c.x + ends[3].x, y: c.y + ends[3].y } };
        self.forward_dis = SENSOR_RANGE;
        self.right_dis = SENSOR_RANGE;
        self.back_dis = SENSOR_RANGE;
        self.left_dis = SENSOR_RANGE;
    }
}

/// The sensor after a scan of the track from `center`: each reading
/// shortened to the nearest wall of the nearby segments, and the heading of
/// the segment that holds `center`, if one does.
pub open spec fn scanned(before: Sensor, after: Sensor, track: Track, center: FVec) -> bool {
    let segs = track.segments@;
    let n = segs.len() as int;
    &&& after.forward == before.forward && after.right == before.right
    &&& after.back == before.back && after.left == before.left
    &&& after.forward_dis == scan_segs(before.forward, segs, center, n, before.forward_dis as int)
    &&& after.right_dis == scan_segs(before.right, segs, center, n, before.right_dis as int)
    &&& after.back_dis == scan_segs(before.back, segs, center, n, before.back_dis as int)
    &&& after.left_dis == scan_segs(before.left, segs, center, n, before.left_dis as int)
    &&& after.track_direction == match first_containing(segs, center, 0) {
        Some(k) => heading_eighths(segs[k].direction) * (FULL_TURN / 8),
        None => before.track_direction as int,
    }
}

impl Sensor {
    /// Shortens each reading whose ray meets `b` sooner.
    fn scan_wall(&mut self, b: &Line)
        requires
            old(self).wf(),
            b.in_world(),
        ensures
            final(self).wf(),
            final(self).forward == old(self).forward && final(self).right == old(self).right,
            final(self).back == old(self).back && final(self).left == old(self).left,
            final(self).track_direction == old(self).track_direction,
            final(self).forward_dis == closer(old(self).forward_dis as int, old(self).forward, *b),
            final(self).right_dis == closer(old(self).right_dis as int, old(self).right, *b),
            final(self).back_dis == closer(old(self).back_dis as int, old(self).back, *b),
            final(self).left_dis == closer(old(self).left_dis as int, old(self).left, *b),
    {
        self.forward_dis = nearer(&self.forward, b, self.forward_dis);
        self.right_dis = nearer(&self.right, b, self.right_dis);
        self.back_dis = nearer(&self.back, b, self.back_dis);
        self.left_dis = nearer(&self.left, b, self.left_dis);
    }
}

/// The reading `acc`, shortened if `ray` meets `b` sooner.
fn nearer(ray: &Line, b: &Line, acc: i64) -> (r: i64)
    requires
        ray.in_world(),
        b.in_world(),
        0 <= acc <= SENSOR_RANGE,
    ensures
        r == closer(acc as int, *ray, *b),
        0 <= r <= acc,
{
    match ray.distance(b) {
        Some(d) => {
            proof {
                let q = intersect_spec(*ray, *b)->Some_0;
                lemma_isqrt_unique(d as int, ray.start.dist_sq_spec(FVec { x: q.0 as i64, y: q.1 as i64 }));
            }
            if d < acc {
                d
            } else {
                acc
            }
        },
        None => acc,
    }
}

/// The four rays of `s` start at the center of `body` and face forward,
/// right, back and left of its heading, at full range.
pub open spec fn rays_rooted(s: Sensor, body: BoundingBox) -> bool {
    let c = body.center_spec();
    let rot = body.rotate as int;
    &&& s.forward == ray_spec(c, FVec { x: SENSOR_RANGE, y: 0 }, rot)
    &&& s.right == ray_spec(c, FVec { x: 0, y: SENSOR_RANGE }, rot)
    &&& s.back == ray_spec(c, FVec { x: (-SENSOR_RANGE) as i64, y: 0 }, rot)
    &&& s.left == ray_spec(c, FVec { x: 0, y: (-SENSOR_RANGE) as i64 }, rot)
}

impl Car {
    /// Roots the sensor's rays at the center of the car, along its heading.
    pub fn reset_sensor(&mut self)
        requires
            old(self).wf(),
        ensures
            final(self).wf(),
            rays_rooted(final(self).sensor, old(self).body),
            final(self).sensor.forward_dis == SENSOR_RANGE && final(self).sensor.right_dis == SENSOR_RANGE,
            final(self).sensor.back_dis == SENSOR_RANGE && final(self).sensor.left_dis == SENSOR_RANGE,
            final(self).sensor.track_direction == old(self).sensor.track_direction,
            *final(self) == (Car { sensor: final(self).sensor, ..*old(self) }),
    {
        let rotate = self.body.rotate;
        if let Some(center_point) = self.body.get_center() {
            self.sensor.reset(center_point, rotate);
        }
    }

    /// Reads the walls of the segments near the car into the sensor, and
    /// the heading of the segment the car is on.
    pub fn detect(&mut self, track: &Track)
        requires
            old(self).wf(),
            track.wf(),
        ensures
            final(self).wf(),
            scanned(old(self).sensor, final(self).sensor, *track, old(self).body.center_spec()),
            *final(self) == (Car { sensor: final(self).sensor, ..*old(self) }),
    {
        let car_center = self.body.get_center().unwrap();
        let ghost s0 = self.sensor;
        let ghost segs = track.segments@;
        let mut k: usize = 0;
        while k < track.segments.len()
            invariant
                self.wf(),
                track.wf(),
                segs == track.segments@,
                car_center == old(self).body.center_spec(),
                car_center.in_world(),
                0 <= k <= segs.len(),
                *self == (Car { sensor: self.sensor, ..*old(self) }),
                self.sensor.forward == s0.forward && self.sensor.right == s0.right,
                self.sensor.back == s0.back && self.sensor.left == s0.left,
                self.sensor.track_direction == s0.track_direction,
                self.sensor.forward_dis == scan_segs(s0.forward, segs, car_center, k as int, s0.forward_dis as int),
                self.sensor.right_dis == scan_segs(s0.right, segs, car_center, k as int, s0.right_dis as int),
                self.sensor.back_dis == scan_segs(s0.back, segs, car_center, k as int, s0.back_dis as int),
                self.sensor.left_dis == scan_segs(s0.left, segs, car_center, k as int, s0.left_dis as int),
            decreases segs.len() - k,
        {
            let seg = &track.segments[k];
            assert(seg.wf());
            let track_center = seg.body.get_center().unwrap();
            let dx = (car_center.x - track_center.x) as i128;
            let dy = (car_center.y - track_center.y) as i128;
            proof {
                crate::geometry::lemma_mul_bound(dx as int, dx as int, 2_000_000_000, 2_000_000_000);
                crate::geometry::lemma_mul_bound(dy as int, dy as int, 2_000_000_000, 2_000_000_000);
            }
            if dx * dx + dy * dy <= 160_000_000_000 {
                let mut j: usize = 0;
                while j < seg.boundaries.len()
                    invariant
                        self.wf(),
                        seg.wf(),
                        *seg == segs[k as int],
                        0 <= j <= seg.boundaries@.len(),
                        *self == (Car { sensor: self.sensor, ..*old(self) }),
                        self.sensor.forward == s0.forward && self.sensor.right == s0.right,
                        self.sensor.back == s0.back && self.sensor.left == s0.left,
                        self.sensor.track_direction == s0.track_direction,
                        self.sensor.forward_dis == scan_bounds(s0.forward, seg.boundaries@, j as int,
                            scan_segs(s0.forward, segs, car_center, k as int, s0.forward_dis as int)),
                        self.sensor.right_dis == scan_bounds(s0.right, seg.boundaries@, j as int,
                            scan_segs(s0.right, segs, car_center, k as int, s0.right_dis as int)),
                        self.sensor.back_dis == scan_bounds(s0.back, seg.boundaries@, j as int,
                            scan_segs(s0.back, segs, car_center, k as int, s0.back_dis as int)),
                        self.sensor.left_dis == scan_bounds(s0.left, seg.boundaries@, j as int,
                            scan_segs(s0.left, segs, car_center, k as int, s0.left_dis as int)),
                    decreases seg.boundaries@.len() - j,
                {
                    let b = seg.boundaries[j];
                    assert(b.in_world());
                    self.sensor.scan_wall(&b);
                    j += 1;
                }
            }
            k += 1;
        }
        proof {
            lemma_first_containing_in_range(track.segments@, car_center, 0);
        }
        if let Some(seg) = track.on_which_track_seg(&self.body) {
            self.sensor.track_direction = seg.direction.heading();
        }
    }
}

} // verus!
