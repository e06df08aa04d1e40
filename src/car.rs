//! A car: its box, its motion, its sensor and score, and whether it lives.
use vstd::prelude::*;
use crate::angle::{TRIG_ONE, cos_spec, sin_spec, wrap_spec};
use crate::bounding_box::{BoundingBox, Rect, PLACE_LIMIT, clamp_place};
use crate::controller::{AutoDrive, CarController, KeyboardState, controller_moves};
use crate::geometry::{FVec, tdiv};
use crate::score::{Score, score_updated};
use crate::sensor::{Sensor, SENSOR_RANGE, rays_rooted, scanned};
use crate::track::{Track, TrackSegmentType, first_collision};

verus! {

/// The push of the throttle, per step, in thousandths of a pixel per second.
pub const ACCELARATE: i64 = 10_000;

/// How fast the car steers, in micro-radians per second.
pub const TURNING_ANGLE: i64 = 3_000_000;

/// The car's length.
pub const CAR_WIDTH: i64 = 63_000;

/// The car's breadth.
pub const CAR_HEIGHT: i64 = 38_000;

/// A car whose score has not beaten its best for longer than this, in
/// microseconds, is taken off the track.
pub const STALE_LIMIT: i64 = 2_000_000;

/// The longest step of the simulation, in microseconds.
pub const MAX_DELTA: i64 = 1_000_000;

/// No speed ever exceeds this.
pub const SPEED_LIMIT: i64 = 1_100_000;

/// Below this speed the car does not steer.
pub const STEER_SPEED: i64 = 2_000;

/// Below this speed, with no throttle, the car stops.
pub const STOP_SPEED: i64 = 200;

/// Below this speed friction is fifty times stronger.
pub const SLOW_SPEED: i64 = 10_000;

#[derive(Clone, Copy, Debug, PartialEq, Eq, Structural)]
pub enum CarStatus {
    Live,
    Dead,
}

#[derive(Clone, Copy, Debug, PartialEq, Eq, Structural)]
pub enum CarType {
    No5,
    No8,
}

#[derive(Clone, Copy, Debug, PartialEq, Eq, Structural)]
pub enum Movement {
    NotTurning,
    Left,
    Right,
    NotAccelarate,
    Forward,
    Backward,
}

pub open spec fn abs(v: int) -> int {
    if v < 0 {
        -v
    } else {
        v
    }
}

/// The friction at speed `v`: a fiftieth of it, or all of it when slow.
pub open spec fn friction(v: int) -> int {
    if v == 0 {
        0
    } else if abs(v) < SLOW_SPEED {
        tdiv(v, 50) * 50
    } else {
        tdiv(v, 50)
    }
}

/// The speed after one push of `acc`; with no throttle a crawl stops dead.
pub open spec fn next_velocity(v: int, acc: int) -> int {
    let v1 = v + acc - friction(v);
    if acc == 0 && abs(v1) < STOP_SPEED {
        0
    } else {
        v1
    }
}

/// The motion of a car: speed, steering, placement and heading.
pub open spec fn motion_of(car: Car) -> (int, int, int, int, int) {
    (car.velocity as int, car.turning_angle as int, car.body.rect.x as int, car.body.rect.y as int, car.body.rotate as int)
}

/// One push of `acc` over `dt`: steer if fast enough (the other way when
/// reversing), change speed, then move along the new heading.
pub open spec fn push_spec(m: (int, int, int, int, int), acc: int, dt: int) -> (int, int, int, int, int) {
    let (v, ta, x, y, rot) = m;
    let turn = tdiv(ta * dt, 1_000_000);
    let rot1 = if abs(v) > STEER_SPEED {
        if v < 0 {
            wrap_spec(rot - turn)
        } else {
            wrap_spec(rot + turn)
        }
    } else {
        rot
    };
    let v2 = next_velocity(v, acc);
    let dist = tdiv(v2 * dt, 1_000_000);
    (
        v2,
        ta,
        clamp_place(x + tdiv(dist * cos_spec(rot1), TRIG_ONE as int)),
        clamp_place(y + tdiv(dist * sin_spec(rot1), TRIG_ONE as int)),
        rot1,
    )
}

/// The effect of one intent.
pub open spec fn step_spec(m: (int, int, int, int, int), mv: Movement, dt: int) -> (int, int, int, int, int) {
    match mv {
        Movement::Left => (m.0, -TURNING_ANGLE as int, m.2, m.3, m.4),
        Movement::Right => (m.0, TURNING_ANGLE as int, m.2, m.3, m.4),
        Movement::NotTurning => (m.0, 0, m.2, m.3, m.4),
        Movement::Forward => push_spec(m, ACCELARATE as int, dt),
        Movement::Backward => push_spec(m, -ACCELARATE * 2, dt),
        Movement::NotAccelarate => push_spec(m, 0, dt),
    }
}

/// The effect of the first `n` intents, in order.
pub open spec fn drive_spec(m: (int, int, int, int, int), moves: Seq<Movement>, n: int, dt: int) -> (
    int,
    int,
    int,
    int,
    int,
)
    decreases n,
{
    if n <= 0 {
        m
    } else {
        step_spec(drive_spec(m, moves, n - 1, dt), moves[n - 1], dt)
    }
}

/// Whether the box meets a wall of the track other than a finish line.
pub open spec fn hits_wall(track: Track, body: BoundingBox) -> bool {
    first_collision(track.segments@, body, 0) matches Some(c) && c.1 != TrackSegmentType::FinishLine
}

/// `after` is the live car `before` after one tick on `track`.
pub open spec fn ticked(before: Car, after: Car, track: Track, keys: KeyboardState, auto_drive: Option<AutoDrive>, dt: int) -> bool {
    let c = before.body.center_spec();
    let dead = hits_wall(track, before.body) || after.score.stale_time > STALE_LIMIT;
    let moves = controller_moves(before.controller, keys, auto_drive);
    &&& after.id == before.id
    &&& after.controller == before.controller
    &&& after.car_type == before.car_type
    &&& rays_rooted(after.sensor, before.body)
    &&& scanned(Sensor { forward_dis: SENSOR_RANGE, right_dis: SENSOR_RANGE, back_dis: SENSOR_RANGE, left_dis: SENSOR_RANGE, ..after.sensor }, after.sensor, track, c)
    &&& score_updated(before.score, after.score, before.body, track, dt)
    &&& after.status == if dead { CarStatus::Dead } else { CarStatus::Live }
    &&& dead ==> motion_of(after) == motion_of(before)
    &&& !dead ==> motion_of(after) == drive_spec(motion_of(before), moves, moves.len() as int, dt)
}

/// A car on the track.
pub struct Car {
    pub id: u128,
    pub body: BoundingBox,
    pub status: CarStatus,
    pub turning_angle: i64,
    pub sensor: Sensor,
    pub velocity: i64,
    pub score: Score,
    pub car_type: CarType,
    pub actions: Vec<Movement>,
    pub controller: CarController,
}

impl Car {
    pub open spec fn wf(&self) -> bool {
        &&& self.body.wf()
        &&& self.body.rect.w == CAR_WIDTH
        &&& self.body.rect.h == CAR_HEIGHT
        &&& self.sensor.wf()
        &&& self.score.wf()
        &&& -SPEED_LIMIT <= self.velocity <= SPEED_LIMIT
        &&& -TURNING_ANGLE <= self.turning_angle <= TURNING_ANGLE
    }

    /// A live car at rest at `(x, y)`, facing right, pivoting about the
    /// middle of its rear.
    pub fn new(id: u128, x: i64, y: i64, car_type: CarType, controller: CarController) -> (r: Car)
        requires
            -PLACE_LIMIT <= x <= PLACE_LIMIT,
            -PLACE_LIMIT <= y <= PLACE_LIMIT,
        ensures
            r.wf(),
            r.id == id,
            r.status == CarStatus::Live,
            r.velocity == 0 && r.turning_angle == 0,
            r.body.rect == (Rect { x, y, w: CAR_WIDTH, h: CAR_HEIGHT }),
            r.body.rotate == 0,
            r.score.score == 0 && r.score.top_score == 0 && r.score.stale_time == 0,
            r.score.position@.is_empty(),
            r.car_type == car_type,
            r.controller == controller,
            r.actions@.len() == 0,
    {
        Car {
            id,
            car_type,
            status: CarStatus::Live,
            actions: Vec::new(),
            sensor: Sensor::new(),
            turning_angle: 0,
            velocity: 0,
            body: BoundingBox::new_with_origin(
                &Rect { x, y, w: CAR_WIDTH, h: CAR_HEIGHT },
                FVec { x: 0, y: CAR_HEIGHT / 2 },
            ),
            score: Score::new(),
            controller,
        }
    }

    /// Brings the car back to life at rest at `point`, heading `rotate`,
    /// with a fresh score.
    pub fn reset(&mut self, point: &FVec, rotate: i64)
        requires
            old(self).wf(),
            -PLACE_LIMIT <= point.x <= PLACE_LIMIT,
            -PLACE_LIMIT <= point.y <= PLACE_LIMIT,
        ensures
            final(self).wf(),
            final(self).id == old(self).id,
            final(self).status == CarStatus::Live,
            final(self).velocity == 0 && final(self).turning_angle == 0,
            final(self).body.rect == (Rect { x: point.x, y: point.y, ..old(self).body.rect }),
            final(self).body.rotate == wrap_spec(rotate as int),
            final(self).score.score == 0 && final(self).score.top_score == 0,
            final(self).score.stale_time == 0,
            final(self).score.position@.is_empty(),
            final(self).controller == old(self).controller,
            final(self).car_type == old(self).car_type,
    {
        self.status = CarStatus::Live;
        self.velocity = 0;
        self.turning_angle = 0;
        self.body.reset_to(point, rotate);
        self.score.reset();
    }

    /// One tick of a live car: sense the walls, test for a crash, score the
    /// progress, and die of a crash or of staleness; a car still alive then
    /// asks its controller for intents and carries them out. A dead car is
    /// left as it is.
    pub fn update(&mut self, track: &Track, keys: &KeyboardState, auto_drive: &Option<AutoDrive>, delta: i64)
        requires
            old(self).wf(),
            track.wf(),
            0 <= delta <= MAX_DELTA,
        ensures
            final(self).wf(),
            old(self).status == CarStatus::Dead ==> *final(self) == *old(self),
            old(self).status == CarStatus::Live ==> ticked(*old(self), *final(self), *track, *keys, *auto_drive, delta as int),
    {
        if self.status == CarStatus::Dead {
            return;
        }
        self.reset_sensor();
        self.detect(track);
        self.process_collision(track);
        self.score.update(&self.body, track, delta);
        if self.score.is_stale_for(STALE_LIMIT) {
            self.status = CarStatus::Dead;
        }
        if self.status == CarStatus::Live {
            self.actions = self.controller.next_movements(keys, auto_drive);
            self.process_actions(delta);
        }
    }

    /// Carries out the pending intents in order, then forgets them.
    fn process_actions(&mut self, delta: i64)
        requires
            old(self).wf(),
            0 <= delta <= MAX_DELTA,
        ensures
            final(self).wf(),
            motion_of(*final(self)) == drive_spec(motion_of(*old(self)), old(self).actions@, old(self).actions@.len() as int, delta as int),
            final(self).actions@.len() == 0,
            final(self).id == old(self).id,
            final(self).status == old(self).status,
            final(self).sensor == old(self).sensor,
            final(self).score == old(self).score,
            final(self).controller == old(self).controller,
            final(self).car_type == old(self).car_type,
            final(self).body.rect.w == old(self).body.rect.w,
            final(self).body.rect.h == old(self).body.rect.h,
            final(self).body.origin == old(self).body.origin,
    {
        let mut i: usize = 0;
        while i < self.actions.len()
            invariant
                self.wf(),
                0 <= delta <= MAX_DELTA,
                0 <= i <= self.actions@.len(),
                self.actions@ == old(self).actions@,
                motion_of(*self) == drive_spec(motion_of(*old(self)), old(self).actions@, i as int, delta as int),
                self.id == old(self).id,
                self.status == old(self).status,
                self.sensor == old(self).sensor,
                self.score == old(self).score,
                self.controller == old(self).controller,
                self.car_type == old(self).car_type,
                self.body.rect.w == old(self).body.rect.w,
                self.body.rect.h == old(self).body.rect.h,
                self.body.origin == old(self).body.origin,
            decreases self.actions@.len() - i,
        {
            match self.actions[i] {
                Movement::Left => {
                    self.turning_angle = -TURNING_ANGLE;
                },
                Movement::Right => {
                    self.turning_angle = TURNING_ANGLE;
                },
                Movement::NotTurning => {
                    self.turning_angle = 0;
                },
                Movement::Forward => self.calculate_pos(ACCELARATE, delta),
                Movement::Backward => self.calculate_pos(-ACCELARATE * 2, delta),
                Movement::NotAccelarate => self.calculate_pos(0, delta),
            }
            i += 1;
        }
        self.actions.clear();
    }

    /// One push of the throttle: steer, change speed, move.
    fn calculate_pos(&mut self, accelarating: i64, delta: i64)
        requires
            old(self).wf(),
            -2 * ACCELARATE <= accelarating <= ACCELARATE,
            0 <= delta <= MAX_DELTA,
        ensures
            final(self).wf(),
            motion_of(*final(self)) == push_spec(motion_of(*old(self)), accelarating as int, delta as int),
            final(self).id == old(self).id,
            final(self).status == old(self).status,
            final(self).sensor == old(self).sensor,
            final(self).score == old(self).score,
            final(self).controller == old(self).controller,
            final(self).car_type == old(self).car_type,
            final(self).actions == old(self).actions,
            final(self).body.rect.w == old(self).body.rect.w,
            final(self).body.rect.h == old(self).body.rect.h,
            final(self).body.origin == old(self).body.origin,
    {
        proof {
            crate::geometry::lemma_mul_bound(self.turning_angle as int, delta as int, TURNING_ANGLE as int, MAX_DELTA as int);
        }
        let turn = ((self.turning_angle as i128) * (delta as i128) / 1_000_000) as i64;
        if self.velocity > STEER_SPEED || self.velocity < -STEER_SPEED {
            if self.velocity < 0 {
                self.body.turn_at(-turn);
            } else {
                self.body.turn_at(turn);
            }
        }
        self.velocity = self.velocity + self.cal_accelate(accelarating);
        if accelarating == 0 && self.velocity < STOP_SPEED && self.velocity > -STOP_SPEED {
            self.velocity = 0;
        }
        proof {
            lemma_speed_stays_limited(old(self).velocity as int, accelarating as int);
            crate::geometry::lemma_mul_bound(self.velocity as int, delta as int, SPEED_LIMIT as int, MAX_DELTA as int);
            crate::geometry::lemma_tdiv_bound(self.velocity * delta, 1_000_000, SPEED_LIMIT as int);
        }
        let dist = ((self.velocity as i128) * (delta as i128) / 1_000_000) as i64;
        self.body.move_at(dist);
    }

    /// The change of speed from one push: the throttle less the friction.
    fn cal_accelate(&self, acc: i64) -> (r: i64)
        requires
            -SPEED_LIMIT <= self.velocity <= SPEED_LIMIT,
            -2 * ACCELARATE <= acc <= ACCELARATE,
        ensures
            r == acc - friction(self.velocity as int),
    {
        let mut friction: i64 = 0;
        if self.velocity != 0 {
            friction = self.velocity / 50;
            if self.velocity < SLOW_SPEED && self.velocity > -SLOW_SPEED {
                friction = friction * 50;
            }
        }
        acc - friction
    }

    /// Kills the car if its box meets a wall other than a finish line.
    fn process_collision(&mut self, track: &Track)
        requires
            old(self).wf(),
            track.wf(),
        ensures
            *final(self) == (Car {
                status: if hits_wall(*track, old(self).body) {
                    CarStatus::Dead
                } else {
                    old(self).status
                },
                ..*old(self)
            }),
    {
        if let Some((_, track_type)) = track.on_collide(&self.body) {
            match track_type {
                TrackSegmentType::FinishLine => {},
                _ => {
                    self.status = CarStatus::Dead;
                },
            }
        }
    }
}

/// Speeds stay within the limit whatever the intents.
pub proof fn lemma_speed_stays_limited(v: int, acc: int)
    requires
        -SPEED_LIMIT <= v <= SPEED_LIMIT,
        -2 * ACCELARATE <= acc <= ACCELARATE,
    ensures
        -SPEED_LIMIT <= next_velocity(v, acc) <= SPEED_LIMIT,
{
}

/// A live car whose score has not beaten its best for longer than the
/// staleness limit is dead after its tick.
pub proof fn lemma_stale_car_dies(
    before: Car,
    after: Car,
    track: Track,
    keys: KeyboardState,
    auto_drive: Option<AutoDrive>,
    dt: int,
)
    requires
        ticked(before, after, track, keys, auto_drive, dt),
        after.score.stale_time > STALE_LIMIT,
    ensures
        after.status == CarStatus::Dead,
{
}

/// A car at rest given no throttle for a step stays exactly at rest, and
/// neither turns nor moves.
pub proof fn lemma_rest_stays_at_rest(turning: int, x: int, y: int, rot: int, dt: int)
    requires
        -PLACE_LIMIT <= x <= PLACE_LIMIT,
        -PLACE_LIMIT <= y <= PLACE_LIMIT,
    ensures
        next_velocity(0, 0) == 0,
        push_spec((0, turning, x, y, rot), 0, dt) == (0int, turning, x, y, rot),
{
    assert(tdiv(0, 1_000_000) == 0);
    assert(tdiv(0 * cos_spec(rot), TRIG_ONE as int) == 0);
    assert(tdiv(0 * sin_spec(rot), TRIG_ONE as int) == 0);
}

} // verus!
