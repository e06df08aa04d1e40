//! A rotated rectangle with its corners and edges kept up to date.
use vstd::prelude::*;
use crate::angle::{FULL_TURN, TRIG_ONE, cos, sin, cos_spec, sin_spec, rotate_four, rotated_spec, wrap_angle, wrap_spec};
use crate::geometry::{FVec, Line, tdiv, lemma_mul_bound, lemma_tdiv_bound};

verus! {

/// A rectangle's placement stays within `[-PLACE_LIMIT, PLACE_LIMIT]`, so
/// that its rotated corners stay in the world.
pub const PLACE_LIMIT: i64 = 800_000_000;

/// The largest width, height or pivot offset of a rectangle.
pub const MAX_SIZE: i64 = 10_000_000;

/// An upright rectangle: top left corner, width and height.
#[derive(Clone, Copy, Debug, PartialEq, Eq, Structural)]
pub struct Rect {
    pub x: i64,
    pub y: i64,
    pub w: i64,
    pub h: i64,
}

impl Rect {
    pub open spec fn wf(self) -> bool {
        -PLACE_LIMIT <= self.x <= PLACE_LIMIT && -PLACE_LIMIT <= self.y <= PLACE_LIMIT && 0 <= self.w
            <= MAX_SIZE && 0 <= self.h <= MAX_SIZE
    }
}

/// Corner `i` of the unrotated rectangle, relative to the pivot.
/// Corners go top left, top right, bottom right, bottom left.
pub open spec fn corner_offset(rect: Rect, origin: FVec, i: int) -> FVec {
    FVec {
        x: ((if i == 1 || i == 2 { rect.w as int } else { 0 }) - 2 * origin.x) as i64,
        y: ((if i >= 2 { rect.h as int } else { 0 }) - 2 * origin.y) as i64,
    }
}

/// Corner `i` of the rectangle turned by `rot` about its pivot, which lies
/// at `(rect.x + origin.x, rect.y + origin.y)`.
pub open spec fn corner_spec(rect: Rect, origin: FVec, rot: int, i: int) -> FVec {
    let o = rotated_spec(corner_offset(rect, origin, i), rot);
    FVec { x: (rect.x + origin.x + o.x) as i64, y: (rect.y + origin.y + o.y) as i64 }
}

/// The edge from corner `i` to the next corner.
pub open spec fn edge_spec(points: Seq<FVec>, i: int) -> Line {
    Line { start: points[i], end: points[(i + 1) % 4] }
}

/// Whether a ray cast from `p` toward increasing `x` crosses the edge `v1 v2`.
pub open spec fn crosses(v1: FVec, v2: FVec, p: FVec) -> bool {
    let den = v2.y - v1.y;
    let lhs = (p.x - v1.x) * den;
    let rhs = (v2.x - v1.x) * (p.y - v1.y);
    ((v1.y > p.y) != (v2.y > p.y)) && (if den > 0 {
        lhs < rhs
    } else {
        lhs > rhs
    })
}

/// How many edges of the quadrilateral `q` the ray from `p` crosses.
pub open spec fn crossings(q: Seq<FVec>, p: FVec) -> int {
    (if crosses(q[0], q[1], p) { 1int } else { 0 }) + (if crosses(q[1], q[2], p) { 1int } else { 0 })
        + (if crosses(q[2], q[3], p) { 1int } else { 0 }) + (if crosses(q[3], q[0], p) { 1int } else { 0 })
}

/// A rectangle turned by `rotate` about the pivot that `origin` sets, with
/// its corners and edges.
#[derive(Debug)]
pub struct BoundingBox {
    pub rect: Rect,
    pub lines: Vec<Line>,
    pub points: Vec<FVec>,
    pub rotate: i64,
    pub origin: FVec,
}

impl BoundingBox {
    /// Placement and rotation are in range, and the four corners and four
    /// edges match them.
    pub open spec fn wf(&self) -> bool {
        &&& self.rect.wf()
        &&& self.origin.within(MAX_SIZE as int)
        &&& 0 <= self.rotate < FULL_TURN
        &&& self.points@.len() == 4
        &&& self.lines@.len() == 4
        &&& forall|i: int|
            0 <= i < 4 ==> #[trigger] self.points@[i] == corner_spec(
                self.rect,
                self.origin,
                self.rotate as int,
                i,
            )
        &&& forall|i: int| 0 <= i < 4 ==> #[trigger] self.lines@[i] == edge_spec(self.points@, i)
    }

    /// The mean of the four corners, each coordinate rounded toward zero.
    pub open spec fn center_spec(&self) -> FVec {
        let q = self.points@;
        FVec {
            x: tdiv(q[0].x + q[1].x + q[2].x + q[3].x, 4) as i64,
            y: tdiv(q[0].y + q[1].y + q[2].y + q[3].y, 4) as i64,
        }
    }

    pub fn new(rect: &Rect) -> (r: BoundingBox)
        requires
            rect.wf(),
        ensures
            r.wf(),
            r.rect == *rect,
            r.rotate == 0,
            r.origin == (FVec { x: 0, y: 0 }),
    {
        Self::new_with_origin(rect, FVec { x: 0, y: 0 })
    }

    pub fn new_with_origin(rect: &Rect, origin: FVec) -> (r: BoundingBox)
        requires
            rect.wf(),
            origin.within(MAX_SIZE as int),
        ensures
            r.wf(),
            r.rect == *rect,
            r.rotate == 0,
            r.origin == origin,
    {
        let mut b = BoundingBox {
            rect: *rect,
            rotate: 0,
            origin,
            lines: Vec::new(),
            points: Vec::new(),
        };
        b.update_coordinates();
        b
    }

    /// Whether `point` lies inside the box, by the even-odd rule.
    pub fn contains(&self, point: &FVec) -> (r: bool)
        requires
            self.wf(),
            point.in_world(),
        ensures
            r == (crossings(self.points@, *point) % 2 == 1),
    {
        proof {
            self.lemma_corners_in_world();
        }
        let mut count: u8 = 0;
        if crosses_exec(self.points[0], self.points[1], *point) {
            count = count + 1;
        }
        if crosses_exec(self.points[1], self.points[2], *point) {
            count = count + 1;
        }
        if crosses_exec(self.points[2], self.points[3], *point) {
            count = count + 1;
        }
        if crosses_exec(self.points[3], self.points[0], *point) {
            count = count + 1;
        }
        count % 2 == 1
    }

    /// Moves the box to `point` and sets its rotation, brought into a full turn.
    pub fn reset_to(&mut self, point: &FVec, rotate: i64)
        requires
            -PLACE_LIMIT <= point.x <= PLACE_LIMIT,
            -PLACE_LIMIT <= point.y <= PLACE_LIMIT,
            old(self).wf(),
        ensures
            final(self).wf(),
            final(self).rect == (Rect { x: point.x, y: point.y, ..old(self).rect }),
            final(self).origin == old(self).origin,
            final(self).rotate == wrap_spec(rotate as int),
    {
        self.rect.x = point.x;
        self.rect.y = point.y;
        self.rotate = wrap_angle(rotate as i128);
        self.update_coordinates();
    }

    /// Turns the box by `delta`, keeping its rotation within a full turn.
    pub fn turn_at(&mut self, delta: i64)
        requires
            old(self).wf(),
        ensures
            final(self).wf(),
            final(self).rotate == wrap_spec(old(self).rotate + delta),
            0 <= final(self).rotate < FULL_TURN,
            final(self).rect == old(self).rect,
            final(self).origin == old(self).origin,
    {
        self.rotate = wrap_angle(self.rotate as i128 + delta as i128);
        self.update_coordinates();
    }

    /// Advances the box by `velocity` along its heading; the placement stops
    /// at the edge of the world.
    pub fn move_at(&mut self, velocity: i64)
        requires
            old(self).wf(),
            -MAX_SIZE <= velocity <= MAX_SIZE,
        ensures
            final(self).wf(),
            final(self).rect == (Rect {
                x: clamp_place(old(self).rect.x + tdiv(velocity * cos_spec(old(self).rotate as int), TRIG_ONE as int)) as i64,
                y: clamp_place(old(self).rect.y + tdiv(velocity * sin_spec(old(self).rotate as int), TRIG_ONE as int)) as i64,
                ..old(self).rect
            }),
            final(self).rotate == old(self).rotate,
            final(self).origin == old(self).origin,
    {
        let c = cos(self.rotate) as i128;
        let s = sin(self.rotate) as i128;
        proof {
            lemma_mul_bound(velocity as int, c as int, MAX_SIZE as int, TRIG_ONE as int);
            lemma_mul_bound(velocity as int, s as int, MAX_SIZE as int, TRIG_ONE as int);
            lemma_tdiv_bound(velocity * c, TRIG_ONE as int, MAX_SIZE as int);
            lemma_tdiv_bound(velocity * s, TRIG_ONE as int, MAX_SIZE as int);
        }
        let dx = ((velocity as i128) * c / (TRIG_ONE as i128)) as i64;
        let dy = ((velocity as i128) * s / (TRIG_ONE as i128)) as i64;
        self.rect.x = clamp_place_exec(self.rect.x + dx);
        self.rect.y = clamp_place_exec(self.rect.y + dy);
        self.update_coordinates();
    }

    fn update_coordinates(&mut self)
        requires
            old(self).rect.wf(),
            old(self).origin.within(MAX_SIZE as int),
            0 <= old(self).rotate < FULL_TURN,
        ensures
            final(self).wf(),
            final(self).rect == old(self).rect,
            final(self).rotate == old(self).rotate,
            final(self).origin == old(self).origin,
    {
        let ox = self.origin.x;
        let oy = self.origin.y;
        let w = self.rect.w;
        let h = self.rect.h;
        let offsets = [
            FVec { x: 0 - 2 * ox, y: 0 - 2 * oy },
            FVec { x: w - 2 * ox, y: 0 - 2 * oy },
            FVec { x: w - 2 * ox, y: h - 2 * oy },
            FVec { x: 0 - 2 * ox, y: h - 2 * oy },
        ];
        assert(offsets@[0] == corner_offset(self.rect, self.origin, 0));
        assert(offsets@[1] == corner_offset(self.rect, self.origin, 1));
        assert(offsets@[2] == corner_offset(self.rect, self.origin, 2));
        assert(offsets@[3] == corner_offset(self.rect, self.origin, 3));
        let turned = rotate_four(self.rotate, offsets);
        let px = self.rect.x + ox;
        let py = self.rect.y + oy;
        let mut points: Vec<FVec> = Vec::new();
        let mut i: usize = 0;
        while i < 4
            invariant
                0 <= i <= 4,
                points@.len() == i,
                px == self.rect.x + self.origin.x,
                py == self.rect.y + self.origin.y,
                self.rect.wf(),
                self.origin.within(MAX_SIZE as int),
                forall|k: int| 0 <= k < 4 ==> (#[trigger] turned@[k]).within(100_000_000),
                forall|k: int| 0 <= k < 4 ==> #[trigger] turned@[k] == rotated_spec(offsets@[k], self.rotate as int),
                forall|k: int| 0 <= k < 4 ==> #[trigger] offsets@[k] == corner_offset(self.rect, self.origin, k),
                forall|k: int| 0 <= k < i ==> #[trigger] points@[k] == corner_spec(self.rect, self.origin, self.rotate as int, k),
            decreases 4 - i,
        {
            assert(turned@[i as int].within(100_000_000));
            points.push(FVec { x: px + turned[i].x, y: py + turned[i].y });
            i += 1;
        }
        let mut lines: Vec<Line> = Vec::new();
        let mut i: usize = 0;
        while i < 4
            invariant
                0 <= i <= 4,
                points@.len() == 4,
                lines@.len() == i,
                forall|k: int| 0 <= k < i ==> #[trigger] lines@[k] == edge_spec(points@, k),
            decreases 4 - i,
        {
            let next = if i < 3 { i + 1 } else { 0 };
            lines.push(Line { start: points[i], end: points[next] });
            i += 1;
        }
        self.points = points;
        self.lines = lines;
    }

    /// The corners and edges.
    pub fn get_coordinates(&self) -> (r: (&Vec<FVec>, &Vec<Line>))
        ensures
            r.0@ == self.points@,
            r.1@ == self.lines@,
    {
        (&self.points, &self.lines)
    }

    /// The mean of the four corners; a well-formed box always has them.
    pub fn get_center(&self) -> (r: Option<FVec>)
        requires
            self.wf(),
        ensures
            r == Some(self.center_spec()),
            self.center_spec().in_world(),
            self.center_spec().within(910_000_000),
    {
        proof {
            self.lemma_corners_in_world();
        }
        let sx = self.points[0].x as i128 + self.points[1].x as i128 + self.points[2].x as i128
            + self.points[3].x as i128;
        let sy = self.points[0].y as i128 + self.points[1].y as i128 + self.points[2].y as i128
            + self.points[3].y as i128;
        Some(FVec { x: (sx / 4) as i64, y: (sy / 4) as i64 })
    }

    /// Every corner and edge of a well-formed box lies in the world.
    pub proof fn lemma_corners_in_world(&self)
        requires
            self.wf(),
        ensures
            forall|i: int| 0 <= i < 4 ==> (#[trigger] self.points@[i]).within(910_000_000),
            forall|i: int| 0 <= i < 4 ==> (#[trigger] self.points@[i]).in_world(),
            forall|i: int| 0 <= i < 4 ==> (#[trigger] self.lines@[i]).in_world(),
            self.center_spec().within(910_000_000),
    {
        assert forall|i: int| 0 <= i < 4 implies (#[trigger] self.points@[i]).within(910_000_000) by {
            let off = corner_offset(self.rect, self.origin, i);
            let c = cos_spec(self.rotate as int);
            let s = sin_spec(self.rotate as int);
            crate::angle::lemma_trig_range(self.rotate as int);
            lemma_mul_bound(c, off.x as int, 1_000_000, 50_000_000);
            lemma_mul_bound(s, off.y as int, 1_000_000, 50_000_000);
            lemma_mul_bound(s, off.x as int, 1_000_000, 50_000_000);
            lemma_mul_bound(c, off.y as int, 1_000_000, 50_000_000);
            lemma_tdiv_bound(c * off.x - s * off.y, 1_000_000, 100_000_000);
            lemma_tdiv_bound(s * off.x + c * off.y, 1_000_000, 100_000_000);
        }
        assert forall|i: int| 0 <= i < 4 implies (#[trigger] self.lines@[i]).in_world() by {
            assert(self.points@[i].in_world());
            assert(self.points@[(i + 1) % 4].in_world());
        }
    }
}

/// A well-formed box, as every constructor and every change leaves it, has
/// exactly four corners and four edges.
pub proof fn lemma_four_corners_and_edges(b: &BoundingBox)
    requires
        b.wf(),
    ensures
        b.points@.len() == 4,
        b.lines@.len() == 4,
        forall|i: int| 0 <= i < 4 ==> (#[trigger] b.lines@[i]).start == b.points@[i] && b.lines@[i].end == b.points@[(i + 1) % 4],
{
}

/// The placement limit applied to one coordinate.
pub open spec fn clamp_place(v: int) -> int {
    if v < -PLACE_LIMIT {
        -PLACE_LIMIT as int
    } else if v > PLACE_LIMIT {
        PLACE_LIMIT as int
    } else {
        v
    }
}

fn clamp_place_exec(v: i64) -> (r: i64)
    ensures
        r == clamp_place(v as int),
{
    if v < -PLACE_LIMIT {
        -PLACE_LIMIT
    } else if v > PLACE_LIMIT {
        PLACE_LIMIT
    } else {
        v
    }
}

fn crosses_exec(v1: FVec, v2: FVec, p: FVec) -> (r: bool)
    requires
        v1.in_world(),
        v2.in_world(),
        p.in_world(),
    ensures
        r == crosses(v1, v2, p),
{
    if (v1.y > p.y) != (v2.y > p.y) {
        let den = (v2.y - v1.y) as i128;
        proof {
            lemma_mul_bound((p.x - v1.x) as int, den as int, 2_000_000_000, 2_000_000_000);
            lemma_mul_bound((v2.x - v1.x) as int, (p.y - v1.y) as int, 2_000_000_000, 2_000_000_000);
        }
        let lhs = ((p.x - v1.x) as i128) * den;
        let rhs = ((v2.x - v1.x) as i128) * ((p.y - v1.y) as i128);
        if den > 0 {
            lhs < rhs
        } else {
            lhs > rhs
        }
    } else {
        false
    }
}

} // verus!
