//! The closed track: segments laid out one after another from a list of
//! direction tokens, each with the walls that bound its lane.
use vstd::prelude::*;
use crate::angle::{FULL_TURN, QUARTER_TURN, rotate_one, rotated_spec};
use crate::bounding_box::{BoundingBox, Rect, crossings, PLACE_LIMIT};
use crate::geometry::{FVec, Line, intersect_spec};
use crate::ids::new_id;

verus! {

/// The width of a segment tile.
pub const TRACK_SEG_WIDTH: i64 = 150_000;

/// The height of a segment tile.
pub const TRACK_SEG_HEIGHT: i64 = 150_000;

/// How many straight pieces approximate the wall of a corner.
pub const ARC_PIECES: usize = 8;

/// Where a track may start: far enough inside the world for a long track.
pub const TRACK_START_LIMIT: i64 = 600_000_000;

/// The most segments a track may have.
pub const MAX_SEGMENTS: usize = 1000;

/// A tile's entry side and exit side.
#[derive(Clone, Copy, Debug, PartialEq, Eq, Structural)]
pub enum TrackSegmentDirection {
    TopToLeft,
    TopToBottom,
    TopToRight,
    RightToTop,
    RightToLeft,
    RightToBottom,
    BottomToLeft,
    BottomToTop,
    BottomToRight,
    LeftToTop,
    LeftToRight,
    LeftToBottom,
}

/// The shape of a tile.
#[derive(Clone, Copy, Debug, PartialEq, Eq, Structural)]
pub enum TrackSegmentType {
    UpDown,
    LeftRight,
    LowerLeft,
    LowerRight,
    UpperLeft,
    UpperRight,
    FinishLine,
}

/// A side of a tile.
#[derive(Clone, Copy, Debug, PartialEq, Eq, Structural)]
pub enum Side {
    Top,
    Right,
    Bottom,
    Left,
}

pub open spec fn entry_side(d: TrackSegmentDirection) -> Side {
    match d {
        TrackSegmentDirection::TopToLeft | TrackSegmentDirection::TopToBottom
        | TrackSegmentDirection::TopToRight => Side::Top,
        TrackSegmentDirection::RightToTop | TrackSegmentDirection::RightToLeft
        | TrackSegmentDirection::RightToBottom => Side::Right,
        TrackSegmentDirection::BottomToLeft | TrackSegmentDirection::BottomToTop
        | TrackSegmentDirection::BottomToRight => Side::Bottom,
        _ => Side::Left,
    }
}

pub open spec fn exit_side(d: TrackSegmentDirection) -> Side {
    match d {
        TrackSegmentDirection::RightToTop | TrackSegmentDirection::BottomToTop
        | TrackSegmentDirection::LeftToTop => Side::Top,
        TrackSegmentDirection::TopToRight | TrackSegmentDirection::BottomToRight
        | TrackSegmentDirection::LeftToRight => Side::Right,
        TrackSegmentDirection::TopToBottom | TrackSegmentDirection::RightToBottom
        | TrackSegmentDirection::LeftToBottom => Side::Bottom,
        _ => Side::Left,
    }
}

pub open spec fn opposite(s: Side) -> Side {
    match s {
        Side::Top => Side::Bottom,
        Side::Right => Side::Left,
        Side::Bottom => Side::Top,
        Side::Left => Side::Right,
    }
}

/// The step, in tiles, from a tile to the next one: toward its exit side.
pub open spec fn step_of(d: TrackSegmentDirection) -> (int, int) {
    match exit_side(d) {
        Side::Top => (0, -1),
        Side::Right => (1, 0),
        Side::Bottom => (0, 1),
        Side::Left => (-1, 0),
    }
}

/// The shape that each token is drawn with.
pub open spec fn type_of(d: TrackSegmentDirection) -> TrackSegmentType {
    match d {
        TrackSegmentDirection::TopToLeft => TrackSegmentType::LowerRight,
        TrackSegmentDirection::TopToBottom => TrackSegmentType::UpDown,
        TrackSegmentDirection::TopToRight => TrackSegmentType::LowerLeft,
        TrackSegmentDirection::RightToTop => TrackSegmentType::LowerLeft,
        TrackSegmentDirection::RightToLeft => TrackSegmentType::LeftRight,
        TrackSegmentDirection::RightToBottom => TrackSegmentType::UpperLeft,
        TrackSegmentDirection::BottomToLeft => TrackSegmentType::UpperRight,
        TrackSegmentDirection::BottomToTop => TrackSegmentType::UpDown,
        TrackSegmentDirection::BottomToRight => TrackSegmentType::UpperLeft,
        TrackSegmentDirection::LeftToTop => TrackSegmentType::LowerRight,
        TrackSegmentDirection::LeftToRight => TrackSegmentType::LeftRight,
        TrackSegmentDirection::LeftToBottom => TrackSegmentType::UpperRight,
    }
}

/// The forward direction of a token, one of eight compass directions; a
/// corner counts as the diagonal between its entry and its exit.
pub open spec fn forward_spec(d: TrackSegmentDirection) -> FVec {
    match d {
        TrackSegmentDirection::TopToLeft => FVec { x: -1i64, y: 1 },
        TrackSegmentDirection::TopToBottom => FVec { x: 0, y: 1 },
        TrackSegmentDirection::TopToRight => FVec { x: 1, y: 1 },
        TrackSegmentDirection::RightToTop => FVec { x: -1i64, y: -1i64 },
        TrackSegmentDirection::RightToLeft => FVec { x: -1i64, y: 0 },
        TrackSegmentDirection::RightToBottom => FVec { x: -1i64, y: 1 },
        TrackSegmentDirection::BottomToLeft => FVec { x: -1i64, y: -1i64 },
        TrackSegmentDirection::BottomToTop => FVec { x: 0, y: -1i64 },
        TrackSegmentDirection::BottomToRight => FVec { x: 1, y: -1i64 },
        TrackSegmentDirection::LeftToTop => FVec { x: 1, y: -1i64 },
        TrackSegmentDirection::LeftToRight => FVec { x: 1, y: 0 },
        TrackSegmentDirection::LeftToBottom => FVec { x: 1, y: 1 },
    }
}

/// The heading of a token's forward direction, in eighths of a turn
/// (screen coordinates: `y` grows downward, so a quarter turn faces down).
pub open spec fn heading_eighths(d: TrackSegmentDirection) -> int {
    match d {
        TrackSegmentDirection::LeftToRight => 0,
        TrackSegmentDirection::TopToRight | TrackSegmentDirection::LeftToBottom => 1,
        TrackSegmentDirection::TopToBottom => 2,
        TrackSegmentDirection::TopToLeft | TrackSegmentDirection::RightToBottom => 3,
        TrackSegmentDirection::RightToLeft => 4,
        TrackSegmentDirection::RightToTop | TrackSegmentDirection::BottomToLeft => 5,
        TrackSegmentDirection::BottomToTop => 6,
        TrackSegmentDirection::BottomToRight | TrackSegmentDirection::LeftToTop => 7,
    }
}

impl TrackSegmentDirection {
    /// The forward direction that progress along this tile is measured by.
    pub fn forward(&self) -> (r: FVec)
        ensures
            r == forward_spec(*self),
    {
        match self {
            TrackSegmentDirection::TopToLeft => FVec { x: -1i64, y: 1 },
            TrackSegmentDirection::TopToBottom => FVec { x: 0, y: 1 },
            TrackSegmentDirection::TopToRight => FVec { x: 1, y: 1 },
            TrackSegmentDirection::RightToTop => FVec { x: -1i64, y: -1i64 },
            TrackSegmentDirection::RightToLeft => FVec { x: -1i64, y: 0 },
            TrackSegmentDirection::RightToBottom => FVec { x: -1i64, y: 1 },
            TrackSegmentDirection::BottomToLeft => FVec { x: -1i64, y: -1i64 },
            TrackSegmentDirection::BottomToTop => FVec { x: 0, y: -1i64 },
            TrackSegmentDirection::BottomToRight => FVec { x: 1, y: -1i64 },
            TrackSegmentDirection::LeftToTop => FVec { x: 1, y: -1i64 },
            TrackSegmentDirection::LeftToRight => FVec { x: 1, y: 0 },
            TrackSegmentDirection::LeftToBottom => FVec { x: 1, y: 1 },
        }
    }

    /// The heading of the forward direction, as an angle in `[0, FULL_TURN)`.
    pub fn heading(&self) -> (r: i64)
        ensures
            r == heading_eighths(*self) * (FULL_TURN / 8),
            0 <= r < FULL_TURN,
    {
        let eighths: i64 = match self {
            TrackSegmentDirection::LeftToRight => 0,
            TrackSegmentDirection::TopToRight | TrackSegmentDirection::LeftToBottom => 1,
            TrackSegmentDirection::TopToBottom => 2,
            TrackSegmentDirection::TopToLeft | TrackSegmentDirection::RightToBottom => 3,
            TrackSegmentDirection::RightToLeft => 4,
            TrackSegmentDirection::RightToTop | TrackSegmentDirection::BottomToLeft => 5,
            TrackSegmentDirection::BottomToTop => 6,
            TrackSegmentDirection::BottomToRight | TrackSegmentDirection::LeftToTop => 7,
        };
        eighths * (FULL_TURN / 8)
    }
}

/// Point `k` of a wall of `n` pieces: `(sx, sy)` turned by `k / n` of a
/// quarter turn, about `(cx, cy)`.
pub open spec fn arc_point(sx: int, sy: int, cx: int, cy: int, k: int, n: int) -> FVec {
    let o = rotated_spec(FVec { x: sx as i64, y: sy as i64 }, k * QUARTER_TURN / n);
    FVec { x: (cx + o.x) as i64, y: (cy + o.y) as i64 }
}

/// A quarter circle about `(cx, cy)` from `(cx + sx, cy + sy)`, in `n` straight pieces.
pub open spec fn arc_spec(sx: int, sy: int, cx: int, cy: int, n: int) -> Seq<Line> {
    Seq::new(
        n as nat,
        |k: int| Line { start: arc_point(sx, sy, cx, cy, k, n), end: arc_point(sx, sy, cx, cy, k + 1, n) },
    )
}

pub open spec fn line_spec(x1: int, y1: int, x2: int, y2: int) -> Line {
    Line { start: FVec { x: x1 as i64, y: y1 as i64 }, end: FVec { x: x2 as i64, y: y2 as i64 } }
}

/// The walls of a tile of shape `t` whose top left corner is `(x, y)`: two
/// rails for a straight tile, a quarter circle for a corner.
pub open spec fn boundaries_spec(x: int, y: int, t: TrackSegmentType) -> Seq<Line> {
    let w = TRACK_SEG_WIDTH as int;
    let h = TRACK_SEG_HEIGHT as int;
    let n = ARC_PIECES as int;
    match t {
        TrackSegmentType::UpDown => seq![line_spec(x, y, x, y + h), line_spec(x + w, y, x + w, y + h)],
        TrackSegmentType::LeftRight => seq![line_spec(x, y, x + w, y), line_spec(x, y + h, x + w, y + h)],
        TrackSegmentType::LowerLeft => arc_spec(0, w, x + w, y, n),
        TrackSegmentType::LowerRight => arc_spec(w, 0, x, y, n),
        TrackSegmentType::UpperLeft => arc_spec(-w, 0, x + w, y + h, n),
        TrackSegmentType::UpperRight => arc_spec(0, -h, x, y + h, n),
        TrackSegmentType::FinishLine => seq![],
    }
}

/// Where edge `e` first meets one of `bounds`, trying them from index `j` on.
pub open spec fn row_hit(e: Line, bounds: Seq<Line>, j: int) -> Option<(int, int)>
    decreases bounds.len() - j,
{
    if j < 0 || j >= bounds.len() {
        None
    } else {
        match intersect_spec(e, bounds[j]) {
            Some(q) => Some(q),
            None => row_hit(e, bounds, j + 1),
        }
    }
}

/// The first meeting of one of `edges`, from index `i` on, with one of `bounds`.
pub open spec fn first_hit(edges: Seq<Line>, bounds: Seq<Line>, i: int) -> Option<(int, int)>
    decreases edges.len() - i,
{
    if i < 0 || i >= edges.len() {
        None
    } else {
        match row_hit(edges[i], bounds, 0) {
            Some(q) => Some(q),
            None => first_hit(edges, bounds, i + 1),
        }
    }
}

/// Boxes whose centers are farther apart than this are not tested.
pub const COLLIDE_RANGE: i64 = 500_000;

/// One tile of the track: its shape, its token, its walls and its box.
pub struct TrackSegment {
    pub id: u128,
    pub track_type: TrackSegmentType,
    pub direction: TrackSegmentDirection,
    pub finish_line: Option<Line>,
    pub boundaries: Vec<Line>,
    pub body: BoundingBox,
    pub debug: bool,
}

pub open spec fn seg_collide_spec(seg: TrackSegment, other: BoundingBox) -> Option<(int, int)> {
    // 250_000_000_000 is COLLIDE_RANGE squared
    if seg.body.center_spec().dist_sq_spec(other.center_spec()) > 250_000_000_000 {
        None
    } else {
        first_hit(other.lines@, seg.boundaries@, 0)
    }
}

impl TrackSegment {
    /// The tile's box is the unrotated tile, and its walls are those of its shape.
    pub open spec fn wf(&self) -> bool {
        &&& self.body.wf()
        &&& self.body.rect.w == TRACK_SEG_WIDTH
        &&& self.body.rect.h == TRACK_SEG_HEIGHT
        &&& self.body.rotate == 0
        &&& self.body.origin == FVec { x: 0, y: 0 }
        &&& self.boundaries@ == boundaries_spec(
            self.body.rect.x as int,
            self.body.rect.y as int,
            self.track_type,
        )
        &&& forall|i: int| 0 <= i < self.boundaries@.len() ==> (#[trigger] self.boundaries@[i]).in_world()
    }

    pub fn new(x: i64, y: i64, track_type: TrackSegmentType, direction: TrackSegmentDirection) -> (r: TrackSegment)
        requires
            -PLACE_LIMIT <= x <= PLACE_LIMIT,
            -PLACE_LIMIT <= y <= PLACE_LIMIT,
        ensures
            r.wf(),
            r.body.rect.x == x,
            r.body.rect.y == y,
            r.track_type == track_type,
            r.direction == direction,
            r.finish_line is None,
            !r.debug,
    {
        let w = TRACK_SEG_WIDTH;
        let h = TRACK_SEG_HEIGHT;
        let lines = match track_type {
            TrackSegmentType::UpDown => {
                let mut v = Vec::new();
                v.push(Line::new(x, y, x, y + h));
                v.push(Line::new(x + w, y, x + w, y + h));
                v
            },
            TrackSegmentType::LeftRight => {
                let mut v = Vec::new();
                v.push(Line::new(x, y, x + w, y));
                v.push(Line::new(x, y + h, x + w, y + h));
                v
            },
            TrackSegmentType::LowerLeft => Self::arc_lines(0, w, x + w, y, ARC_PIECES),
            TrackSegmentType::LowerRight => Self::arc_lines(w, 0, x, y, ARC_PIECES),
            TrackSegmentType::UpperLeft => Self::arc_lines(-w, 0, x + w, y + h, ARC_PIECES),
            TrackSegmentType::UpperRight => Self::arc_lines(0, -h, x, y + h, ARC_PIECES),
            TrackSegmentType::FinishLine => Vec::new(),
        };
        assert(lines@ =~= boundaries_spec(x as int, y as int, track_type));
        TrackSegment {
            id: new_id(),
            track_type,
            direction,
            finish_line: None,
            boundaries: lines,
            body: BoundingBox::new_with_origin(&Rect { x, y, w, h }, FVec { x: 0, y: 0 }),
            debug: false,
        }
    }

    pub fn set_debug(self, debug: bool) -> (r: TrackSegment)
        ensures
            r == (TrackSegment { debug, ..self }),
    {
        let mut s = self;
        s.debug = debug;
        s
    }

    /// The wall of a corner: `num_seg` straight pieces from `(cx + sx, cy + sy)`
    /// around `(cx, cy)` through a quarter turn.
    fn arc_lines(start_x: i64, start_y: i64, center_x: i64, center_y: i64, num_seg: usize) -> (r: Vec<Line>)
        requires
            -TRACK_SEG_WIDTH <= start_x <= TRACK_SEG_WIDTH,
            -TRACK_SEG_WIDTH <= start_y <= TRACK_SEG_WIDTH,
            -(PLACE_LIMIT + TRACK_SEG_WIDTH) <= center_x <= PLACE_LIMIT + TRACK_SEG_WIDTH,
            -(PLACE_LIMIT + TRACK_SEG_WIDTH) <= center_y <= PLACE_LIMIT + TRACK_SEG_WIDTH,
            1 <= num_seg <= 64,
        ensures
            r@ == arc_spec(start_x as int, start_y as int, center_x as int, center_y as int, num_seg as int),
            forall|i: int| 0 <= i < r@.len() ==> (#[trigger] r@[i]).in_world(),
    {
        let start = FVec { x: start_x, y: start_y };
        let mut lines: Vec<Line> = Vec::new();
        let first = rotate_one(0, start);
        let mut last = FVec { x: center_x + first.x, y: center_y + first.y };
        let mut k: usize = 0;
        while k < num_seg
            invariant
                0 <= k <= num_seg <= 64,
                start == (FVec { x: start_x, y: start_y }),
                start.within(50_000_000),
                -(PLACE_LIMIT + TRACK_SEG_WIDTH) <= center_x <= PLACE_LIMIT + TRACK_SEG_WIDTH,
                -(PLACE_LIMIT + TRACK_SEG_WIDTH) <= center_y <= PLACE_LIMIT + TRACK_SEG_WIDTH,
                lines@.len() == k,
                last == arc_point(start_x as int, start_y as int, center_x as int, center_y as int, k as int, num_seg as int),
                last.in_world(),
                forall|i: int| 0 <= i < k ==> #[trigger] lines@[i] == arc_spec(start_x as int, start_y as int, center_x as int, center_y as int, num_seg as int)[i],
                forall|i: int| 0 <= i < k ==> (#[trigger] lines@[i]).in_world(),
            decreases num_seg - k,
        {
            let angle = ((k + 1) as i64) * QUARTER_TURN / (num_seg as i64);
            assert(angle <= QUARTER_TURN) by (nonlinear_arith)
                requires
                    angle == ((k + 1) * QUARTER_TURN) / (num_seg as int),
                    k + 1 <= num_seg,
                    num_seg >= 1,
            ;
            let o = rotate_one(angle, start);
            let next = FVec { x: center_x + o.x, y: center_y + o.y };
            lines.push(Line { start: last, end: next });
            last = next;
            k += 1;
        }
        assert(lines@ =~= arc_spec(start_x as int, start_y as int, center_x as int, center_y as int, num_seg as int));
        lines
    }

    /// Where an edge of `other_body` first meets a wall of this tile; nothing
    /// when the two are too far apart to touch.
    pub fn collide(&self, other_body: &BoundingBox) -> (r: Option<FVec>)
        requires
            self.wf(),
            other_body.wf(),
        ensures
            match seg_collide_spec(*self, *other_body) {
                Some(q) => r matches Some(p) && p.x == q.0 && p.y == q.1,
                None => r is None,
            },
    {
        let center = self.body.get_center().unwrap();
        let other_center = other_body.get_center().unwrap();
        let dx = (center.x - other_center.x) as i128;
        let dy = (center.y - other_center.y) as i128;
        proof {
            crate::geometry::lemma_mul_bound(dx as int, dx as int, 2_000_000_000, 2_000_000_000);
            crate::geometry::lemma_mul_bound(dy as int, dy as int, 2_000_000_000, 2_000_000_000);
        }
        if dx * dx + dy * dy > 250_000_000_000 {
            assert(seg_collide_spec(*self, *other_body) is None);
            return None;
        }
        assert(seg_collide_spec(*self, *other_body) == first_hit(other_body.lines@, self.boundaries@, 0));
        proof {
            other_body.lemma_corners_in_world();
        }
        let (_, lines) = other_body.get_coordinates();
        let mut i: usize = 0;
        while i < lines.len()
            invariant
                self.wf(),
                lines@ == other_body.lines@,
                lines@.len() == 4,
                forall|k: int| 0 <= k < 4 ==> (#[trigger] lines@[k]).in_world(),
                0 <= i <= 4,
                first_hit(lines@, self.boundaries@, 0) == first_hit(lines@, self.boundaries@, i as int),
                seg_collide_spec(*self, *other_body) == first_hit(lines@, self.boundaries@, 0),
            decreases 4 - i,
        {
            let line = lines[i];
            assert(line.in_world());
            let mut j: usize = 0;
            while j < self.boundaries.len()
                invariant
                    self.wf(),
                    line.in_world(),
                    lines@ == other_body.lines@,
                    lines@.len() == 4,
                    forall|k: int| 0 <= k < 4 ==> (#[trigger] lines@[k]).in_world(),
                    0 <= i < 4,
                    line == lines@[i as int],
                    first_hit(lines@, self.boundaries@, 0) == first_hit(lines@, self.boundaries@, i as int),
                seg_collide_spec(*self, *other_body) == first_hit(lines@, self.boundaries@, 0),
                    0 <= j <= self.boundaries@.len(),
                    row_hit(line, self.boundaries@, 0) == row_hit(line, self.boundaries@, j as int),
                decreases self.boundaries@.len() - j,
            {
                let b = self.boundaries[j];
                assert(b.in_world());
                if let Some(point) = line.intersect(&b) {
                    assert(row_hit(line, self.boundaries@, j as int) == Some((point.x as int, point.y as int)));
                    assert(first_hit(lines@, self.boundaries@, i as int) == Some((point.x as int, point.y as int)));
                    return Some(point);
                }
                j += 1;
            }
            assert(row_hit(line, self.boundaries@, j as int) is None);
            assert(first_hit(lines@, self.boundaries@, i as int) == first_hit(lines@, self.boundaries@, i + 1));
            i += 1;
        }
        assert(first_hit(lines@, self.boundaries@, 4) is None);
        None
    }
}

/// Where segment `k` of a track from `(sx, sy)` is placed: each segment one
/// tile further than the last, toward the last one's exit.
pub open spec fn layout(sx: int, sy: int, dirs: Seq<TrackSegmentDirection>, k: int) -> (int, int)
    decreases k,
{
    if k <= 0 {
        (sx, sy)
    } else {
        let p = layout(sx, sy, dirs, k - 1);
        let st = step_of(dirs[k - 1]);
        (p.0 + TRACK_SEG_WIDTH * st.0, p.1 + TRACK_SEG_HEIGHT * st.1)
    }
}

/// The sum of the first `k` steps, in tiles.
pub open spec fn net_steps(dirs: Seq<TrackSegmentDirection>, k: int) -> (int, int)
    decreases k,
{
    if k <= 0 {
        (0, 0)
    } else {
        let p = net_steps(dirs, k - 1);
        (p.0 + step_of(dirs[k - 1]).0, p.1 + step_of(dirs[k - 1]).1)
    }
}

/// A valid closed loop: each tile is entered from the side the previous one
/// left by, the last one leads into the first, and the steps add up to nothing.
pub open spec fn is_closed_loop(dirs: Seq<TrackSegmentDirection>) -> bool {
    &&& dirs.len() > 0
    &&& forall|i: int|
        0 <= i < dirs.len() ==> #[trigger] entry_side(dirs[(i + 1) % (dirs.len() as int)]) == opposite(
            exit_side(dirs[i]),
        )
    &&& net_steps(dirs, dirs.len() as int) == (0int, 0int)
}

pub proof fn lemma_layout_is_net(sx: int, sy: int, dirs: Seq<TrackSegmentDirection>, k: int)
    requires
        0 <= k <= dirs.len(),
    ensures
        layout(sx, sy, dirs, k) == (
            sx + TRACK_SEG_WIDTH * net_steps(dirs, k).0,
            sy + TRACK_SEG_HEIGHT * net_steps(dirs, k).1,
        ),
        -k <= net_steps(dirs, k).0 <= k,
        -k <= net_steps(dirs, k).1 <= k,
    decreases k,
{
    if k > 0 {
        lemma_layout_is_net(sx, sy, dirs, k - 1);
    }
}

/// A track built from a valid closed loop of tokens comes back to where it
/// started once every token has been placed.
pub proof fn lemma_closed_loop_returns_to_start(sx: int, sy: int, dirs: Seq<TrackSegmentDirection>)
    requires
        is_closed_loop(dirs),
    ensures
        layout(sx, sy, dirs, dirs.len() as int) == (sx, sy),
{
    lemma_layout_is_net(sx, sy, dirs, dirs.len() as int);
}

/// Whether tile `seg` holds the point `p`.
pub open spec fn seg_contains(seg: TrackSegment, p: FVec) -> bool {
    crossings(seg.body.points@, p) % 2 == 1
}

/// The first segment, from index `k` on, that holds `p`.
pub open spec fn first_containing(segs: Seq<TrackSegment>, p: FVec, k: int) -> Option<int>
    decreases segs.len() - k,
{
    if k < 0 || k >= segs.len() {
        None
    } else if seg_contains(segs[k], p) {
        Some(k)
    } else {
        first_containing(segs, p, k + 1)
    }
}

pub proof fn lemma_first_containing_in_range(segs: Seq<TrackSegment>, p: FVec, k: int)
    requires
        0 <= k,
    ensures
        first_containing(segs, p, k) matches Some(i) ==> k <= i < segs.len() && seg_contains(segs[i], p),
    decreases segs.len() - k,
{
    if k < segs.len() && !seg_contains(segs[k], p) {
        lemma_first_containing_in_range(segs, p, k + 1);
    }
}

/// The first segment, from index `k` on, whose walls `body` meets, with the
/// meeting point and the segment's shape.
pub open spec fn first_collision(segs: Seq<TrackSegment>, body: BoundingBox, k: int) -> Option<
    ((int, int), TrackSegmentType),
>
    decreases segs.len() - k,
{
    if k < 0 || k >= segs.len() {
        None
    } else {
        match seg_collide_spec(segs[k], body) {
            Some(q) => Some((q, segs[k].track_type)),
            None => first_collision(segs, body, k + 1),
        }
    }
}

/// The segments of a track, in driving order.
pub struct Track {
    pub segments: Vec<TrackSegment>,
}

impl Track {
    pub open spec fn wf(&self) -> bool {
        forall|k: int| 0 <= k < self.segments@.len() ==> (#[trigger] self.segments@[k]).wf()
    }

    /// Lays out one segment per token from `(start_x, start_y)`, each placed
    /// by the offset of the token before it.
    pub fn new(start_x: i64, start_y: i64, dir_and_types: Vec<TrackSegmentDirection>) -> (r: Track)
        requires
            -TRACK_START_LIMIT <= start_x <= TRACK_START_LIMIT,
            -TRACK_START_LIMIT <= start_y <= TRACK_START_LIMIT,
            dir_and_types@.len() <= MAX_SEGMENTS,
        ensures
            r.wf(),
            r.segments@.len() == dir_and_types@.len(),
            forall|k: int|
                0 <= k < r.segments@.len() ==> {
                    let seg = #[trigger] r.segments@[k];
                    &&& seg.direction == dir_and_types@[k]
                    &&& seg.track_type == type_of(dir_and_types@[k])
                    &&& (seg.body.rect.x as int, seg.body.rect.y as int) == layout(
                        start_x as int,
                        start_y as int,
                        dir_and_types@,
                        k,
                    )
                },
    {
        let dirs = dir_and_types;
        let mut current_x = start_x;
        let mut current_y = start_y;
        let mut segments: Vec<TrackSegment> = Vec::new();
        let mut k: usize = 0;
        while k < dirs.len()
            invariant
                0 <= k <= dirs@.len() <= MAX_SEGMENTS,
                -TRACK_START_LIMIT <= start_x <= TRACK_START_LIMIT,
                -TRACK_START_LIMIT <= start_y <= TRACK_START_LIMIT,
                segments@.len() == k,
                (current_x as int, current_y as int) == layout(start_x as int, start_y as int, dirs@, k as int),
                forall|i: int|
                    0 <= i < k ==> {
                        let seg = #[trigger] segments@[i];
                        &&& seg.wf()
                        &&& seg.direction == dirs@[i]
                        &&& seg.track_type == type_of(dirs@[i])
                        &&& (seg.body.rect.x as int, seg.body.rect.y as int) == layout(
                            start_x as int,
                            start_y as int,
                            dirs@,
                            i,
                        )
                    },
            decreases dirs@.len() - k,
        {
            proof {
                lemma_layout_is_net(start_x as int, start_y as int, dirs@, k as int);
            }
            let dir = dirs[k];
            let (track_type, x, y) = Self::dir_to_type_and_offset(&dir, current_x, current_y);
            let seg = TrackSegment::new(current_x, current_y, track_type, dir);
            segments.push(seg);
            current_x = x;
            current_y = y;
            k += 1;
        }
        Track { segments }
    }

    /// The shape of a token's tile and the place of the next tile.
    fn dir_to_type_and_offset(dir: &TrackSegmentDirection, current_x: i64, current_y: i64) -> (r: (
        TrackSegmentType,
        i64,
        i64,
    ))
        requires
            -PLACE_LIMIT <= current_x <= PLACE_LIMIT,
            -PLACE_LIMIT <= current_y <= PLACE_LIMIT,
        ensures
            r.0 == type_of(*dir),
            r.1 == current_x + TRACK_SEG_WIDTH * step_of(*dir).0,
            r.2 == current_y + TRACK_SEG_HEIGHT * step_of(*dir).1,
    {
        let w = TRACK_SEG_WIDTH;
        let h = TRACK_SEG_HEIGHT;
        match dir {
            TrackSegmentDirection::TopToLeft => (TrackSegmentType::LowerRight, current_x - w, current_y),
            TrackSegmentDirection::TopToBottom => (TrackSegmentType::UpDown, current_x, current_y + h),
            TrackSegmentDirection::TopToRight => (TrackSegmentType::LowerLeft, current_x + w, current_y),
            TrackSegmentDirection::RightToTop => (TrackSegmentType::LowerLeft, current_x, current_y - h),
            TrackSegmentDirection::RightToLeft => (TrackSegmentType::LeftRight, current_x - w, current_y),
            TrackSegmentDirection::RightToBottom => (TrackSegmentType::UpperLeft, current_x, current_y + h),
            TrackSegmentDirection::BottomToRight => (TrackSegmentType::UpperLeft, current_x + w, current_y),
            TrackSegmentDirection::BottomToTop => (TrackSegmentType::UpDown, current_x, current_y - h),
            TrackSegmentDirection::BottomToLeft => (TrackSegmentType::UpperRight, current_x - w, current_y),
            TrackSegmentDirection::LeftToTop => (TrackSegmentType::LowerRight, current_x, current_y - h),
            TrackSegmentDirection::LeftToRight => (TrackSegmentType::LeftRight, current_x + w, current_y),
            TrackSegmentDirection::LeftToBottom => (TrackSegmentType::UpperRight, current_x, current_y + h),
        }
    }

    /// The first segment, in order, whose walls the box meets, with the
    /// meeting point and that segment's shape.
    pub fn on_collide(&self, body: &BoundingBox) -> (r: Option<(FVec, TrackSegmentType)>)
        requires
            self.wf(),
            body.wf(),
        ensures
            match first_collision(self.segments@, *body, 0) {
                Some(c) => r matches Some(h) && h.0.x == c.0.0 && h.0.y == c.0.1 && h.1 == c.1,
                None => r is None,
            },
    {
        let mut k: usize = 0;
        while k < self.segments.len()
            invariant
                self.wf(),
                body.wf(),
                0 <= k <= self.segments@.len(),
                first_collision(self.segments@, *body, 0) == first_collision(self.segments@, *body, k as int),
            decreases self.segments@.len() - k,
        {
            let seg = &self.segments[k];
            assert(seg.wf());
            if let Some(point) = seg.collide(body) {
                return Some((point, seg.track_type));
            }
            k += 1;
        }
        None
    }

    /// The first segment, in order, that holds the center of the box.
    pub fn on_which_track_seg(&self, body: &BoundingBox) -> (r: Option<&TrackSegment>)
        requires
            self.wf(),
            body.wf(),
        ensures
            match first_containing(self.segments@, body.center_spec(), 0) {
                Some(k) => r matches Some(s) && *s == self.segments@[k],
                None => r is None,
            },
    {
        let center = body.get_center().unwrap();
        let mut k: usize = 0;
        while k < self.segments.len()
            invariant
                self.wf(),
                center == body.center_spec(),
                center.in_world(),
                0 <= k <= self.segments@.len(),
                first_containing(self.segments@, center, 0) == first_containing(self.segments@, center, k as int),
            decreases self.segments@.len() - k,
        {
            let seg = &self.segments[k];
            assert(seg.wf());
            if seg.body.contains(&center) {
                return Some(seg);
            }
            k += 1;
        }
        None
    }
}

} // verus!
