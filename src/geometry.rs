//! Points, vectors and line segments with exact integer predicates.
use vstd::prelude::*;

verus! {

/// Every coordinate of the simulated world lies within `[-WORLD, WORLD]`.
pub const WORLD: i64 = 1_000_000_000;

/// Division rounding toward zero, as the machine's `/` does.
pub open spec fn tdiv(a: int, b: int) -> int {
    if a >= 0 {
        a / b
    } else {
        -((-a) / b)
    }
}

/// `a` held to the range of `i64`.
pub open spec fn clamp_i64(a: int) -> int {
    if a > i64::MAX {
        i64::MAX as int
    } else if a < i64::MIN {
        i64::MIN as int
    } else {
        a
    }
}

/// Addition that stops at the ends of the range of `i64`.
pub fn sat_add(a: i64, b: i64) -> (r: i64)
    ensures
        r == clamp_i64(a + b),
{
    let s = a as i128 + b as i128;
    if s > i64::MAX as i128 {
        i64::MAX
    } else if s < i64::MIN as i128 {
        i64::MIN
    } else {
        s as i64
    }
}

pub open spec fn cross(ax: int, ay: int, bx: int, by: int) -> int {
    ax * by - ay * bx
}

/// `r` is the integer square root of `n`, rounded down.
pub open spec fn is_isqrt(r: int, n: int) -> bool {
    0 <= r && r * r <= n < (r + 1) * (r + 1)
}

/// The integer square root of `n` as a function.
pub open spec fn isqrt_spec(n: int) -> int {
    choose|r: int| is_isqrt(r, n)
}

pub proof fn lemma_isqrt_unique(r: int, n: int)
    requires
        is_isqrt(r, n),
    ensures
        isqrt_spec(n) == r,
{
    let q = isqrt_spec(n);
    assert(is_isqrt(q, n));
    if q < r {
        assert((q + 1) * (q + 1) <= r * r) by (nonlinear_arith)
            requires
                0 <= q,
                q + 1 <= r,
        ;
    } else if r < q {
        assert((r + 1) * (r + 1) <= q * q) by (nonlinear_arith)
            requires
                0 <= r,
                r + 1 <= q,
        ;
    }
}

pub proof fn lemma_mul_bound(a: int, b: int, ba: int, bb: int)
    requires
        -ba <= a <= ba,
        -bb <= b <= bb,
    ensures
        -(ba * bb) <= a * b <= ba * bb,
        0 <= ba * bb,
{
    assert(-(ba * bb) <= a * b <= ba * bb && 0 <= ba * bb) by (nonlinear_arith)
        requires
            -ba <= a <= ba,
            -bb <= b <= bb,
    ;
}

/// Scaling `k` by a ratio `n / d` in `[0, 1]` stays between `0` and `k`.
pub proof fn lemma_scaled_between(n: int, d: int, k: int)
    requires
        d > 0,
        0 <= n <= d,
    ensures
        k >= 0 ==> 0 <= tdiv(n * k, d) <= k,
        k <= 0 ==> k <= tdiv(n * k, d) <= 0,
{
    if k >= 0 {
        assert(0 <= n * k <= k * d) by (nonlinear_arith)
            requires
                0 <= n <= d,
                k >= 0,
        ;
        lemma_tdiv_bound(n * k, d, k);
        assert((n * k) / d >= 0) by (nonlinear_arith)
            requires
                n * k >= 0,
                d > 0,
        ;
    } else {
        assert(k * d <= n * k <= 0) by (nonlinear_arith)
            requires
                0 <= n <= d,
                k < 0,
        ;
        assert(-((-k) * d) <= n * k <= (-k) * d) by (nonlinear_arith)
            requires
                k * d <= n * k <= 0,
        ;
        lemma_tdiv_bound(n * k, d, -k);
        assert((-(n * k)) / d >= 0) by (nonlinear_arith)
            requires
                -(n * k) >= 0,
                d > 0,
        ;
    }
}

/// A point or a vector.
#[derive(Clone, Copy, Debug, PartialEq, Eq, Structural)]
pub struct FVec {
    pub x: i64,
    pub y: i64,
}

impl FVec {
    /// Both coordinates lie within `[-bound, bound]`.
    pub open spec fn within(self, bound: int) -> bool {
        -bound <= self.x <= bound && -bound <= self.y <= bound
    }

    pub open spec fn in_world(self) -> bool {
        self.within(WORLD as int)
    }

    pub open spec fn dot_spec(self, o: FVec) -> int {
        self.x * o.x + self.y * o.y
    }

    pub open spec fn dist_sq_spec(self, o: FVec) -> int {
        (self.x - o.x) * (self.x - o.x) + (self.y - o.y) * (self.y - o.y)
    }

    /// The projection of `self` onto `o`, each coordinate rounded toward zero.
    pub open spec fn project_spec(self, o: FVec) -> (int, int) {
        let m = o.dot_spec(o);
        if o.x == 0 && o.y == 0 {
            (0, 0)
        } else {
            (tdiv(self.dot_spec(o) * o.x, m), tdiv(self.dot_spec(o) * o.y, m))
        }
    }

    pub fn new(x: i64, y: i64) -> (r: FVec)
        ensures
            r.x == x,
            r.y == y,
    {
        FVec { x, y }
    }

    pub fn add(self, o: FVec) -> (r: FVec)
        requires
            self.within(4 * WORLD),
            o.within(4 * WORLD),
        ensures
            r.x == self.x + o.x,
            r.y == self.y + o.y,
    {
        FVec { x: self.x + o.x, y: self.y + o.y }
    }

    pub fn sub(self, o: FVec) -> (r: FVec)
        requires
            self.within(4 * WORLD),
            o.within(4 * WORLD),
        ensures
            r.x == self.x - o.x,
            r.y == self.y - o.y,
    {
        FVec { x: self.x - o.x, y: self.y - o.y }
    }

    /// The scalar product.
    pub fn dot(&self, o: &FVec) -> (r: i128)
        requires
            self.within(8 * WORLD),
            o.within(8 * WORLD),
        ensures
            r == self.dot_spec(*o),
    {
        proof {
            lemma_mul_bound(self.x as int, o.x as int, 8_000_000_000, 8_000_000_000);
            lemma_mul_bound(self.y as int, o.y as int, 8_000_000_000, 8_000_000_000);
        }
        (self.x as i128) * (o.x as i128) + (self.y as i128) * (o.y as i128)
    }

    /// Projects `self` onto `other`; the zero vector when `other` is zero.
    pub fn project_on(&self, other: &FVec) -> (r: FVec)
        requires
            self.within(4 * WORLD),
            other.within(4 * WORLD),
        ensures
            r.x == self.project_spec(*other).0,
            r.y == self.project_spec(*other).1,
    {
        if other.x == 0 && other.y == 0 {
            return FVec { x: 0, y: 0 };
        }
        let d = self.dot(other);
        let m = other.dot(other);
        proof {
            lemma_projection_bound(*self, *other);
        }
        let px = d * (other.x as i128) / m;
        let py = d * (other.y as i128) / m;
        FVec { x: px as i64, y: py as i64 }
    }

    /// Euclidean distance, rounded down.
    pub fn distance(&self, other: &FVec) -> (r: i64)
        requires
            self.within(4 * WORLD),
            other.within(4 * WORLD),
        ensures
            is_isqrt(r as int, self.dist_sq_spec(*other)),
    {
        let dx = (self.x - other.x) as i128;
        let dy = (self.y - other.y) as i128;
        proof {
            lemma_mul_bound(dx as int, dx as int, 8_000_000_000, 8_000_000_000);
            lemma_mul_bound(dy as int, dy as int, 8_000_000_000, 8_000_000_000);
            assert(dx * dx + dy * dy >= 0) by (nonlinear_arith);
        }
        let n = (dx * dx + dy * dy) as u128;
        let r = isqrt(n);
        r as i64
    }
}

/// Projecting onto a vector or onto its opposite gives the same result.
pub proof fn lemma_projection_direction_invariant(a: FVec, o: FVec)
    requires
        o.within(4 * WORLD),
    ensures
        a.project_spec(o) == a.project_spec(FVec { x: (-o.x) as i64, y: (-o.y) as i64 }),
{
    let n = FVec { x: (-o.x) as i64, y: (-o.y) as i64 };
    assert(a.dot_spec(n) * n.x == a.dot_spec(o) * o.x) by (nonlinear_arith)
        requires
            n.x == -o.x,
            n.y == -o.y,
    ;
    assert(a.dot_spec(n) * n.y == a.dot_spec(o) * o.y) by (nonlinear_arith)
        requires
            n.x == -o.x,
            n.y == -o.y,
    ;
    assert(n.dot_spec(n) == o.dot_spec(o)) by (nonlinear_arith)
        requires
            n.x == -o.x,
            n.y == -o.y,
    ;
}

/// `|proj| <= 2 * max(|a.x|, |a.y|)`, so a projection fits the coordinate type.
proof fn lemma_projection_bound(a: FVec, o: FVec)
    requires
        a.within(4 * WORLD),
        o.within(4 * WORLD),
        !(o.x == 0 && o.y == 0),
    ensures
        -8 * WORLD <= a.project_spec(o).0 <= 8 * WORLD,
        -8 * WORLD <= a.project_spec(o).1 <= 8 * WORLD,
        0 < o.dot_spec(o) <= 32_000_000_000_000_000_000,
        -(256_000_000_000_000_000_000_000_000_000) <= a.dot_spec(o) * o.x <= 256_000_000_000_000_000_000_000_000_000,
        -(256_000_000_000_000_000_000_000_000_000) <= a.dot_spec(o) * o.y <= 256_000_000_000_000_000_000_000_000_000,
{
    let ax = a.x as int;
    let ay = a.y as int;
    let ox = o.x as int;
    let oy = o.y as int;
    let d = ax * ox + ay * oy;
    let m = ox * ox + oy * oy;
    let big: int = 4_000_000_000;
    assert(m > 0) by (nonlinear_arith)
        requires
            m == ox * ox + oy * oy,
            !(ox == 0 && oy == 0),
    ;
    assert(-((2 * big) * m) <= d * ox <= (2 * big) * m) by (nonlinear_arith)
        requires
            -big <= ax <= big,
            -big <= ay <= big,
            d == ax * ox + ay * oy,
            m == ox * ox + oy * oy,
    ;
    assert(-((2 * big) * m) <= d * oy <= (2 * big) * m) by (nonlinear_arith)
        requires
            -big <= ax <= big,
            -big <= ay <= big,
            d == ax * ox + ay * oy,
            m == ox * ox + oy * oy,
    ;
    assert(m <= 2 * big * big) by (nonlinear_arith)
        requires
            -big <= ox <= big,
            -big <= oy <= big,
            m == ox * ox + oy * oy,
    ;
    assert((2 * big) * m <= (2 * big) * (2 * big * big)) by (nonlinear_arith)
        requires
            0 < m <= 2 * big * big,
            big > 0,
    ;
    lemma_tdiv_bound(d * ox, m, 2 * big);
    lemma_tdiv_bound(d * oy, m, 2 * big);
}

/// `|n| <= k * m` gives `|n / m| <= k`.
pub proof fn lemma_tdiv_bound(n: int, m: int, k: int)
    requires
        m > 0,
        k >= 0,
        -(k * m) <= n <= k * m,
    ensures
        -k <= tdiv(n, m) <= k,
{
    if n >= 0 {
        assert(n / m <= (k * m) / m) by (nonlinear_arith)
            requires
                0 <= n <= k * m,
                m > 0,
        ;
        assert((k * m) / m == k) by (nonlinear_arith)
            requires
                m > 0,
        ;
        assert(n / m >= 0) by (nonlinear_arith)
            requires
                n >= 0,
                m > 0,
        ;
    } else {
        assert((-n) / m <= (k * m) / m) by (nonlinear_arith)
            requires
                0 <= -n <= k * m,
                m > 0,
        ;
        assert((k * m) / m == k) by (nonlinear_arith)
            requires
                m > 0,
        ;
        assert((-n) / m >= 0) by (nonlinear_arith)
            requires
                -n >= 0,
                m > 0,
        ;
    }
}

/// The integer square root of `n`, rounded down.
pub fn isqrt(n: u128) -> (r: u128)
    requires
        n < 0x1_0000_0000_0000_0000_0000_0000,
    ensures
        is_isqrt(r as int, n as int),
        r < 0x4_0000_0000_0000,
{
    let mut lo: u128 = 0;
    let mut hi: u128 = 0x4_0000_0000_0000;
    assert(hi * hi == 0x10_0000_0000_0000_0000_0000_0000);
    while hi - lo > 1
        invariant
            lo < hi <= 0x4_0000_0000_0000,
            lo * lo <= n < hi * hi,
        decreases hi - lo,
    {
        let mid = lo + (hi - lo) / 2;
        assert(mid * mid <= 0x10_0000_0000_0000_0000_0000_0000) by (nonlinear_arith)
            requires
                0 <= mid < 0x4_0000_0000_0000,
        ;
        if mid * mid <= n {
            lo = mid;
        } else {
            hi = mid;
        }
    }
    lo
}

/// A segment from `start` to `end`; it may have zero length.
#[derive(Clone, Copy, Debug, PartialEq, Eq, Structural)]
pub struct Line {
    pub start: FVec,
    pub end: FVec,
}

/// Where segments `a` and `b` meet, by the parametric solution: none when
/// they are parallel or when either parameter leaves `[0, 1]`.
pub open spec fn intersect_spec(a: Line, b: Line) -> Option<(int, int)> {
    let (x1, y1, x2, y2) = (a.start.x as int, a.start.y as int, a.end.x as int, a.end.y as int);
    let (x3, y3, x4, y4) = (b.start.x as int, b.start.y as int, b.end.x as int, b.end.y as int);
    let d0 = cross(x2 - x1, y2 - y1, x4 - x3, y4 - y3);
    let a0 = cross(x4 - x3, y4 - y3, x1 - x3, y1 - y3);
    let b0 = cross(x2 - x1, y2 - y1, x1 - x3, y1 - y3);
    // the same ratios, written over a positive denominator
    let (den, na, nb) = if d0 < 0 { (-d0, -a0, -b0) } else { (d0, a0, b0) };
    if den != 0 && 0 <= na <= den && 0 <= nb <= den {
        Some((x1 + tdiv(na * (x2 - x1), den), y1 + tdiv(na * (y2 - y1), den)))
    } else {
        None
    }
}

impl Line {
    pub open spec fn in_world(self) -> bool {
        self.start.in_world() && self.end.in_world()
    }

    pub fn new(x1: i64, y1: i64, x2: i64, y2: i64) -> (r: Line)
        ensures
            r.start.x == x1 && r.start.y == y1,
            r.end.x == x2 && r.end.y == y2,
    {
        Line { start: FVec { x: x1, y: y1 }, end: FVec { x: x2, y: y2 } }
    }

    /// The crossing point of two segments, if they cross.
    pub fn intersect(&self, other: &Line) -> (r: Option<FVec>)
        requires
            self.in_world(),
            other.in_world(),
        ensures
            r matches Some(p) ==> p.in_world(),
            match intersect_spec(*self, *other) {
                Some(q) => r matches Some(p) && p.x == q.0 && p.y == q.1,
                None => r is None,
            },
    {
        let x1 = self.start.x as i128;
        let y1 = self.start.y as i128;
        let x2 = self.end.x as i128;
        let y2 = self.end.y as i128;
        let x3 = other.start.x as i128;
        let y3 = other.start.y as i128;
        let x4 = other.end.x as i128;
        let y4 = other.end.y as i128;
        let d0 = cross_i128(x2 - x1, y2 - y1, x4 - x3, y4 - y3);
        let a0 = cross_i128(x4 - x3, y4 - y3, x1 - x3, y1 - y3);
        let b0 = cross_i128(x2 - x1, y2 - y1, x1 - x3, y1 - y3);
        if d0 == 0 {
            return None;
        }
        let (den, na, nb) = if d0 < 0 { (-d0, -a0, -b0) } else { (d0, a0, b0) };
        if 0 <= na && na <= den && 0 <= nb && nb <= den {
            proof {
                lemma_mul_bound(na as int, (x2 - x1) as int, 8_000_000_000_000_000_000, 2_000_000_000);
                lemma_mul_bound(na as int, (y2 - y1) as int, 8_000_000_000_000_000_000, 2_000_000_000);
                                lemma_scaled_between(na as int, den as int, (x2 - x1) as int);
                lemma_scaled_between(na as int, den as int, (y2 - y1) as int);
            }
            let ix = x1 + na * (x2 - x1) / den;
            let iy = y1 + na * (y2 - y1) / den;
            Some(FVec { x: ix as i64, y: iy as i64 })
        } else {
            None
        }
    }

    /// How far along `self` it meets `other`, rounded down.
    pub fn distance(&self, other: &Line) -> (r: Option<i64>)
        requires
            self.in_world(),
            other.in_world(),
        ensures
            match intersect_spec(*self, *other) {
                Some(q) => r matches Some(d) && is_isqrt(
                    d as int,
                    self.start.dist_sq_spec(FVec { x: q.0 as i64, y: q.1 as i64 }),
                ),
                None => r is None,
            },
    {
        match self.intersect(other) {
            Some(p) => Some(self.start.distance(&p)),
            None => None,
        }
    }

    /// The offset from `start` of the orthogonal projection of `point` onto
    /// the segment; none when it falls outside the segment. A segment of
    /// zero length projects everything to the zero offset.
    pub fn projection(&self, point: &FVec) -> (r: Option<FVec>)
        requires
            self.in_world(),
            point.in_world(),
        ensures
            ({
                let d = FVec { x: (self.end.x - self.start.x) as i64, y: (self.end.y - self.start.y) as i64 };
                let pq = FVec { x: (point.x - self.start.x) as i64, y: (point.y - self.start.y) as i64 };
                let num = pq.dot_spec(d);
                let den = d.dot_spec(d);
                if den == 0 {
                    r == Some(FVec { x: 0, y: 0 })
                } else if num < 0 || num > den {
                    r is None
                } else {
                    r matches Some(p) && p.x == tdiv(num * d.x, den) && p.y == tdiv(num * d.y, den)
                }
            }),
    {
        let d = self.end.sub(self.start);
        let pq = point.sub(self.start);
        let num = pq.dot(&d);
        let den = d.dot(&d);
        if den == 0 {
            return Some(FVec { x: 0, y: 0 });
        }
        if num < 0 || num > den {
            return None;
        }
        proof {
            assert(den > 0) by (nonlinear_arith)
                requires
                    den == d.x * d.x + d.y * d.y,
                    den != 0,
            ;
            assert(den <= 8_000_000_000_000_000_000) by (nonlinear_arith)
                requires
                    den == d.x * d.x + d.y * d.y,
                    -2 * WORLD <= d.x <= 2 * WORLD,
                    -2 * WORLD <= d.y <= 2 * WORLD,
            ;
            lemma_mul_bound(num as int, d.x as int, 8_000_000_000_000_000_000, 2_000_000_000);
            lemma_mul_bound(num as int, d.y as int, 8_000_000_000_000_000_000, 2_000_000_000);
                        lemma_scaled_between(num as int, den as int, d.x as int);
            lemma_scaled_between(num as int, den as int, d.y as int);
        }
        let px = num * (d.x as i128) / den;
        let py = num * (d.y as i128) / den;
        Some(FVec { x: px as i64, y: py as i64 })
    }
}

/// `ax * by - ay * bx` on differences of world coordinates.
fn cross_i128(ax: i128, ay: i128, bx: i128, by: i128) -> (r: i128)
    requires
        -2 * WORLD <= ax <= 2 * WORLD,
        -2 * WORLD <= ay <= 2 * WORLD,
        -2 * WORLD <= bx <= 2 * WORLD,
        -2 * WORLD <= by <= 2 * WORLD,
    ensures
        r == cross(ax as int, ay as int, bx as int, by as int),
        -8_000_000_000_000_000_000 <= r <= 8_000_000_000_000_000_000,
{
    proof {
        lemma_mul_bound(ax as int, by as int, 2_000_000_000, 2_000_000_000);
        lemma_mul_bound(ay as int, bx as int, 2_000_000_000, 2_000_000_000);
    }
    ax * by - ay * bx
}

} // verus!
