//! Angles in micro-radians and their sine and cosine in millionths.
//!
//! The sine is Bhaskara's rational approximation,
//! `sin x ~ 16 x (pi - x) / (5 pi^2 - 4 x (pi - x))` on `[0, pi]`,
//! whose error stays below two thousandths.
use vstd::prelude::*;
use crate::geometry::{FVec, tdiv, lemma_mul_bound, lemma_tdiv_bound};

verus! {

/// A full turn, `2 pi`, in micro-radians.
pub const FULL_TURN: i64 = 6_283_184;

/// Half a turn, `pi`, in micro-radians.
pub const HALF_TURN: i64 = 3_141_592;

/// A quarter turn, `pi / 2`, in micro-radians.
pub const QUARTER_TURN: i64 = 1_570_796;

/// The fixed-point unit of a sine or cosine.
pub const TRIG_ONE: i64 = 1_000_000;

/// The angle brought into `[0, FULL_TURN)`.
pub open spec fn wrap_spec(a: int) -> int {
    a % (FULL_TURN as int)
}

/// The approximated sine on `[0, HALF_TURN]`, never negative.
pub open spec fn half_wave(a: int) -> int {
    let p = a * (HALF_TURN - a);
    // 49_348_001_472_320 is 5 * HALF_TURN * HALF_TURN
    (TRIG_ONE * 16 * p) / (49_348_001_472_320 - 4 * p)
}

/// The approximated sine of an angle in `[0, FULL_TURN)`.
pub open spec fn sin_spec(a: int) -> int {
    if a < HALF_TURN {
        half_wave(a)
    } else {
        -half_wave(a - HALF_TURN)
    }
}

/// The approximated cosine of an angle in `[0, FULL_TURN)`.
pub open spec fn cos_spec(a: int) -> int {
    sin_spec(wrap_spec(a + QUARTER_TURN))
}

pub fn wrap_angle(a: i128) -> (r: i64)
    ensures
        r == wrap_spec(a as int),
        0 <= r < FULL_TURN,
{
    match a.checked_rem_euclid(FULL_TURN as i128) {
        Some(m) => m as i64,
        None => 0,
    }
}

proof fn lemma_half_wave_range(a: int)
    requires
        0 <= a <= HALF_TURN,
    ensures
        0 <= half_wave(a) <= TRIG_ONE,
        0 <= a * (HALF_TURN - a) <= 2_467_400_073_616,
{
    let h: int = 3_141_592;
    let p = a * (h - a);
    assert(0 <= p && 4 * p <= h * h) by (nonlinear_arith)
        requires
            0 <= a <= h,
            p == a * (h - a),
    ;
    assert(h * h == 9_869_600_294_464);
    let den = 5 * h * h - 4 * p;
    assert(den > 0);
    assert(16 * p <= den);
    assert((1_000_000 * 16 * p) / den <= (1_000_000 * den) / den) by (nonlinear_arith)
        requires
            0 <= 16 * p <= den,
            den > 0,
    ;
    assert((1_000_000 * den) / den == 1_000_000) by (nonlinear_arith)
        requires
            den > 0,
    ;
    assert((1_000_000 * 16 * p) / den >= 0) by (nonlinear_arith)
        requires
            p >= 0,
            den > 0,
    ;
}

/// Sine and cosine stay within one unit.
pub proof fn lemma_trig_range(a: int)
    requires
        0 <= a < FULL_TURN,
    ensures
        -TRIG_ONE <= sin_spec(a) <= TRIG_ONE,
        -TRIG_ONE <= cos_spec(a) <= TRIG_ONE,
{
    if a < HALF_TURN {
        lemma_half_wave_range(a);
    } else {
        lemma_half_wave_range(a - HALF_TURN);
    }
    let b = wrap_spec(a + QUARTER_TURN);
    if b < HALF_TURN {
        lemma_half_wave_range(b);
    } else {
        lemma_half_wave_range(b - HALF_TURN);
    }
}

fn half_wave_exec(a: i64) -> (r: i64)
    requires
        0 <= a <= HALF_TURN,
    ensures
        r == half_wave(a as int),
        0 <= r <= TRIG_ONE,
{
    proof {
        lemma_half_wave_range(a as int);
    }
    let p = (a as i128) * ((HALF_TURN - a) as i128);
    let den: i128 = 49_348_001_472_320 - 4 * p;
    let r = (TRIG_ONE as i128) * 16 * p / den;
    r as i64
}

/// The sine of an angle in `[0, FULL_TURN)`, in millionths.
pub fn sin(a: i64) -> (r: i64)
    requires
        0 <= a < FULL_TURN,
    ensures
        r == sin_spec(a as int),
        -TRIG_ONE <= r <= TRIG_ONE,
{
    if a < HALF_TURN {
        half_wave_exec(a)
    } else {
        -half_wave_exec(a - HALF_TURN)
    }
}

/// The cosine of an angle in `[0, FULL_TURN)`, in millionths.
pub fn cos(a: i64) -> (r: i64)
    requires
        0 <= a < FULL_TURN,
    ensures
        r == cos_spec(a as int),
        -TRIG_ONE <= r <= TRIG_ONE,
{
    sin(wrap_angle((a + QUARTER_TURN) as i128))
}

/// A vector rotated by `rot`, each coordinate rounded toward zero.
pub open spec fn rotated_spec(v: FVec, rot: int) -> FVec {
    FVec {
        x: tdiv(cos_spec(rot) * v.x - sin_spec(rot) * v.y, TRIG_ONE as int) as i64,
        y: tdiv(sin_spec(rot) * v.x + cos_spec(rot) * v.y, TRIG_ONE as int) as i64,
    }
}

/// Rotates one vector by the angle `rot`.
pub fn rotate_one(rot: i64, v: FVec) -> (r: FVec)
    requires
        0 <= rot < FULL_TURN,
        v.within(50_000_000),
    ensures
        r == rotated_spec(v, rot as int),
        r.within(100_000_000),
{
    let c = cos(rot) as i128;
    let s = sin(rot) as i128;
    proof {
        lemma_rotation_bound(c as int, s as int, v.x as int, v.y as int);
    }
    let x = (c * (v.x as i128) - s * (v.y as i128)) / (TRIG_ONE as i128);
    let y = (s * (v.x as i128) + c * (v.y as i128)) / (TRIG_ONE as i128);
    FVec { x: x as i64, y: y as i64 }
}

/// Relies on ndarray's `arr2` and `Array2::dot`: the exact product of a 2x2
/// matrix and a 2x4 matrix of integers, both given row by row.
#[verifier::external_body]
fn mat_product(r: [i128; 4], p: [i128; 8]) -> (out: [i128; 8])
    requires
        forall|i: int| 0 <= i < 4 ==> -0x1_0000_0000_0000 <= #[trigger] r@[i] <= 0x1_0000_0000_0000,
        forall|i: int| 0 <= i < 8 ==> -0x1_0000_0000_0000 <= #[trigger] p@[i] <= 0x1_0000_0000_0000,
    ensures
        forall|j: int|
            0 <= j < 4 ==> #[trigger] out@[j] == r@[0] * p@[j] + r@[1] * p@[4 + j] && out@[4 + j] == r@[2]
                * p@[j] + r@[3] * p@[4 + j],
{
    let a = ndarray::arr2(&[[r[0], r[1]], [r[2], r[3]]]);
    let b = ndarray::arr2(&[[p[0], p[1], p[2], p[3]], [p[4], p[5], p[6], p[7]]]);
    let m = a.dot(&b);
    [m[[0, 0]], m[[0, 1]], m[[0, 2]], m[[0, 3]], m[[1, 0]], m[[1, 1]], m[[1, 2]], m[[1, 3]]]
}

/// Rotates four vectors by the angle `rot`.
pub fn rotate_four(rot: i64, v: [FVec; 4]) -> (r: [FVec; 4])
    requires
        0 <= rot < FULL_TURN,
        forall|i: int| 0 <= i < 4 ==> (#[trigger] v@[i]).within(50_000_000),
    ensures
        forall|i: int| 0 <= i < 4 ==> #[trigger] r@[i] == rotated_spec(v@[i], rot as int),
        forall|i: int| 0 <= i < 4 ==> (#[trigger] r@[i]).within(100_000_000),
{
    let c = cos(rot) as i128;
    let s = sin(rot) as i128;
    let m = [c, -s, s, c];
    let p = [
        v[0].x as i128, v[1].x as i128, v[2].x as i128, v[3].x as i128,
        v[0].y as i128, v[1].y as i128, v[2].y as i128, v[3].y as i128,
    ];
    let out = mat_product(m, p);
    let mut r = [FVec { x: 0, y: 0 }; 4];
    let mut j: usize = 0;
    while j < 4
        invariant
            0 <= j <= 4,
            c == cos_spec(rot as int),
            s == sin_spec(rot as int),
            -1_000_000 <= c <= 1_000_000,
            -1_000_000 <= s <= 1_000_000,
            forall|i: int| 0 <= i < 4 ==> (#[trigger] v@[i]).within(50_000_000),
            forall|i: int| 0 <= i < 4 ==> p@[i] == v@[i].x && p@[4 + i] == v@[i].y,
            forall|i: int| 0 <= i < 4 ==> #[trigger] out@[i] == c * p@[i] + (-s) * p@[4 + i] && out@[4 + i] == s * p@[i] + c * p@[4 + i],
            forall|i: int| 0 <= i < j ==> #[trigger] r@[i] == rotated_spec(v@[i], rot as int),
            forall|i: int| 0 <= i < j ==> (#[trigger] r@[i]).within(100_000_000),
        decreases 4 - j,
    {
        let vx = p[j];
        let vy = p[4 + j];
        proof {
            assert(v@[j as int].within(50_000_000));
            lemma_rotation_bound(c as int, s as int, vx as int, vy as int);
            assert((-s) * vy == -(s * vy)) by (nonlinear_arith);
        }
        let x = out[j] / (TRIG_ONE as i128);
        let y = out[4 + j] / (TRIG_ONE as i128);
        r[j] = FVec { x: x as i64, y: y as i64 };
        j += 1;
    }
    r
}

proof fn lemma_rotation_bound(c: int, s: int, vx: int, vy: int)
    requires
        -1_000_000 <= c <= 1_000_000,
        -1_000_000 <= s <= 1_000_000,
        -50_000_000 <= vx <= 50_000_000,
        -50_000_000 <= vy <= 50_000_000,
    ensures
        -50_000_000_000_000 <= c * vx <= 50_000_000_000_000,
        -50_000_000_000_000 <= s * vy <= 50_000_000_000_000,
        -50_000_000_000_000 <= s * vx <= 50_000_000_000_000,
        -50_000_000_000_000 <= c * vy <= 50_000_000_000_000,
        -100_000_000 <= tdiv(c * vx - s * vy, 1_000_000) <= 100_000_000,
        -100_000_000 <= tdiv(s * vx + c * vy, 1_000_000) <= 100_000_000,
{
    lemma_mul_bound(c, vx, 1_000_000, 50_000_000);
    lemma_mul_bound(s, vy, 1_000_000, 50_000_000);
    lemma_mul_bound(s, vx, 1_000_000, 50_000_000);
    lemma_mul_bound(c, vy, 1_000_000, 50_000_000);
    lemma_tdiv_bound(c * vx - s * vy, 1_000_000, 100_000_000);
    lemma_tdiv_bound(s * vx + c * vy, 1_000_000, 100_000_000);
}

} // verus!
