//! Path point types, cubic Bezier evaluation, and the field/screen
//! coordinate transform.
//!
//! Field coordinates are milli-inches, screen coordinates milli-pixels,
//! both held in `i64`. A curve parameter is a sample index `k` out of
//! `STEPS` (so `t = k / 100`), which keeps the evaluation exact integer
//! arithmetic: the Bernstein weights at `t = k / 100` scale by `100^3`.

use crate::num::{
    lemma_tdiv2_twice, lemma_tdiv_abs_le, lemma_tdiv_bound_scaled, lemma_tdiv_bounds,
    lemma_tdiv_multiple, lemma_tdiv_nonneg_le, mid, mid_i64, tdiv, tdiv_i128, tdiv_i64,
};
use vstd::prelude::*;

verus! {

/// Parametric samples per segment.
pub const STEPS: i64 = 100;

/// `STEPS` cubed: the common denominator of the cubic Bernstein weights.
pub const STEPS_CUBED: i64 = 1_000_000;

/// Largest magnitude of a stored control-point coordinate (milli-inches).
pub const COORD_LIMIT: i64 = 1_000_000_000;

/// Largest magnitude of a stored anchor coordinate (milli-inches). Kept a
/// third of `COORD_LIMIT` so that reflecting a fresh handle through the
/// anchor stays within `COORD_LIMIT`.
pub const ANCHOR_LIMIT: i64 = 300_000_000;

/// Largest magnitude of a point evaluated on a curve: the Bernstein
/// weights at most octuple the coordinate bound.
pub const CURVE_LIMIT: i64 = 8_000_000_000;

/// Largest field size (milli-inches).
pub const SIZE_LIMIT: i64 = 10_000_000;

/// Largest screen scale (pixels).
pub const SCALE_LIMIT: u32 = 100_000;

/// Largest magnitude of the field rectangle's screen origin (milli-pixels).
pub const ORIGIN_LIMIT: i64 = 1_000_000_000_000;

/// Largest magnitude of any screen coordinate handed to this crate
/// (milli-pixels).
pub const SCREEN_LIMIT: i64 = 1_000_000_000_000_000_000;

/// Half-width, in milli-inches, of the symmetric handles given to the
/// first point of a path: ten inches to each side.
pub const FIRST_HANDLE: i64 = 10_000;

/// A position in field space, in milli-inches.
#[derive(Clone, Copy, PartialEq, Eq, Structural, Debug)]
pub struct Point {
    pub x: i64,
    pub y: i64,
}

/// A position in screen space, in milli-pixels.
#[derive(Clone, Copy, PartialEq, Eq, Structural, Debug)]
pub struct ScreenPoint {
    pub x: i64,
    pub y: i64,
}

/// One path point: an on-curve anchor with two control handles. The
/// segment from point `a` to point `b` is the cubic with control polygon
/// `(a.anchor, a.cp2, b.cp1, b.anchor)`. The `id` is a stable identity
/// used as the reveal-animation key; it is never persisted.
#[derive(Clone, Copy, PartialEq, Eq, Structural, Debug)]
pub struct BezPoint {
    pub id: u64,
    pub anchor: Point,
    pub cp1: Point,
    pub cp2: Point,
}

/// A tangent direction as an exact ratio: the slope is `dy / dx`, with
/// `dx` never zero.
#[derive(Clone, Copy, PartialEq, Eq, Structural, Debug)]
pub struct Slope {
    pub dy: i64,
    pub dx: i64,
}

pub open spec fn coord_in(v: int, b: int) -> bool {
    -b <= v <= b
}

pub open spec fn point_in(p: Point, b: int) -> bool {
    coord_in(p.x as int, b) && coord_in(p.y as int, b)
}

pub open spec fn screen_in(s: ScreenPoint, b: int) -> bool {
    coord_in(s.x as int, b) && coord_in(s.y as int, b)
}

/// Well-formedness of a stored path point: the anchor within
/// `ANCHOR_LIMIT`, the handles within `COORD_LIMIT`.
pub open spec fn wf_bez(p: BezPoint) -> bool {
    point_in(p.anchor, ANCHOR_LIMIT as int) && point_in(p.cp1, COORD_LIMIT as int) && point_in(
        p.cp2,
        COORD_LIMIT as int,
    )
}

/// Numerator of one coordinate of the cubic at sample `k`: the Bernstein
/// form over control values `p0..p3`, scaled by `STEPS^3`.
pub open spec fn bez_num(p0: int, p1: int, p2: int, p3: int, k: int) -> int {
    let m = STEPS as int - k;
    m * m * m * p0 + 3 * m * m * k * p1 + 3 * m * k * k * p2 + k * k * k * p3
}

/// One coordinate of the cubic at sample `k`.
pub open spec fn bez_coord(p0: int, p1: int, p2: int, p3: int, k: int) -> int {
    tdiv(bez_num(p0, p1, p2, p3, k), STEPS_CUBED as int)
}

/// The x coordinate of the segment from `a` to `b` at sample `k`.
pub open spec fn bez_at_x(a: BezPoint, b: BezPoint, k: int) -> int {
    bez_coord(a.anchor.x as int, a.cp2.x as int, b.cp1.x as int, b.anchor.x as int, k)
}

/// The y coordinate of the segment from `a` to `b` at sample `k`.
pub open spec fn bez_at_y(a: BezPoint, b: BezPoint, k: int) -> int {
    bez_coord(a.anchor.y as int, a.cp2.y as int, b.cp1.y as int, b.anchor.y as int, k)
}

/// Numerator of the x component of the segment's derivative at sample
/// `k`, scaled by `STEPS^2` (and by the common factor 3 of the cubic's
/// derivative).
pub open spec fn slope_dx_num(a: BezPoint, b: BezPoint, k: int) -> int {
    let m = STEPS as int - k;
    3 * m * m * (a.cp2.x - a.anchor.x) + 6 * m * k * (b.cp1.x - a.cp2.x) + 3 * k * k * (b.anchor.x
        - b.cp1.x)
}

/// Numerator of the y component of the segment's derivative at sample `k`.
pub open spec fn slope_dy_num(a: BezPoint, b: BezPoint, k: int) -> int {
    let m = STEPS as int - k;
    3 * m * m * (a.cp2.y - a.anchor.y) + 6 * m * k * (b.cp1.y - a.cp2.y) + 3 * k * k * (b.anchor.y
        - b.cp1.y)
}

/// One coordinate of the Bernstein numerator, computed in `i64`.
fn bez_num_exec(p0: i64, p1: i64, p2: i64, p3: i64, k: i64) -> (n: i64)
    requires
        coord_in(p0 as int, COORD_LIMIT as int),
        coord_in(p1 as int, COORD_LIMIT as int),
        coord_in(p2 as int, COORD_LIMIT as int),
        coord_in(p3 as int, COORD_LIMIT as int),
        0 <= k <= STEPS,
    ensures
        n as int == bez_num(p0 as int, p1 as int, p2 as int, p3 as int, k as int),
        coord_in(n as int, (STEPS_CUBED * CURVE_LIMIT) as int),
{
    let m: i64 = 100 - k;
    proof {
        assert(0 <= m as int * (m as int) <= 10_000) by (nonlinear_arith)
            requires
                0 <= m as int <= 100,
        ;
        assert(0 <= k as int * (k as int) <= 10_000) by (nonlinear_arith)
            requires
                0 <= k as int <= 100,
        ;
    }
    let mm: i64 = m * m;
    let kk: i64 = k * k;
    proof {
        assert(0 <= mm as int * (m as int) <= 1_000_000) by (nonlinear_arith)
            requires
                0 <= mm as int <= 10_000,
                0 <= m as int <= 100,
        ;
        assert(0 <= mm as int * (k as int) <= 1_000_000) by (nonlinear_arith)
            requires
                0 <= mm as int <= 10_000,
                0 <= k as int <= 100,
        ;
        assert(0 <= m as int * (kk as int) <= 1_000_000) by (nonlinear_arith)
            requires
                0 <= kk as int <= 10_000,
                0 <= m as int <= 100,
        ;
        assert(0 <= kk as int * (k as int) <= 1_000_000) by (nonlinear_arith)
            requires
                0 <= kk as int <= 10_000,
                0 <= k as int <= 100,
        ;
    }
    let w0: i64 = mm * m;
    let w1: i64 = 3 * (mm * k);
    let w2: i64 = 3 * (m * kk);
    let w3: i64 = kk * k;
    proof {
        assert(-1_000_000_000_000_000 <= w0 as int * (p0 as int) <= 1_000_000_000_000_000)
            by (nonlinear_arith)
            requires
                0 <= w0 as int <= 1_000_000,
                -1_000_000_000 <= p0 as int <= 1_000_000_000,
        ;
        assert(-3_000_000_000_000_000 <= w1 as int * (p1 as int) <= 3_000_000_000_000_000)
            by (nonlinear_arith)
            requires
                0 <= w1 as int <= 3_000_000,
                -1_000_000_000 <= p1 as int <= 1_000_000_000,
        ;
        assert(-3_000_000_000_000_000 <= w2 as int * (p2 as int) <= 3_000_000_000_000_000)
            by (nonlinear_arith)
            requires
                0 <= w2 as int <= 3_000_000,
                -1_000_000_000 <= p2 as int <= 1_000_000_000,
        ;
        assert(-1_000_000_000_000_000 <= w3 as int * (p3 as int) <= 1_000_000_000_000_000)
            by (nonlinear_arith)
            requires
                0 <= w3 as int <= 1_000_000,
                -1_000_000_000 <= p3 as int <= 1_000_000_000,
        ;
    }
    let t0: i64 = w0 * p0;
    let t1: i64 = w1 * p1;
    let t2: i64 = w2 * p2;
    let t3: i64 = w3 * p3;
    let n: i64 = t0 + t1 + t2 + t3;
    proof {
        let mi = m as int;
        let ki = k as int;
        assert(t0 as int == mi * mi * mi * (p0 as int)) by (nonlinear_arith)
            requires
                mm as int == mi * mi,
                w0 as int == mm as int * mi,
                t0 as int == w0 as int * (p0 as int),
        ;
        assert(t1 as int == 3 * mi * mi * ki * (p1 as int)) by (nonlinear_arith)
            requires
                mm as int == mi * mi,
                w1 as int == 3 * (mm as int * ki),
                t1 as int == w1 as int * (p1 as int),
        ;
        assert(t2 as int == 3 * mi * ki * ki * (p2 as int)) by (nonlinear_arith)
            requires
                kk as int == ki * ki,
                w2 as int == 3 * (mi * (kk as int)),
                t2 as int == w2 as int * (p2 as int),
        ;
        assert(t3 as int == ki * ki * ki * (p3 as int)) by (nonlinear_arith)
            requires
                kk as int == ki * ki,
                w3 as int == kk as int * ki,
                t3 as int == w3 as int * (p3 as int),
        ;
    }
    n
}

/// One coordinate of the curve point at sample `k`.
fn bez_coord_exec(p0: i64, p1: i64, p2: i64, p3: i64, k: i64) -> (r: i64)
    requires
        coord_in(p0 as int, COORD_LIMIT as int),
        coord_in(p1 as int, COORD_LIMIT as int),
        coord_in(p2 as int, COORD_LIMIT as int),
        coord_in(p3 as int, COORD_LIMIT as int),
        0 <= k <= STEPS,
    ensures
        r as int == bez_coord(p0 as int, p1 as int, p2 as int, p3 as int, k as int),
        coord_in(r as int, CURVE_LIMIT as int),
{
    let n = bez_num_exec(p0, p1, p2, p3, k);
    proof {
        lemma_tdiv_bound_scaled(n as int, STEPS_CUBED as int, CURVE_LIMIT as int);
    }
    tdiv_i64(n, STEPS_CUBED)
}

/// Position on the segment from `a` to `b` at sample `k` of `STEPS`:
/// the cubic Bezier over control polygon `(a.anchor, a.cp2, b.cp1,
/// b.anchor)`, one coordinate at a time in fixed point.
pub fn interpolate(a: &BezPoint, b: &BezPoint, k: i64) -> (r: Point)
    requires
        wf_bez(*a),
        wf_bez(*b),
        0 <= k <= STEPS,
    ensures
        r.x as int == bez_at_x(*a, *b, k as int),
        r.y as int == bez_at_y(*a, *b, k as int),
        point_in(r, CURVE_LIMIT as int),
{
    let x = bez_coord_exec(a.anchor.x, a.cp2.x, b.cp1.x, b.anchor.x, k);
    let y = bez_coord_exec(a.anchor.y, a.cp2.y, b.cp1.y, b.anchor.y, k);
    Point { x, y }
}

/// The curve passes exactly through its endpoints: sample 0 is the lower
/// anchor, sample `STEPS` the upper anchor.
pub proof fn lemma_interpolate_endpoints(a: BezPoint, b: BezPoint)
    requires
        wf_bez(a),
        wf_bez(b),
    ensures
        bez_at_x(a, b, 0) == a.anchor.x as int,
        bez_at_y(a, b, 0) == a.anchor.y as int,
        bez_at_x(a, b, STEPS as int) == b.anchor.x as int,
        bez_at_y(a, b, STEPS as int) == b.anchor.y as int,
{
    lemma_tdiv_multiple(a.anchor.x as int, STEPS_CUBED as int);
    lemma_tdiv_multiple(a.anchor.y as int, STEPS_CUBED as int);
    lemma_tdiv_multiple(b.anchor.x as int, STEPS_CUBED as int);
    lemma_tdiv_multiple(b.anchor.y as int, STEPS_CUBED as int);
    assert(bez_num(a.anchor.x as int, a.cp2.x as int, b.cp1.x as int, b.anchor.x as int, 0)
        == 1_000_000 * (a.anchor.x as int)) by (nonlinear_arith);
    assert(bez_num(a.anchor.y as int, a.cp2.y as int, b.cp1.y as int, b.anchor.y as int, 0)
        == 1_000_000 * (a.anchor.y as int)) by (nonlinear_arith);
    assert(bez_num(a.anchor.x as int, a.cp2.x as int, b.cp1.x as int, b.anchor.x as int, 100)
        == 1_000_000 * (b.anchor.x as int)) by (nonlinear_arith);
    assert(bez_num(a.anchor.y as int, a.cp2.y as int, b.cp1.y as int, b.anchor.y as int, 100)
        == 1_000_000 * (b.anchor.y as int)) by (nonlinear_arith);
}

/// One derivative-numerator component, computed in `i64`.
fn slope_num_exec(p0: i64, p1: i64, p2: i64, p3: i64, k: i64) -> (n: i64)
    requires
        coord_in(p0 as int, COORD_LIMIT as int),
        coord_in(p1 as int, COORD_LIMIT as int),
        coord_in(p2 as int, COORD_LIMIT as int),
        coord_in(p3 as int, COORD_LIMIT as int),
        0 <= k <= STEPS,
    ensures
        n as int == {
            let m = STEPS as int - k;
            3 * m * m * (p1 - p0) + 6 * m * (k as int) * (p2 - p1) + 3 * (k as int) * (k as int) * (
            p3 - p2)
        },
{
    let m: i64 = 100 - k;
    proof {
        assert(0 <= m as int * (m as int) <= 10_000) by (nonlinear_arith)
            requires
                0 <= m as int <= 100,
        ;
        assert(0 <= k as int * (k as int) <= 10_000) by (nonlinear_arith)
            requires
                0 <= k as int <= 100,
        ;
        assert(0 <= m as int * (k as int) <= 10_000) by (nonlinear_arith)
            requires
                0 <= m as int <= 100,
                0 <= k as int <= 100,
        ;
    }
    let mm: i64 = m * m;
    let mk: i64 = m * k;
    let kk: i64 = k * k;
    let d0: i64 = p1 - p0;
    let d1: i64 = p2 - p1;
    let d2: i64 = p3 - p2;
    proof {
        assert(-60_000_000_000_000 <= 3 * (mm as int) * (d0 as int) <= 60_000_000_000_000)
            by (nonlinear_arith)
            requires
                0 <= mm as int <= 10_000,
                -2_000_000_000 <= d0 as int <= 2_000_000_000,
        ;
        assert(-120_000_000_000_000 <= 6 * (mk as int) * (d1 as int) <= 120_000_000_000_000)
            by (nonlinear_arith)
            requires
                0 <= mk as int <= 10_000,
                -2_000_000_000 <= d1 as int <= 2_000_000_000,
        ;
        assert(-60_000_000_000_000 <= 3 * (kk as int) * (d2 as int) <= 60_000_000_000_000)
            by (nonlinear_arith)
            requires
                0 <= kk as int <= 10_000,
                -2_000_000_000 <= d2 as int <= 2_000_000_000,
        ;
    }
    let t0: i64 = 3 * mm * d0;
    let t1: i64 = 6 * mk * d1;
    let t2: i64 = 3 * kk * d2;
    let n: i64 = t0 + t1 + t2;
    proof {
        let mi = m as int;
        let ki = k as int;
        assert(t0 as int == 3 * mi * mi * (d0 as int)) by (nonlinear_arith)
            requires
                mm as int == mi * mi,
                t0 as int == 3 * (mm as int) * (d0 as int),
        ;
        assert(t1 as int == 6 * mi * ki * (d1 as int)) by (nonlinear_arith)
            requires
                mk as int == mi * ki,
                t1 as int == 6 * (mk as int) * (d1 as int),
        ;
        assert(t2 as int == 3 * ki * ki * (d2 as int)) by (nonlinear_arith)
            requires
                kk as int == ki * ki,
                t2 as int == 3 * (kk as int) * (d2 as int),
        ;
    }
    n
}

/// Tangent of the segment from `a` to `b` at sample `k`, as the exact
/// ratio `dy / dx` of the derivative components. Yields no value exactly
/// when the horizontal component is zero (a vertical tangent), so a
/// caller never divides by zero.
pub fn interpolate_slope(a: &BezPoint, b: &BezPoint, k: i64) -> (r: Option<Slope>)
    requires
        wf_bez(*a),
        wf_bez(*b),
        0 <= k <= STEPS,
    ensures
        r is Some <==> slope_dx_num(*a, *b, k as int) != 0,
        r matches Some(s) ==> s.dx as int == slope_dx_num(*a, *b, k as int) && s.dy as int
            == slope_dy_num(*a, *b, k as int) && s.dx != 0,
{
    let dx = slope_num_exec(a.anchor.x, a.cp2.x, b.cp1.x, b.anchor.x, k);
    if dx == 0 {
        None
    } else {
        let dy = slope_num_exec(a.anchor.y, a.cp2.y, b.cp1.y, b.anchor.y, k);
        Some(Slope { dy, dx })
    }
}

/// The handle rule for the first point of an empty path: fixed symmetric
/// horizontal handles, `FIRST_HANDLE` to each side of the anchor.
pub open spec fn is_first_bez(b: BezPoint, a: Point, id: u64) -> bool {
    &&& b.id == id
    &&& b.anchor == a
    &&& b.cp1.x as int == a.x as int - FIRST_HANDLE as int
    &&& b.cp1.y == a.y
    &&& b.cp2.x as int == a.x as int + FIRST_HANDLE as int
    &&& b.cp2.y == a.y
}

/// The smooth-join handle rule for a point added after `prev_cp2`: the
/// incoming handle is the midpoint of the previous outgoing handle and
/// the new anchor, and the outgoing handle is its point-reflection
/// through the anchor, giving tangent continuity at the anchor.
pub open spec fn is_smooth_bez(b: BezPoint, prev_cp2: Point, a: Point, id: u64) -> bool {
    &&& b.id == id
    &&& b.anchor == a
    &&& b.cp1.x as int == crate::num::mid(prev_cp2.x as int, a.x as int)
    &&& b.cp1.y as int == crate::num::mid(prev_cp2.y as int, a.y as int)
    &&& b.cp2.x as int == 2 * (a.x as int) - b.cp1.x as int
    &&& b.cp2.y as int == 2 * (a.y as int) - b.cp1.y as int
}

/// Builds the first point of a path from its anchor.
pub fn make_first_bez(a: Point, id: u64) -> (b: BezPoint)
    requires
        point_in(a, ANCHOR_LIMIT as int),
    ensures
        is_first_bez(b, a, id),
        wf_bez(b),
{
    BezPoint {
        id,
        anchor: a,
        cp1: Point { x: a.x - FIRST_HANDLE, y: a.y },
        cp2: Point { x: a.x + FIRST_HANDLE, y: a.y },
    }
}

/// Builds a smooth-join point from the previous point's outgoing handle
/// and the new anchor.
pub fn make_smooth_bez(prev_cp2: Point, a: Point, id: u64) -> (b: BezPoint)
    requires
        point_in(prev_cp2, COORD_LIMIT as int),
        point_in(a, ANCHOR_LIMIT as int),
    ensures
        is_smooth_bez(b, prev_cp2, a, id),
        wf_bez(b),
{
    proof {
        crate::num::lemma_mid_in_bound(prev_cp2.x as int, a.x as int, COORD_LIMIT as int);
        crate::num::lemma_mid_in_bound(prev_cp2.y as int, a.y as int, COORD_LIMIT as int);
        lemma_tdiv2_twice(prev_cp2.x as int + a.x as int);
        lemma_tdiv2_twice(prev_cp2.y as int + a.y as int);
    }
    let c1x = mid_i64(prev_cp2.x, a.x);
    let c1y = mid_i64(prev_cp2.y, a.y);
    let c2x = 2 * a.x - c1x;
    let c2y = 2 * a.y - c1y;
    BezPoint {
        id,
        anchor: a,
        cp1: Point { x: c1x, y: c1y },
        cp2: Point { x: c2x, y: c2y },
    }
}

/// One screen coordinate: the origin plus the field coordinate scaled by
/// `scale` pixels per `size` milli-inches.
pub open spec fn screen_coord(p: int, scale: int, size: int, o: int) -> int {
    o + tdiv(p * 1000 * scale, size)
}

pub open spec fn screen_of(p: Point, scale: int, size: int, o: ScreenPoint) -> ScreenPoint {
    ScreenPoint {
        x: screen_coord(p.x as int, scale, size, o.x as int) as i64,
        y: screen_coord(p.y as int, scale, size, o.y as int) as i64,
    }
}

/// One field coordinate recovered from a screen coordinate: the inverse
/// scaling of `screen_coord`, up to fixed-point rounding.
pub open spec fn field_coord(s: int, o: int, scale: int, size: int) -> int {
    tdiv((s - o) * size, 1000 * scale)
}

/// Bounds under which the transforms stay in range.
pub open spec fn view_ok(scale: u32, size: i64, origin: ScreenPoint) -> bool {
    1 <= scale <= SCALE_LIMIT && 1 <= size <= SIZE_LIMIT && screen_in(origin, ORIGIN_LIMIT as int)
}

fn screen_coord_exec(p: i64, scale: u32, size: i64, o: i64) -> (r: i64)
    requires
        coord_in(p as int, CURVE_LIMIT as int),
        1 <= scale <= SCALE_LIMIT,
        1 <= size <= SIZE_LIMIT,
        coord_in(o as int, ORIGIN_LIMIT as int),
    ensures
        r as int == screen_coord(p as int, scale as int, size as int, o as int),
        coord_in(r as int, (CURVE_LIMIT as int) * 100_000_000 + ORIGIN_LIMIT as int),
{
    let a: i64 = p * 1000;
    proof {
        assert(coord_in(a as int * (scale as int), 800_000_000_000_000_000)) by (nonlinear_arith)
            requires
                coord_in(a as int, 8_000_000_000_000),
                1 <= scale as int <= 100_000,
        ;
        lemma_tdiv_abs_le(a as int * (scale as int), size as int, 800_000_000_000_000_000);
    }
    let n: i64 = a * (scale as i64);
    let q = tdiv_i64(n, size);
    o + q
}

/// Maps a field point to its screen position: `origin + p * scale / size`
/// in fixed point.
pub fn to_screen(p: Point, scale: u32, size: i64, origin: ScreenPoint) -> (r: ScreenPoint)
    requires
        point_in(p, CURVE_LIMIT as int),
        view_ok(scale, size, origin),
    ensures
        r == screen_of(p, scale as int, size as int, origin),
        screen_in(r, (CURVE_LIMIT as int) * 100_000_000 + ORIGIN_LIMIT as int),
{
    let x = screen_coord_exec(p.x, scale, size, origin.x);
    let y = screen_coord_exec(p.y, scale, size, origin.y);
    ScreenPoint { x, y }
}

/// Maps a screen position back to field space. Yields the field point
/// exactly when both recovered coordinates are within `ANCHOR_LIMIT`;
/// a position that scales beyond that bound yields nothing.
pub fn from_screen(s: ScreenPoint, scale: u32, size: i64, origin: ScreenPoint) -> (r: Option<
    Point,
>)
    requires
        screen_in(s, SCREEN_LIMIT as int),
        view_ok(scale, size, origin),
    ensures
        r is Some <==> coord_in(
            field_coord(s.x as int, origin.x as int, scale as int, size as int),
            ANCHOR_LIMIT as int,
        ) && coord_in(
            field_coord(s.y as int, origin.y as int, scale as int, size as int),
            ANCHOR_LIMIT as int,
        ),
        r matches Some(p) ==> p.x as int == field_coord(
            s.x as int,
            origin.x as int,
            scale as int,
            size as int,
        ) && p.y as int == field_coord(s.y as int, origin.y as int, scale as int, size as int),
{
    let qx = field_coord_exec(s.x, origin.x, scale, size);
    let qy = field_coord_exec(s.y, origin.y, scale, size);
    let lim: i128 = ANCHOR_LIMIT as i128;
    if -lim <= qx && qx <= lim && -lim <= qy && qy <= lim {
        Some(Point { x: qx as i64, y: qy as i64 })
    } else {
        None
    }
}

fn field_coord_exec(s: i64, o: i64, scale: u32, size: i64) -> (r: i128)
    requires
        coord_in(s as int, SCREEN_LIMIT as int),
        coord_in(o as int, ORIGIN_LIMIT as int),
        1 <= scale <= SCALE_LIMIT,
        1 <= size <= SIZE_LIMIT,
    ensures
        r as int == field_coord(s as int, o as int, scale as int, size as int),
{
    let d: i128 = s as i128 - o as i128;
    proof {
        assert(coord_in(d as int * (size as int), 0x7fff_ffff_ffff_ffff_ffff_ffff_ffff_ffff))
            by (nonlinear_arith)
            requires
                coord_in(d as int, 1_001_000_000_000_000_000),
                1 <= size as int <= 10_000_000,
        ;
    }
    let n: i128 = d * (size as i128);
    let den: i128 = 1000 * (scale as i128);
    tdiv_i128(n, den)
}

/// When the view's scale factor is a whole number of milli-pixels per
/// milli-inch (`1000 * scale == f * size`), the screen transform is
/// exact and exactly invertible: every field coordinate maps to
/// `origin + p * f` and maps back to itself.
pub proof fn lemma_screen_coord_inverse(p: int, scale: int, size: int, o: int, f: int)
    requires
        1 <= scale,
        1 <= size,
        1000 * scale == f * size,
    ensures
        f >= 1,
        screen_coord(p, scale, size, o) == o + p * f,
        field_coord(o + p * f, o, scale, size) == p,
{
    assert(f >= 1) by (nonlinear_arith)
        requires
            1 <= scale,
            1 <= size,
            1000 * scale == f * size,
    ;
    assert(p * 1000 * scale == size * (p * f)) by (nonlinear_arith)
        requires
            1000 * scale == f * size,
    ;
    lemma_tdiv_multiple(p * f, size);
    assert((o + p * f - o) * size == (1000 * scale) * p) by (nonlinear_arith)
        requires
            1000 * scale == f * size,
    ;
    lemma_tdiv_multiple(p, 1000 * scale);
}

/// Whether a screen position lies inside the field rectangle of side
/// `scale` pixels anchored at `origin`.
pub open spec fn in_rect(s: ScreenPoint, origin: ScreenPoint, scale: int) -> bool {
    origin.x <= s.x <= origin.x + 1000 * scale && origin.y <= s.y <= origin.y + 1000 * scale
}

/// A click inside the field rectangle always recovers a field coordinate
/// between zero and the field size.
pub proof fn lemma_field_coord_in_rect(s: int, o: int, scale: int, size: int)
    requires
        1 <= scale,
        1 <= size <= SIZE_LIMIT as int,
        o <= s <= o + 1000 * scale,
    ensures
        0 <= field_coord(s, o, scale, size) <= size,
{
    let d = s - o;
    let den = 1000 * scale;
    assert(0 <= d * size <= den * size) by (nonlinear_arith)
        requires
            0 <= d <= den,
            1 <= size,
    ;
    lemma_tdiv_nonneg_le(d * size, den * size, den);
    lemma_tdiv_multiple(size, den);
    assert(den * size == size * den) by (nonlinear_arith);
}

} // verus!
