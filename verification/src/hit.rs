//! Pointer queries against the path.
//!
//! The point query scans anchors in path order and reports the first
//! whose hit circle contains the pointer, so at most one point is ever
//! selected even when circles overlap. The curve query samples every
//! segment up to its revealed count and reports the sample nearest the
//! pointer, keeping the earliest sample on ties, together with the
//! tangent there.

use crate::bezier::{
    bez_at_x, bez_at_y, interpolate, interpolate_slope, screen_in, screen_of, slope_dx_num,
    slope_dy_num, to_screen, view_ok, wf_bez, BezPoint, Point, ScreenPoint, Slope, COORD_LIMIT,
    SCREEN_LIMIT,
};
use vstd::prelude::*;

verus! {

/// Squared euclidean distance between two screen positions.
pub open spec fn dist_sq(a: ScreenPoint, b: ScreenPoint) -> int {
    (a.x - b.x) * (a.x - b.x) + (a.y - b.y) * (a.y - b.y)
}

fn dist_sq_exec(a: ScreenPoint, b: ScreenPoint) -> (d: i128)
    requires
        screen_in(a, SCREEN_LIMIT as int),
        screen_in(b, SCREEN_LIMIT as int),
    ensures
        d as int == dist_sq(a, b),
        d >= 0,
{
    let dx: i128 = a.x as i128 - b.x as i128;
    let dy: i128 = a.y as i128 - b.y as i128;
    proof {
        assert(0 <= dx as int * (dx as int)
            <= 4_000_000_000_000_000_000_000_000_000_000_000_000) by (nonlinear_arith)
            requires
                -2_000_000_000_000_000_000 <= dx as int <= 2_000_000_000_000_000_000,
        ;
        assert(0 <= dy as int * (dy as int)
            <= 4_000_000_000_000_000_000_000_000_000_000_000_000) by (nonlinear_arith)
            requires
                -2_000_000_000_000_000_000 <= dy as int <= 2_000_000_000_000_000_000,
        ;
    }
    dx * dx + dy * dy
}

/// Whether the hit circle of radius `radius` around this point's anchor,
/// drawn at the given view, contains the pointer.
pub open spec fn anchor_hit(
    b: BezPoint,
    ptr: ScreenPoint,
    scale: int,
    size: int,
    origin: ScreenPoint,
    radius: int,
) -> bool {
    dist_sq(screen_of(b.anchor, scale, size, origin), ptr) <= radius * radius
}

/// First point, in path order, whose hit circle contains the pointer.
pub fn point_hit(
    points: &Vec<BezPoint>,
    ptr: ScreenPoint,
    scale: u32,
    size: i64,
    origin: ScreenPoint,
    radius: i64,
) -> (r: Option<usize>)
    requires
        forall|i: int| 0 <= i < points@.len() ==> wf_bez(#[trigger] points@[i]),
        view_ok(scale, size, origin),
        screen_in(ptr, SCREEN_LIMIT as int),
        0 <= radius <= COORD_LIMIT,
    ensures
        r matches Some(i) ==> i < points@.len() && anchor_hit(
            points@[i as int],
            ptr,
            scale as int,
            size as int,
            origin,
            radius as int,
        ) && forall|j: int|
            0 <= j < i ==> !anchor_hit(
                points@[j],
                ptr,
                scale as int,
                size as int,
                origin,
                radius as int,
            ),
        r is None ==> forall|j: int|
            0 <= j < points@.len() ==> !anchor_hit(
                points@[j],
                ptr,
                scale as int,
                size as int,
                origin,
                radius as int,
            ),
{
    let n = points.len();
    proof {
        assert(0 <= (radius as int) * (radius as int) <= 1_000_000_000_000_000_000)
            by (nonlinear_arith)
            requires
                0 <= radius as int <= 1_000_000_000,
        ;
    }
    let rr: i128 = (radius as i128) * (radius as i128);
    let mut i: usize = 0;
    while i < n
        invariant
            n == points@.len(),
            i <= n,
            rr as int == radius as int * (radius as int),
            forall|l: int| 0 <= l < points@.len() ==> wf_bez(#[trigger] points@[l]),
            view_ok(scale, size, origin),
            screen_in(ptr, SCREEN_LIMIT as int),
            forall|j: int|
                0 <= j < i ==> !anchor_hit(
                    points@[j],
                    ptr,
                    scale as int,
                    size as int,
                    origin,
                    radius as int,
                ),
        decreases n - i,
    {
        let sp = to_screen(points[i].anchor, scale, size, origin);
        let d = dist_sq_exec(sp, ptr);
        if d <= rr {
            return Some(i);
        }
        i += 1;
    }
    None
}

/// The screen positions of one segment's drawn samples: samples 1 up to
/// (excluding) `revealed`, in order. This is the draw list for the
/// segment's progressive reveal, and exactly the samples the curve
/// query can hit.
pub fn segment_samples(
    a: &BezPoint,
    b: &BezPoint,
    revealed: u64,
    scale: u32,
    size: i64,
    origin: ScreenPoint,
) -> (r: Vec<ScreenPoint>)
    requires
        wf_bez(*a),
        wf_bez(*b),
        revealed <= 100,
        view_ok(scale, size, origin),
    ensures
        revealed >= 1 ==> r@.len() == revealed - 1,
        revealed == 0 ==> r@.len() == 0,
        forall|i: int|
            0 <= i < r@.len() ==> #[trigger] r@[i] == screen_of(
                Point {
                    x: bez_at_x(*a, *b, i + 1) as i64,
                    y: bez_at_y(*a, *b, i + 1) as i64,
                },
                scale as int,
                size as int,
                origin,
            ),
{
    let mut r: Vec<ScreenPoint> = Vec::new();
    let steps: i64 = revealed as i64;
    let mut k: i64 = 1;
    while k < steps
        invariant
            wf_bez(*a),
            wf_bez(*b),
            0 <= steps <= 100,
            1 <= k,
            steps >= 2 ==> k <= steps,
            steps < 2 ==> k == 1,
            view_ok(scale, size, origin),
            r@.len() == k - 1,
            forall|i: int|
                0 <= i < r@.len() ==> #[trigger] r@[i] == screen_of(
                    Point {
                        x: bez_at_x(*a, *b, i + 1) as i64,
                        y: bez_at_y(*a, *b, i + 1) as i64,
                    },
                    scale as int,
                    size as int,
                    origin,
                ),
        decreases steps - k,
    {
        let p = interpolate(a, b, k);
        let s = to_screen(p, scale, size, origin);
        r.push(s);
        k += 1;
    }
    r
}

/// The curve query's answer: the segment's lower index, the sample
/// number within it, the sample's screen position, and the tangent
/// there (absent when vertical).
#[derive(Clone, Copy, Debug)]
pub struct CurveHit {
    pub seg: usize,
    pub step: i64,
    pub pos: ScreenPoint,
    pub slope: Option<Slope>,
}

/// Whether `(seg, step)` names a drawn sample: a segment that exists and
/// a step strictly inside its revealed range.
pub open spec fn valid_sample(revealed: Seq<u64>, seg: int, step: int) -> bool {
    0 <= seg < revealed.len() && 1 <= step < revealed[seg]
}

/// The field position of sample `step` on segment `seg`.
pub open spec fn sample_point(points: Seq<BezPoint>, seg: int, step: int) -> Point {
    Point {
        x: bez_at_x(points[seg], points[seg + 1], step) as i64,
        y: bez_at_y(points[seg], points[seg + 1], step) as i64,
    }
}

/// The screen position of sample `step` on segment `seg`.
pub open spec fn sample_pos(
    points: Seq<BezPoint>,
    seg: int,
    step: int,
    scale: int,
    size: int,
    origin: ScreenPoint,
) -> ScreenPoint {
    screen_of(sample_point(points, seg, step), scale, size, origin)
}

/// Squared distance from the pointer to a sample.
pub open spec fn sample_dist(
    points: Seq<BezPoint>,
    seg: int,
    step: int,
    scale: int,
    size: int,
    origin: ScreenPoint,
    ptr: ScreenPoint,
) -> int {
    dist_sq(sample_pos(points, seg, step, scale, size, origin), ptr)
}

/// Lexicographic order on samples: the order the scan visits them in.
pub open spec fn sample_before(s1: int, t1: int, s2: int, t2: int) -> bool {
    s1 < s2 || (s1 == s2 && t1 < t2)
}

/// Nearest drawn sample to the pointer over all segments, earliest on
/// ties; nothing when no segment has a drawn sample.
pub fn curve_hit(
    points: &Vec<BezPoint>,
    revealed: &Vec<u64>,
    ptr: ScreenPoint,
    scale: u32,
    size: i64,
    origin: ScreenPoint,
) -> (r: Option<CurveHit>)
    requires
        points@.len() >= 1 ==> revealed@.len() == points@.len() - 1,
        points@.len() == 0 ==> revealed@.len() == 0,
        forall|i: int| 0 <= i < points@.len() ==> wf_bez(#[trigger] points@[i]),
        forall|i: int| 0 <= i < revealed@.len() ==> #[trigger] revealed@[i] <= 100,
        view_ok(scale, size, origin),
        screen_in(ptr, SCREEN_LIMIT as int),
    ensures
        r is None <==> forall|s: int, t: int| !valid_sample(revealed@, s, t),
        r matches Some(h) ==> valid_sample(revealed@, h.seg as int, h.step as int) && screen_in(
            h.pos,
            SCREEN_LIMIT as int,
        ) && h.pos
            == sample_pos(points@, h.seg as int, h.step as int, scale as int, size as int, origin)
            && (h.slope is Some <==> slope_dx_num(
            points@[h.seg as int],
            points@[h.seg as int + 1],
            h.step as int,
        ) != 0) && (h.slope matches Some(sl) ==> sl.dx as int == slope_dx_num(
            points@[h.seg as int],
            points@[h.seg as int + 1],
            h.step as int,
        ) && sl.dy as int == slope_dy_num(
            points@[h.seg as int],
            points@[h.seg as int + 1],
            h.step as int,
        )) && (forall|s: int, t: int|
            valid_sample(revealed@, s, t) ==> sample_dist(
                points@,
                s,
                t,
                scale as int,
                size as int,
                origin,
                ptr,
            ) >= sample_dist(
                points@,
                h.seg as int,
                h.step as int,
                scale as int,
                size as int,
                origin,
                ptr,
            )) && (forall|s: int, t: int|
            valid_sample(revealed@, s, t) && sample_before(s, t, h.seg as int, h.step as int)
                ==> sample_dist(points@, s, t, scale as int, size as int, origin, ptr)
                > sample_dist(
                points@,
                h.seg as int,
                h.step as int,
                scale as int,
                size as int,
                origin,
                ptr,
            )),
{
    let nseg = revealed.len();
    let mut best: Option<CurveHit> = None;
    let mut best_d: i128 = 0;
    let mut s: usize = 0;
    while s < nseg
        invariant
            points@.len() >= 1 ==> revealed@.len() == points@.len() - 1,
            points@.len() == 0 ==> revealed@.len() == 0,
            nseg == revealed@.len(),
            s <= nseg,
            forall|i: int| 0 <= i < points@.len() ==> wf_bez(#[trigger] points@[i]),
            forall|i: int| 0 <= i < revealed@.len() ==> #[trigger] revealed@[i] <= 100,
            view_ok(scale, size, origin),
            screen_in(ptr, SCREEN_LIMIT as int),
            best is None ==> forall|s2: int, t2: int|
                s2 < s ==> !valid_sample(revealed@, s2, t2),
            best matches Some(h) ==> valid_sample(revealed@, h.seg as int, h.step as int)
                && screen_in(h.pos, SCREEN_LIMIT as int) && (h.seg as int) < s && h.pos
                == sample_pos(
                points@,
                h.seg as int,
                h.step as int,
                scale as int,
                size as int,
                origin,
            ) && (h.slope is Some <==> slope_dx_num(
                points@[h.seg as int],
                points@[h.seg as int + 1],
                h.step as int,
            ) != 0) && (h.slope matches Some(sl) ==> sl.dx as int == slope_dx_num(
                points@[h.seg as int],
                points@[h.seg as int + 1],
                h.step as int,
            ) && sl.dy as int == slope_dy_num(
                points@[h.seg as int],
                points@[h.seg as int + 1],
                h.step as int,
            )) && best_d as int == sample_dist(
                points@,
                h.seg as int,
                h.step as int,
                scale as int,
                size as int,
                origin,
                ptr,
            ) && (forall|s2: int, t2: int|
                valid_sample(revealed@, s2, t2) && s2 < s ==> sample_dist(
                    points@,
                    s2,
                    t2,
                    scale as int,
                    size as int,
                    origin,
                    ptr,
                ) >= best_d as int) && (forall|s2: int, t2: int|
                valid_sample(revealed@, s2, t2) && s2 < s && sample_before(
                    s2,
                    t2,
                    h.seg as int,
                    h.step as int,
                ) ==> sample_dist(points@, s2, t2, scale as int, size as int, origin, ptr)
                    > best_d as int),
        decreases nseg - s,
    {
        let rev = revealed[s];
        let steps_here: i64 = rev as i64;
        let mut t: i64 = 1;
        while t < steps_here
            invariant
                points@.len() >= 1 ==> revealed@.len() == points@.len() - 1,
                points@.len() == 0 ==> revealed@.len() == 0,
                nseg == revealed@.len(),
                s < nseg,
                steps_here == revealed@[s as int],
                0 <= steps_here <= 100,
                1 <= t,
                steps_here >= 2 ==> t <= steps_here,
                steps_here < 2 ==> t == 1,
                forall|i: int| 0 <= i < points@.len() ==> wf_bez(#[trigger] points@[i]),
                forall|i: int| 0 <= i < revealed@.len() ==> #[trigger] revealed@[i] <= 100,
                view_ok(scale, size, origin),
                screen_in(ptr, SCREEN_LIMIT as int),
                best is None ==> forall|s2: int, t2: int|
                    s2 < s || (s2 == s && t2 < t) ==> !valid_sample(revealed@, s2, t2),
                best matches Some(h) ==> valid_sample(revealed@, h.seg as int, h.step as int)
                    && screen_in(h.pos, SCREEN_LIMIT as int) && ((h.seg as int) < s || (
                    h.seg as int == s && (h.step as int) < t)) && h.pos == sample_pos(
                    points@,
                    h.seg as int,
                    h.step as int,
                    scale as int,
                    size as int,
                    origin,
                ) && (h.slope is Some <==> slope_dx_num(
                    points@[h.seg as int],
                    points@[h.seg as int + 1],
                    h.step as int,
                ) != 0) && (h.slope matches Some(sl) ==> sl.dx as int == slope_dx_num(
                    points@[h.seg as int],
                    points@[h.seg as int + 1],
                    h.step as int,
                ) && sl.dy as int == slope_dy_num(
                    points@[h.seg as int],
                    points@[h.seg as int + 1],
                    h.step as int,
                )) && best_d as int == sample_dist(
                    points@,
                    h.seg as int,
                    h.step as int,
                    scale as int,
                    size as int,
                    origin,
                    ptr,
                ) && (forall|s2: int, t2: int|
                    valid_sample(revealed@, s2, t2) && (s2 < s || (s2 == s && t2 < t))
                        ==> sample_dist(points@, s2, t2, scale as int, size as int, origin, ptr)
                        >= best_d as int) && (forall|s2: int, t2: int|
                    valid_sample(revealed@, s2, t2) && (s2 < s || (s2 == s && t2 < t))
                        && sample_before(s2, t2, h.seg as int, h.step as int) ==> sample_dist(
                        points@,
                        s2,
                        t2,
                        scale as int,
                        size as int,
                        origin,
                        ptr,
                    ) > best_d as int),
            decreases steps_here - t,
        {
            let a = points[s];
            let b = points[s + 1];
            let fp = interpolate(&a, &b, t);
            let sp = to_screen(fp, scale, size, origin);
            let d = dist_sq_exec(sp, ptr);
            proof {
                assert(sp == sample_pos(points@, s as int, t as int, scale as int, size as int,
                    origin));
            }
            let better = match best {
                Option::None => true,
                Option::Some(_) => d < best_d,
            };
            if better {
                let sl = interpolate_slope(&a, &b, t);
                best = Some(CurveHit { seg: s, step: t, pos: sp, slope: sl });
                best_d = d;
            }
            t += 1;
        }
        s += 1;
    }
    best
}

} // verus!
