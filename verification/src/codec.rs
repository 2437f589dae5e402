//! Persistence framing for the editor state.
//!
//! What outlives a session is the field size, the screen scale, and the
//! path's coordinates; the cursor mode, the selection and the point
//! identities are session-transient and come back as defaults. The
//! record is a flat sequence of integers: the three header values, then
//! six coordinates per point. A shell may hand that sequence to any
//! store; this module proves the framing itself round-trips.

use crate::app::{CursorMode, PathyApp};
use crate::bezier::{
    coord_in, wf_bez, BezPoint, Point, ANCHOR_LIMIT, COORD_LIMIT, SCALE_LIMIT, SIZE_LIMIT,
};
use vstd::prelude::*;

verus! {

/// Most points a persisted record may carry.
pub const MAX_POINTS: usize = 1_000_000;

/// Bounds of the six coordinates of point `i` in a record.
pub open spec fn record_point_ok(s: Seq<i64>, i: int) -> bool {
    &&& coord_in(s[3 + 6 * i] as int, ANCHOR_LIMIT as int)
    &&& coord_in(s[3 + 6 * i + 1] as int, ANCHOR_LIMIT as int)
    &&& coord_in(s[3 + 6 * i + 2] as int, COORD_LIMIT as int)
    &&& coord_in(s[3 + 6 * i + 3] as int, COORD_LIMIT as int)
    &&& coord_in(s[3 + 6 * i + 4] as int, COORD_LIMIT as int)
    &&& coord_in(s[3 + 6 * i + 5] as int, COORD_LIMIT as int)
}

/// Whether the six coordinates of point `i` in a record are exactly the
/// coordinates of `b`.
pub open spec fn record_matches_point(s: Seq<i64>, i: int, b: BezPoint) -> bool {
    &&& s[3 + 6 * i] == b.anchor.x
    &&& s[3 + 6 * i + 1] == b.anchor.y
    &&& s[3 + 6 * i + 2] == b.cp1.x
    &&& s[3 + 6 * i + 3] == b.cp1.y
    &&& s[3 + 6 * i + 4] == b.cp2.x
    &&& s[3 + 6 * i + 5] == b.cp2.y
}

/// A loadable record: every field that is present is in range, and a
/// present points section is consistent. A record may end early — an
/// older record that misses later fields — and still load, the missing
/// fields taking their defaults.
pub open spec fn valid_record(s: Seq<i64>) -> bool {
    &&& (s.len() >= 1 ==> 1 <= s[0] <= SIZE_LIMIT)
    &&& (s.len() >= 2 ==> 1 <= s[1] <= SCALE_LIMIT)
    &&& (s.len() >= 3 ==> {
        &&& 0 <= s[2] <= MAX_POINTS
        &&& s.len() == 3 + 6 * s[2]
        &&& forall|i: int| 0 <= i < s[2] ==> #[trigger] record_point_ok(s, i)
    })
}

/// The field size a record carries; missing, the documented default.
pub open spec fn rec_size(s: Seq<i64>) -> i64 {
    if s.len() >= 1 {
        s[0]
    } else {
        140_500
    }
}

/// The screen scale a record carries; missing, the documented default.
pub open spec fn rec_scale(s: Seq<i64>) -> i64 {
    if s.len() >= 2 {
        s[1]
    } else {
        720
    }
}

/// The point count a record carries; missing, an empty path.
pub open spec fn rec_count(s: Seq<i64>) -> int {
    if s.len() >= 3 {
        s[2] as int
    } else {
        0
    }
}

/// Writes the persisted projection of the state: header, then each
/// point's anchor and handles in path order.
pub fn serialize(app: &PathyApp) -> (r: Vec<i64>)
    requires
        app.wf(),
        app.points@.len() <= MAX_POINTS,
    ensures
        r@.len() == 3 + 6 * app.points@.len(),
        r@[0] == app.size,
        r@[1] == app.scale as i64,
        r@[2] == app.points@.len() as i64,
        forall|i: int|
            0 <= i < app.points@.len() ==> record_matches_point(r@, i, #[trigger] app.points@[i]),
        valid_record(r@),
{
    let mut r: Vec<i64> = Vec::new();
    r.push(app.size);
    r.push(app.scale as i64);
    let n = app.points.len();
    r.push(n as i64);
    let mut i: usize = 0;
    while i < n
        invariant
            app.wf(),
            n == app.points@.len(),
            n <= MAX_POINTS,
            i <= n,
            r@.len() == 3 + 6 * i,
            r@[0] == app.size,
            r@[1] == app.scale as i64,
            r@[2] == n as i64,
            forall|l: int|
                0 <= l < i ==> record_matches_point(r@, l, #[trigger] app.points@[l]),
        decreases n - i,
    {
        let b = app.points[i];
        let ghost r0 = r@;
        r.push(b.anchor.x);
        r.push(b.anchor.y);
        r.push(b.cp1.x);
        r.push(b.cp1.y);
        r.push(b.cp2.x);
        r.push(b.cp2.y);
        i += 1;
        proof {
            assert forall|l: int|
                0 <= l < i implies record_matches_point(r@, l, #[trigger] app.points@[l]) by {
                if l < i - 1 {
                    assert(record_matches_point(r0, l, app.points@[l]));
                }
            }
        }
    }
    proof {
        assert forall|l: int| 0 <= l < r@[2] implies #[trigger] record_point_ok(r@, l) by {
            assert(record_matches_point(r@, l, app.points@[l]));
            assert(wf_bez(app.points@[l]));
        }
    }
    r
}

/// Reads a record back into a fresh session state: the persisted
/// values, default mode, no selection, and identities renumbered from
/// zero. A record that ends early still loads: each missing field takes
/// its documented default, while the fields that are present keep their
/// persisted values. Yields nothing exactly when a present field is out
/// of range or the points section is inconsistent.
pub fn deserialize(data: &Vec<i64>) -> (r: Option<PathyApp>)
    ensures
        r is Some <==> valid_record(data@),
        r matches Some(app) ==> app.wf() && app.size == rec_size(data@) && app.scale as i64
            == rec_scale(data@) && app.points@.len() <= MAX_POINTS && app.points@.len()
            == rec_count(data@) && (forall|i: int|
            0 <= i < app.points@.len() ==> record_matches_point(data@, i, #[trigger] app.points@[i])
                && app.points@[i].id == i as u64) && app.cursor_mode == CursorMode::Default
            && app.selected is None && app.next_id == app.points@.len(),
{
    let len = data.len();
    let size = if len >= 1 {
        data[0]
    } else {
        140_500
    };
    if size < 1 || size > SIZE_LIMIT {
        return None;
    }
    let scale_raw = if len >= 2 {
        data[1]
    } else {
        720
    };
    if scale_raw < 1 || scale_raw > (SCALE_LIMIT as i64) {
        return None;
    }
    if len < 3 {
        return Some(
            PathyApp {
                size,
                scale: scale_raw as u32,
                cursor_mode: CursorMode::Default,
                points: Vec::new(),
                selected: None,
                next_id: 0,
            },
        );
    }
    let count_raw = data[2];
    if count_raw < 0 || count_raw > (MAX_POINTS as i64) {
        return None;
    }
    let n = count_raw as usize;
    if data.len() != 3 + 6 * n {
        return None;
    }
    let mut points: Vec<BezPoint> = Vec::new();
    let mut i: usize = 0;
    while i < n
        invariant
            data@.len() == 3 + 6 * n,
            n <= MAX_POINTS,
            i <= n,
            points@.len() == i,
            forall|l: int|
                0 <= l < i ==> record_matches_point(data@, l, #[trigger] points@[l]) && wf_bez(
                    points@[l],
                ) && points@[l].id == l as u64,
        decreases n - i,
    {
        let ax = data[3 + 6 * i];
        let ay = data[3 + 6 * i + 1];
        let c1x = data[3 + 6 * i + 2];
        let c1y = data[3 + 6 * i + 3];
        let c2x = data[3 + 6 * i + 4];
        let c2y = data[3 + 6 * i + 5];
        if ax < -ANCHOR_LIMIT || ax > ANCHOR_LIMIT || ay < -ANCHOR_LIMIT || ay > ANCHOR_LIMIT {
            proof {
                assert(!record_point_ok(data@, i as int));
            }
            return None;
        }
        if c1x < -COORD_LIMIT || c1x > COORD_LIMIT || c1y < -COORD_LIMIT || c1y > COORD_LIMIT
            || c2x < -COORD_LIMIT || c2x > COORD_LIMIT || c2y < -COORD_LIMIT || c2y > COORD_LIMIT {
            proof {
                assert(!record_point_ok(data@, i as int));
            }
            return None;
        }
        points.push(
            BezPoint {
                id: i as u64,
                anchor: Point { x: ax, y: ay },
                cp1: Point { x: c1x, y: c1y },
                cp2: Point { x: c2x, y: c2y },
            },
        );
        i += 1;
    }
    let app = PathyApp {
        size,
        scale: scale_raw as u32,
        cursor_mode: CursorMode::Default,
        points,
        selected: None,
        next_id: n as u64,
    };
    proof {
        assert forall|a: int, b: int|
            0 <= a < b < app.points@.len() implies app.points@[a].id != app.points@[b].id by {
            assert(app.points@[a].id == a as u64);
            assert(app.points@[b].id == b as u64);
        }
        assert forall|l: int| 0 <= l < data@[2] implies #[trigger] record_point_ok(data@, l) by {
            assert(record_matches_point(data@, l, app.points@[l]));
            assert(wf_bez(app.points@[l]));
        }
        assert(valid_record(data@));
    }
    Some(app)
}

/// The round trip law: a record written from any well-formed state is
/// valid, so it loads, and whatever state loads from it carries exactly
/// the same field size, screen scale, and point coordinates, whatever
/// mode or selection held before saving. The hypotheses on `s` are what
/// `serialize` guarantees; those on `app2`, what `deserialize`
/// guarantees of a loaded state.
pub proof fn lemma_round_trip(app: PathyApp, s: Seq<i64>, app2: PathyApp)
    requires
        app.wf(),
        app.points@.len() <= MAX_POINTS,
        s.len() == 3 + 6 * app.points@.len(),
        s[0] == app.size,
        s[1] == app.scale as i64,
        s[2] == app.points@.len() as i64,
        forall|i: int|
            0 <= i < app.points@.len() ==> record_matches_point(s, i, #[trigger] app.points@[i]),
        app2.size == s[0],
        app2.scale as i64 == s[1],
        app2.points@.len() <= MAX_POINTS,
        app2.points@.len() as i64 == s[2],
        forall|i: int|
            0 <= i < app2.points@.len() ==> record_matches_point(s, i, #[trigger] app2.points@[i]),
    ensures
        valid_record(s),
        app2.size == app.size,
        app2.scale == app.scale,
        app2.points@.len() == app.points@.len(),
        forall|i: int|
            0 <= i < app.points@.len() ==> (#[trigger] app2.points@[i]).anchor
                == app.points@[i].anchor && app2.points@[i].cp1 == app.points@[i].cp1
                && app2.points@[i].cp2 == app.points@[i].cp2,
{
    assert(s[2] == app.points@.len() as i64);
    assert forall|i: int| 0 <= i < s[2] implies #[trigger] record_point_ok(s, i) by {
        assert(0 <= i < app.points@.len());
        assert(record_matches_point(s, i, app.points@[i]));
        assert(wf_bez(app.points@[i]));
    }
    assert forall|i: int|
        0 <= i < app.points@.len() implies (#[trigger] app2.points@[i]).anchor
        == app.points@[i].anchor && app2.points@[i].cp1 == app.points@[i].cp1
        && app2.points@[i].cp2 == app.points@[i].cp2 by {
        assert(record_matches_point(s, i, app.points@[i]));
        assert(record_matches_point(s, i, app2.points@[i]));
    }
}

} // verus!
