use pathy::anim::AnimState;
use pathy::app::{CursorMode, PathyApp};
use pathy::bezier::{
    from_screen, interpolate, interpolate_slope, to_screen, BezPoint, Point, ScreenPoint,
};
use pathy::hit::{curve_hit, point_hit};

fn bez(id: u64, ax: i64, ay: i64, c1x: i64, c1y: i64, c2x: i64, c2y: i64) -> BezPoint {
    BezPoint {
        id,
        anchor: Point { x: ax, y: ay },
        cp1: Point { x: c1x, y: c1y },
        cp2: Point { x: c2x, y: c2y },
    }
}

/// A 100-inch field drawn at 500 px, origin at the screen corner.
fn small_view() -> (u32, i64, ScreenPoint) {
    (500, 100_000, ScreenPoint { x: 0, y: 0 })
}

#[test]
fn interpolate_hits_endpoints() {
    let a = bez(0, 1_000, 2_000, -5_000, 2_000, 7_000, 9_000);
    let b = bez(1, 40_000, -3_000, 35_000, -8_000, 45_000, 2_000);
    assert_eq!(interpolate(&a, &b, 0), a.anchor);
    assert_eq!(interpolate(&a, &b, 100), b.anchor);
}

#[test]
fn interpolate_midpoint_exact_value() {
    // Control values 0, 0, 0, 1_000_000: at t = 1/2 the cubic is t^3 = 1/8.
    let a = bez(0, 0, 0, 0, 0, 0, 0);
    let b = bez(1, 1_000_000, 1_000_000, 0, 0, 0, 0);
    let p = interpolate(&a, &b, 50);
    assert_eq!(p.x, 125_000);
    assert_eq!(p.y, 125_000);
}

#[test]
fn slope_is_exact_ratio() {
    // A straight diagonal: anchors and handles on the line y = x.
    let a = bez(0, 0, 0, -1_000, -1_000, 1_000, 1_000);
    let b = bez(1, 10_000, 10_000, 9_000, 9_000, 11_000, 11_000);
    let s = interpolate_slope(&a, &b, 30).expect("diagonal has a slope");
    assert_eq!(s.dy, s.dx);
    assert_ne!(s.dx, 0);
}

#[test]
fn slope_vertical_tangent_is_none() {
    // All control x equal: the horizontal derivative is zero everywhere.
    let a = bez(0, 5_000, 0, 5_000, -1_000, 5_000, 1_000);
    let b = bez(1, 5_000, 10_000, 5_000, 9_000, 5_000, 11_000);
    assert!(interpolate_slope(&a, &b, 40).is_none());
    // A sloped curve at the same samples does return a value.
    let c = bez(2, 9_000, 10_000, 8_000, 9_000, 10_000, 11_000);
    assert!(interpolate_slope(&a, &c, 40).is_some());
}

#[test]
fn screen_transform_round_trips() {
    let (scale, size, origin) = small_view();
    let p = Point { x: 50_000, y: 50_000 };
    let s = to_screen(p, scale, size, origin);
    assert_eq!(s, ScreenPoint { x: 250_000, y: 250_000 });
    assert_eq!(from_screen(s, scale, size, origin), Some(p));
}

fn empty_app() -> PathyApp {
    let (scale, size, _) = small_view();
    PathyApp {
        size,
        scale,
        cursor_mode: CursorMode::Default,
        points: Vec::new(),
        selected: None,
        next_id: 0,
    }
}

#[test]
fn create_on_empty_path_uses_fixed_handles() {
    let (_, _, origin) = small_view();
    let mut app = empty_app();
    let mut anim = AnimState::new();
    // Screen position mapping to field (50, 50) inches.
    app.create_click(ScreenPoint { x: 250_000, y: 250_000 }, origin, 5_000, &mut anim);
    assert_eq!(app.points.len(), 1);
    let p = &app.points[0];
    assert_eq!(p.anchor, Point { x: 50_000, y: 50_000 });
    assert_eq!(p.cp1, Point { x: 40_000, y: 50_000 });
    assert_eq!(p.cp2, Point { x: 60_000, y: 50_000 });
}

#[test]
fn create_on_nonempty_path_uses_smooth_join() {
    // Single point at the field origin with the fixed handles, then a
    // create click mapping to field (50, 50).
    let (_, _, origin) = small_view();
    let mut app = empty_app();
    app.points.push(bez(0, 0, 0, -10_000, 0, 10_000, 0));
    app.next_id = 1;
    let mut anim = AnimState::new();
    app.create_click(ScreenPoint { x: 250_000, y: 250_000 }, origin, 5_000, &mut anim);
    assert_eq!(app.points.len(), 2);
    let p = &app.points[1];
    assert_eq!(p.anchor, Point { x: 50_000, y: 50_000 });
    // cp1 = midpoint of previous cp2 (10_000, 0) and the new anchor.
    assert_eq!(p.cp1, Point { x: 30_000, y: 25_000 });
    // cp2 = reflection of cp1 through the anchor.
    assert_eq!(p.cp2, Point { x: 70_000, y: 75_000 });
    // The new segment's reveal was seeded at zero.
    assert_eq!(anim.revealed(1), 0);
}

#[test]
fn create_outside_field_is_ignored() {
    let (_, _, origin) = small_view();
    let mut app = empty_app();
    let mut anim = AnimState::new();
    app.create_click(ScreenPoint { x: 600_000, y: 250_000 }, origin, 5_000, &mut anim);
    assert_eq!(app.points.len(), 0);
}

#[test]
fn create_over_existing_point_is_ignored() {
    let (_, _, origin) = small_view();
    let mut app = empty_app();
    app.points.push(bez(0, 50_000, 50_000, 40_000, 50_000, 60_000, 50_000));
    app.next_id = 1;
    let mut anim = AnimState::new();
    // Pointer exactly on the point's screen position.
    app.create_click(ScreenPoint { x: 250_000, y: 250_000 }, origin, 5_000, &mut anim);
    assert_eq!(app.points.len(), 1);
}

fn four_point_line() -> PathyApp {
    let mut app = empty_app();
    // Anchors at 10, 30, 50, 70 inches along y = 20 in, smooth handles.
    app.points.push(bez(0, 10_000, 20_000, 5_000, 20_000, 15_000, 20_000));
    app.points.push(bez(1, 30_000, 20_000, 25_000, 20_000, 35_000, 20_000));
    app.points.push(bez(2, 50_000, 20_000, 45_000, 20_000, 55_000, 20_000));
    app.points.push(bez(3, 70_000, 20_000, 65_000, 20_000, 75_000, 20_000));
    app.next_id = 4;
    app
}

#[test]
fn delete_click_removes_hit_point_and_shifts_rest() {
    let (scale, size, origin) = small_view();
    let mut app = four_point_line();
    let before = app.points.clone();
    app.cursor_mode = CursorMode::Delete;
    // Screen position of points[1]'s anchor: (30_000, 20_000) * 500 / 100_000 px.
    let ptr = to_screen(before[1].anchor, scale, size, origin);
    app.delete_click(ptr, origin, 5_000);
    assert_eq!(app.points.len(), 3);
    assert_eq!(app.points[0], before[0]);
    assert_eq!(app.points[1], before[2]);
    assert_eq!(app.points[2], before[3]);
}

#[test]
fn trim_click_keeps_prefix() {
    let (scale, size, origin) = small_view();
    let mut app = four_point_line();
    let before = app.points.clone();
    app.cursor_mode = CursorMode::Trim;
    let ptr = to_screen(before[2].anchor, scale, size, origin);
    app.trim_click(ptr, origin, 5_000);
    assert_eq!(app.points.len(), 2);
    assert_eq!(app.points[0], before[0]);
    assert_eq!(app.points[1], before[1]);
}

#[test]
fn delete_click_without_hit_is_noop() {
    let (_, _, origin) = small_view();
    let mut app = four_point_line();
    app.cursor_mode = CursorMode::Delete;
    app.delete_click(ScreenPoint { x: 490_000, y: 490_000 }, origin, 1_000);
    assert_eq!(app.points.len(), 4);
}

#[test]
fn insert_click_inserts_after_segment() {
    let (_, _, origin) = small_view();
    let mut app = empty_app();
    // One horizontal segment along y = 0, handles on the same line, so
    // the tangent is never vertical.
    app.points.push(bez(0, 0, 0, -10_000, 0, 10_000, 0));
    app.points.push(bez(1, 100_000, 0, 90_000, 0, 110_000, 0));
    app.next_id = 2;
    let before = app.points.clone();
    let revealed: Vec<u64> = vec![100];
    // Hover near the middle of the segment.
    app.insert_click(Some(ScreenPoint { x: 250_000, y: 0 }), origin, &revealed);
    assert_eq!(app.points.len(), 3);
    assert_eq!(app.points[0], before[0]);
    assert_eq!(app.points[2], before[1]);
    let inserted = &app.points[1];
    assert_eq!(inserted.id, 2);
    // The inserted anchor lies on the sampled curve, which is on y = 0.
    assert_eq!(inserted.anchor.y, 0);
    assert!(inserted.anchor.x > 0 && inserted.anchor.x < 100_000);
    // Smooth-join handles from the lower neighbour's cp2.
    let mx = (before[0].cp2.x + inserted.anchor.x) / 2;
    assert_eq!(inserted.cp1.x, mx);
    assert_eq!(inserted.cp2.x, 2 * inserted.anchor.x - mx);
}

#[test]
fn insert_click_with_no_revealed_samples_is_noop() {
    let (_, _, origin) = small_view();
    let mut app = empty_app();
    app.points.push(bez(0, 0, 0, -10_000, 0, 10_000, 0));
    app.points.push(bez(1, 100_000, 0, 90_000, 0, 110_000, 0));
    app.next_id = 2;
    // A freshly created segment with no reveal yet is not insertable.
    let revealed: Vec<u64> = vec![0];
    app.insert_click(Some(ScreenPoint { x: 250_000, y: 0 }), origin, &revealed);
    assert_eq!(app.points.len(), 2);
}

#[test]
fn toggle_mode_is_a_toggle() {
    let mut app = empty_app();
    app.toggle_mode(CursorMode::Create);
    assert_eq!(app.cursor_mode, CursorMode::Create);
    app.toggle_mode(CursorMode::Create);
    assert_eq!(app.cursor_mode, CursorMode::Default);
    app.toggle_mode(CursorMode::Delete);
    app.toggle_mode(CursorMode::Trim);
    assert_eq!(app.cursor_mode, CursorMode::Trim);
}

#[test]
fn click_in_default_mode_never_edits() {
    let (_, _, origin) = small_view();
    let mut app = four_point_line();
    let before = app.points.clone();
    let mut anim = AnimState::new();
    app.click(Some(ScreenPoint { x: 150_000, y: 100_000 }), origin, 5_000, &mut anim);
    assert_eq!(app.points, before);
}

#[test]
fn click_dispatches_on_mode() {
    let (scale, size, origin) = small_view();
    let mut app = four_point_line();
    let before = app.points.clone();
    let mut anim = AnimState::new();
    app.toggle_mode(CursorMode::Trim);
    let ptr = to_screen(before[2].anchor, scale, size, origin);
    app.click(Some(ptr), origin, 5_000, &mut anim);
    assert_eq!(app.points.len(), 2);
}

#[test]
fn size_is_frozen_once_path_exists() {
    let mut app = empty_app();
    app.set_size(140_500);
    assert_eq!(app.size, 140_500);
    app.points.push(bez(0, 0, 0, -10_000, 0, 10_000, 0));
    app.next_id = 1;
    app.set_size(200_000);
    assert_eq!(app.size, 140_500);
}

#[test]
fn scale_is_clamped() {
    let mut app = empty_app();
    app.set_scale(0);
    assert_eq!(app.scale, 1);
    app.set_scale(720);
    assert_eq!(app.scale, 720);
    app.set_scale(4_000_000_000);
    assert_eq!(app.scale, 100_000);
}

#[test]
fn default_state_matches_documented_values() {
    let app = PathyApp::default();
    assert_eq!(app.size, 140_500);
    assert_eq!(app.scale, 720);
    assert_eq!(app.cursor_mode, CursorMode::Default);
    assert!(app.points.is_empty());
    assert!(app.selected.is_none());
}

#[test]
fn drag_moves_only_the_locked_anchor() {
    let (scale, size, origin) = small_view();
    let mut app = four_point_line();
    let before = app.points.clone();
    app.cursor_mode = CursorMode::Default;
    let ptr = to_screen(before[1].anchor, scale, size, origin);
    app.button_down(ptr, origin, 5_000);
    assert_eq!(app.selected, Some(1));
    // Drag to field (40, 40).
    app.drag_update(ScreenPoint { x: 200_000, y: 200_000 }, origin);
    assert_eq!(app.points[1].anchor, Point { x: 40_000, y: 40_000 });
    assert_eq!(app.points[1].cp1, before[1].cp1);
    assert_eq!(app.points[1].cp2, before[1].cp2);
    assert_eq!(app.points[0], before[0]);
    app.button_released();
    assert!(app.selected.is_none());
}

#[test]
fn drag_in_delete_mode_acquires_no_lock() {
    let (scale, size, origin) = small_view();
    let mut app = four_point_line();
    app.cursor_mode = CursorMode::Delete;
    let ptr = to_screen(app.points[1].anchor, scale, size, origin);
    app.button_down(ptr, origin, 5_000);
    assert!(app.selected.is_none());
}

#[test]
fn point_hit_reports_first_of_overlapping_points() {
    let (scale, size, origin) = small_view();
    // Two points at the same anchor: only the first is ever reported.
    let points = vec![
        bez(0, 50_000, 50_000, 40_000, 50_000, 60_000, 50_000),
        bez(1, 50_000, 50_000, 40_000, 50_000, 60_000, 50_000),
    ];
    let ptr = to_screen(points[0].anchor, scale, size, origin);
    assert_eq!(point_hit(&points, ptr, scale, size, origin, 5_000), Some(0));
    let far = ScreenPoint { x: 490_000, y: 490_000 };
    assert_eq!(point_hit(&points, far, scale, size, origin, 5_000), None);
}

#[test]
fn curve_hit_finds_nearest_revealed_sample() {
    let (scale, size, origin) = small_view();
    let points = vec![
        bez(0, 0, 0, -10_000, 0, 10_000, 0),
        bez(1, 100_000, 0, 90_000, 0, 110_000, 0),
    ];
    let revealed: Vec<u64> = vec![100];
    // Hover directly over the curve's middle.
    let h = curve_hit(&points, &revealed, ScreenPoint { x: 250_000, y: 10_000 }, scale, size,
        origin).expect("a revealed sample exists");
    assert_eq!(h.seg, 0);
    assert!(h.step >= 1 && h.step <= 99);
    // The curve lies on y = 0, so the nearest sample does too.
    assert_eq!(h.pos.y, 0);
    let sl = h.slope.expect("horizontal curve has a slope");
    assert_eq!(sl.dy, 0);
    assert_ne!(sl.dx, 0);
}

#[test]
fn reveal_animation_ramps_and_saturates() {
    let mut anim = AnimState::new();
    assert_eq!(anim.revealed(7), 100);
    anim.start(7);
    assert_eq!(anim.revealed(7), 0);
    anim.advance(125);
    assert_eq!(anim.revealed(7), 25);
    anim.advance(125);
    assert_eq!(anim.revealed(7), 50);
    anim.advance(10_000);
    assert_eq!(anim.revealed(7), 100);
    // Another identity is unaffected throughout.
    assert_eq!(anim.revealed(8), 100);
}

#[test]
fn segment_samples_follow_reveal_progress() {
    let (scale, size, origin) = small_view();
    let a = bez(0, 0, 0, -10_000, 0, 10_000, 0);
    let b = bez(1, 100_000, 0, 90_000, 0, 110_000, 0);
    assert!(pathy::hit::segment_samples(&a, &b, 0, scale, size, origin).is_empty());
    assert!(pathy::hit::segment_samples(&a, &b, 1, scale, size, origin).is_empty());
    let half = pathy::hit::segment_samples(&a, &b, 50, scale, size, origin);
    assert_eq!(half.len(), 49);
    let full = pathy::hit::segment_samples(&a, &b, 100, scale, size, origin);
    assert_eq!(full.len(), 99);
    // Samples sit on the curve: here the horizontal line y = 0.
    for s in &full {
        assert_eq!(s.y, 0);
    }
    // The unrevealed prefix agrees with the full draw list.
    assert_eq!(&full[..49], &half[..]);
}

#[test]
fn fresh_segment_is_not_insertable_until_revealed() {
    let (_, _, origin) = small_view();
    let mut app = empty_app();
    let mut anim = AnimState::new();
    app.toggle_mode(CursorMode::Create);
    // Two create clicks: field (10, 10) and field (90, 10).
    app.click(Some(ScreenPoint { x: 50_000, y: 50_000 }), origin, 5_000, &mut anim);
    app.click(Some(ScreenPoint { x: 450_000, y: 50_000 }), origin, 5_000, &mut anim);
    assert_eq!(app.points.len(), 2);
    app.toggle_mode(CursorMode::Create);
    app.toggle_mode(CursorMode::Insert);
    // The new segment's reveal is still zero: the curve is not
    // hit-testable, so an insert click does nothing.
    app.click(Some(ScreenPoint { x: 250_000, y: 50_000 }), origin, 5_000, &mut anim);
    assert_eq!(app.points.len(), 2);
    // Once the reveal window has passed, the same click inserts.
    anim.advance(1_000);
    app.click(Some(ScreenPoint { x: 250_000, y: 50_000 }), origin, 5_000, &mut anim);
    assert_eq!(app.points.len(), 3);
}

#[test]
fn drag_without_lock_changes_nothing() {
    let (_, _, origin) = small_view();
    let mut app = four_point_line();
    let before = app.points.clone();
    app.drag_update(ScreenPoint { x: 200_000, y: 200_000 }, origin);
    assert_eq!(app.points, before);
}
