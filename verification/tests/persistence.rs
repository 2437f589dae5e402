use pathy::app::{CursorMode, PathyApp};
use pathy::bezier::{BezPoint, Point};
use pathy::codec::{deserialize, serialize};

fn bez(id: u64, ax: i64, ay: i64, c1x: i64, c1y: i64, c2x: i64, c2y: i64) -> BezPoint {
    BezPoint {
        id,
        anchor: Point { x: ax, y: ay },
        cp1: Point { x: c1x, y: c1y },
        cp2: Point { x: c2x, y: c2y },
    }
}

#[test]
fn round_trip_preserves_path_and_view() {
    let mut app = PathyApp {
        size: 140_500,
        scale: 720,
        cursor_mode: CursorMode::Trim,
        points: Vec::new(),
        selected: Some(1),
        next_id: 9,
    };
    app.points.push(bez(3, 10_000, 20_000, 5_000, 20_000, 15_000, 20_000));
    app.points.push(bez(5, 30_000, -20_000, 25_000, -20_000, 35_000, -20_000));
    app.points.push(bez(8, -7_000, 0, -9_000, 500, -5_000, -500));

    let rec = serialize(&app);
    let back = deserialize(&rec).expect("a serialized state loads");

    assert_eq!(back.size, app.size);
    assert_eq!(back.scale, app.scale);
    assert_eq!(back.points.len(), app.points.len());
    for (b, a) in back.points.iter().zip(app.points.iter()) {
        assert_eq!(b.anchor, a.anchor);
        assert_eq!(b.cp1, a.cp1);
        assert_eq!(b.cp2, a.cp2);
    }
    // Session state is not persisted: the loaded state is a fresh session.
    assert_eq!(back.cursor_mode, CursorMode::Default);
    assert!(back.selected.is_none());
}

#[test]
fn round_trip_of_empty_path() {
    let app = PathyApp::default();
    let rec = serialize(&app);
    assert_eq!(rec, vec![140_500, 720, 0]);
    let back = deserialize(&rec).expect("the default state loads");
    assert_eq!(back.size, 140_500);
    assert_eq!(back.scale, 720);
    assert!(back.points.is_empty());
}

#[test]
fn missing_fields_take_defaults() {
    // An empty record loads as the documented default state.
    let back = deserialize(&vec![]).expect("an empty record loads");
    assert_eq!(back.size, 140_500);
    assert_eq!(back.scale, 720);
    assert!(back.points.is_empty());
    // A record carrying only the field size keeps it; the rest defaults.
    let back = deserialize(&vec![100_000]).expect("a size-only record loads");
    assert_eq!(back.size, 100_000);
    assert_eq!(back.scale, 720);
    assert!(back.points.is_empty());
    // A record carrying size and scale keeps both; the path defaults.
    let back = deserialize(&vec![100_000, 500]).expect("a headerless-path record loads");
    assert_eq!(back.size, 100_000);
    assert_eq!(back.scale, 500);
    assert!(back.points.is_empty());
    assert_eq!(back.cursor_mode, CursorMode::Default);
    assert!(back.selected.is_none());
}

#[test]
fn present_fields_out_of_range_are_rejected() {
    // A field that is present must be in range, even in a short record.
    assert!(deserialize(&vec![0]).is_none());
    assert!(deserialize(&vec![100_000, 0]).is_none());
}

#[test]
fn deserialize_rejects_inconsistent_length() {
    // Header says one point but no coordinates follow.
    assert!(deserialize(&vec![140_500, 720, 1]).is_none());
    // Trailing data beyond the declared count.
    assert!(deserialize(&vec![140_500, 720, 0, 1]).is_none());
}

#[test]
fn deserialize_rejects_header_out_of_range() {
    assert!(deserialize(&vec![0, 720, 0]).is_none());
    assert!(deserialize(&vec![140_500, 0, 0]).is_none());
    assert!(deserialize(&vec![140_500, 720, -1]).is_none());
    assert!(deserialize(&vec![-5, 720, 0]).is_none());
}

#[test]
fn deserialize_rejects_coordinate_out_of_range() {
    // An anchor coordinate beyond the coordinate bound.
    let rec = vec![140_500, 720, 1, 400_000_000, 0, 0, 0, 0, 0];
    assert!(deserialize(&rec).is_none());
    let ok = vec![140_500, 720, 1, 200_000_000, 0, 0, 0, 0, 0];
    assert!(deserialize(&ok).is_some());
}

#[test]
fn loaded_state_renumbers_identities() {
    let rec = vec![100_000, 500, 2, 0, 0, -10_000, 0, 10_000, 0, 50_000, 0, 40_000, 0, 60_000, 0];
    let back = deserialize(&rec).expect("valid record");
    assert_eq!(back.points[0].id, 0);
    assert_eq!(back.points[1].id, 1);
    assert_eq!(back.next_id, 2);
}
