use gcode_nom::geometry::Geometry;
use gcode_nom::geometry::VertexStore;
use gcode_nom::motion::decide;
use gcode_nom::motion::Action;
use gcode_nom::number::Number;

fn k(x: f64, y: f64, z: f64) -> (u64, u64, u64) {
    (x.to_bits(), y.to_bits(), z.to_bits())
}

fn lines(g: &Geometry, object: usize) -> Vec<Vec<usize>> {
    g.objects[object].lines.clone()
}

#[test]
fn store_dedups_bitwise() {
    let mut s = VertexStore::new();
    assert_eq!(s.insert(k(0.0, 0.0, 0.0)), 0);
    assert_eq!(s.insert(k(1.0, 0.0, 0.0)), 1);
    assert_eq!(s.insert(k(0.0, 0.0, 0.0)), 0);
    assert_eq!(s.insert(k(1.0, 0.0, 0.0)), 1);
    assert_eq!(s.insert(k(1.0, 2.0, 0.0)), 2);
    assert_eq!(s.len(), 3);
    assert_eq!(s.get(2), k(1.0, 2.0, 0.0));
}

/// Minimal print path: one polyline through three vertices.
#[test]
fn minimal_print_path() {
    let mut g = Geometry::new();
    g.travel(k(0.0, 0.0, 0.0));
    g.extrude(k(10.0, 0.0, 0.0));
    g.extrude(k(10.0, 10.0, 0.0));
    g.finish();
    assert_eq!(g.store.len(), 3);
    assert_eq!(g.store.get(1), k(10.0, 0.0, 0.0));
    assert_eq!(lines(&g, 0), vec![vec![0, 1, 2]]);
}

/// A retraction in place splits the polyline; the shared point is one vertex.
#[test]
fn retraction_splits_polyline() {
    let mut g = Geometry::new();
    g.travel(k(0.0, 0.0, 0.0));
    g.extrude(k(5.0, 0.0, 0.0));
    g.travel(k(5.0, 0.0, 0.0));
    g.extrude(k(10.0, 0.0, 0.0));
    g.finish();
    assert_eq!(g.store.len(), 3);
    assert_eq!(lines(&g, 0), vec![vec![0, 1], vec![1, 2]]);
}

#[test]
fn multi_object() {
    let mut g = Geometry::new();
    g.start_object(0, Some("a".to_string()));
    g.travel(k(0.0, 0.0, 0.0));
    g.extrude(k(1.0, 0.0, 0.0));
    g.start_object(1, Some("b".to_string()));
    g.travel(k(0.0, 1.0, 0.0));
    g.extrude(k(1.0, 1.0, 0.0));
    g.finish();
    assert_eq!(g.objects.len(), 2);
    assert_eq!(g.objects[0].name, Some("a".to_string()));
    assert_eq!(g.objects[1].id, 1);
    assert_eq!(g.objects[1].name, Some("b".to_string()));
    assert_eq!(lines(&g, 0), vec![vec![0, 1]]);
    assert_eq!(lines(&g, 1), vec![vec![2, 3]]);
}

#[test]
fn cancelled_motion_is_dropped() {
    let mut g = Geometry::new();
    g.cancel();
    g.travel(k(0.0, 0.0, 0.0));
    g.extrude(k(1.0, 0.0, 0.0));
    assert_eq!(g.store.len(), 0);
    g.uncancel(0);
    g.travel(k(2.0, 0.0, 0.0));
    g.extrude(k(3.0, 0.0, 0.0));
    g.assign_name("part".to_string());
    g.finish();
    assert_eq!(g.store.len(), 2);
    assert_eq!(lines(&g, 0), vec![vec![0, 1]]);
    assert_eq!(g.objects[0].name, Some("part".to_string()));
}

#[test]
fn set_position_closes_without_vertex() {
    let mut g = Geometry::new();
    g.travel(k(0.0, 0.0, 0.0));
    g.extrude(k(1.0, 0.0, 0.0));
    g.close_polyline();
    assert_eq!(g.store.len(), 2);
    assert!(g.objects[0].open.is_empty());
    assert_eq!(lines(&g, 0), vec![vec![0, 1]]);
}

#[test]
fn no_moves_no_geometry() {
    let mut g = Geometry::new();
    g.finish();
    assert_eq!(g.store.len(), 0);
    assert!(lines(&g, 0).is_empty());
}

#[test]
fn extruder_sign() {
    let n = |negative: bool, whole: &str, fraction: &str| Number::Finite {
        negative,
        whole: whole.as_bytes().to_vec(),
        fraction: fraction.as_bytes().to_vec(),
    };
    assert!(n(false, "1", "").is_positive());
    assert!(n(false, "", "05").is_positive());
    assert!(!n(false, "", "").is_positive());
    assert!(!n(true, "1", "").is_positive());
    assert!(n(true, "1", "").is_at_most_zero());
    assert!(n(false, "", "").is_at_most_zero());
    assert!(!Number::NaN.is_positive() && !Number::NaN.is_at_most_zero());
    assert!(Number::Infinity.is_positive());
}

fn decide_ok(command: gcode_nom::command::Command, extruding: bool) -> Action {
    decide(command, extruding).unwrap()
}

fn parsed(line: &str) -> gcode_nom::command::Command {
    gcode_nom::command::Command::parse_line(line).unwrap().1
}

#[test]
fn park_closes_without_moving() {
    match decide_ok(parsed("G92 E-1"), true) {
        Action::SetPosition { x: None, y: None, z: None, close: true } => {}
        other => panic!("unexpected {other:?}"),
    }
    match decide_ok(parsed("G92 X5 E0"), true) {
        Action::SetPosition { x: Some(_), y: None, z: None, close: true } => {}
        other => panic!("unexpected {other:?}"),
    }
    match decide_ok(parsed("G92 E2"), true) {
        Action::SetPosition { close: false, .. } => {}
        other => panic!("unexpected {other:?}"),
    }
}

#[test]
fn moves_follow_extruder_sign() {
    match decide_ok(parsed("G1 X10 Y0 E1"), false) {
        Action::Move { x: Some(_), y: Some(_), z: None, extruding: true } => {}
        other => panic!("unexpected {other:?}"),
    }
    match decide_ok(parsed("G1 X5 Y0 E-1"), true) {
        Action::Move { extruding: false, .. } => {}
        other => panic!("unexpected {other:?}"),
    }
    match decide_ok(parsed("G0 X1"), true) {
        Action::Move { extruding: true, .. } => {}
        other => panic!("unexpected {other:?}"),
    }
    assert!(matches!(decide_ok(parsed("M486 S1 A\"b\""), false), Action::Start(1, Some(ref n)) if n == "b"));
    assert!(matches!(decide_ok(parsed("M486 C"), false), Action::Cancel));
    assert!(matches!(decide_ok(parsed("M486 T3"), false), Action::Ignore));
    assert!(matches!(decide_ok(parsed("G21"), false), Action::Ignore));
    match decide_ok(parsed("G3 X0 Y5 I-5 J0"), false) {
        Action::Arc { clockwise: false, values } => {
            assert_eq!(values.x, Some(Number::Finite { negative: false, whole: vec![], fraction: vec![] }));
            assert_eq!(values.i, Some(Number::Finite { negative: true, whole: b"5".to_vec(), fraction: vec![] }));
            assert!(values.y.is_some() && values.j.is_some());
        }
        other => panic!("unexpected {other:?}"),
    }
    assert_eq!(decide(parsed("G2 X1 Y2 R5"), false).err(), Some(gcode_nom::block::BlockError::UnimplementedArcRadiusForm));
}
