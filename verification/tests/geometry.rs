use scan_engine::command::{Command, CommandKind};
use scan_engine::engine::Engine;
use scan_engine::fixed::SCALE;
use scan_engine::value::EngineError;

fn fp(x: i64) -> i64 {
    x * SCALE
}

fn move_xy(c: &Command) -> (i64, i64) {
    match c.kind {
        CommandKind::Move { x, y } => (x, y),
        _ => panic!("expected a move"),
    }
}

#[test]
fn line_to_single_point_jumps_to_destination() {
    let mut eng = Engine::new();
    eng.move_to(fp(7), fp(8), &None);
    eng.line_to(fp(3), fp(-4), 1, &None).unwrap();
    assert_eq!(eng.out.len(), 2);
    assert_eq!(move_xy(&eng.out[1]), (fp(3), fp(-4)));
}

#[test]
fn line_to_single_point_ignores_start() {
    let mut eng = Engine::new();
    eng.move_to(fp(-100), fp(55), &None);
    eng.line_to(fp(3), fp(-4), 1, &None).unwrap();
    assert_eq!(move_xy(&eng.out[1]), (fp(3), fp(-4)));
}

#[test]
fn line_to_interpolates_inclusive_of_both_endpoints() {
    let mut eng = Engine::new();
    eng.move_to(0, 0, &None);
    eng.line_to(fp(4), fp(8), 5, &None).unwrap();
    assert_eq!(eng.out.len(), 1 + 5);
    let pts: Vec<(i64, i64)> = eng.out[1..].iter().map(move_xy).collect();
    assert_eq!(
        pts,
        vec![
            (0, 0),
            (fp(1), fp(2)),
            (fp(2), fp(4)),
            (fp(3), fp(6)),
            (fp(4), fp(8)),
        ]
    );
}

#[test]
fn line_to_before_any_move_is_rejected() {
    let mut eng = Engine::new();
    let r = eng.line_to(fp(1), fp(1), 5, &None);
    assert!(matches!(r, Err(EngineError::InvalidGeometry)));
    assert_eq!(eng.out.len(), 0);
}

#[test]
fn rect_three_by_three_boustrophedon_covers_grid() {
    let mut eng = Engine::new();
    let n = eng.rect(0, 0, fp(2), fp(2), 3, 3, true, &None);
    assert_eq!(n, 9);
    assert_eq!(eng.out.len(), 9);
    let pts: Vec<(i64, i64)> = eng.out.iter().map(move_xy).collect();
    // Row-major, the middle row reversed relative to its neighbours; the
    // four box corners all appear.
    assert_eq!(
        pts,
        vec![
            (0, 0),
            (fp(1), 0),
            (fp(2), 0),
            (fp(2), fp(1)),
            (fp(1), fp(1)),
            (0, fp(1)),
            (0, fp(2)),
            (fp(1), fp(2)),
            (fp(2), fp(2)),
        ]
    );
}

#[test]
fn rect_without_interleave_restarts_each_row() {
    let mut eng = Engine::new();
    eng.rect(0, 0, fp(1), fp(1), 2, 2, false, &None);
    let pts: Vec<(i64, i64)> = eng.out.iter().map(move_xy).collect();
    assert_eq!(pts, vec![(0, 0), (fp(1), 0), (0, fp(1)), (fp(1), fp(1))]);
}

#[test]
fn rect_empty_grid_emits_nothing() {
    let mut eng = Engine::new();
    let n = eng.rect(0, 0, fp(1), fp(1), 0, 5, true, &None);
    assert_eq!(n, 0);
    assert_eq!(eng.out.len(), 0);
}

#[test]
fn ellipse_cardinal_points_with_leading_wait() {
    let mut eng = Engine::new();
    eng.ellipse(0, 0, fp(5), fp(3), 0, SCALE, 4, 100, &None);
    assert_eq!(eng.out.len(), 5);
    assert!(matches!(eng.out[0].kind, CommandKind::Wait { usec: 100 }));
    let pts: Vec<(i64, i64)> = eng.out[1..].iter().map(move_xy).collect();
    assert_eq!(pts, vec![(fp(5), 0), (0, fp(3)), (-fp(5), 0), (0, -fp(3))]);
}

#[test]
fn ellipse_without_wait_emits_moves_only() {
    let mut eng = Engine::new();
    eng.ellipse(fp(1), fp(1), fp(2), fp(2), 0, SCALE, 4, 0, &None);
    assert_eq!(eng.out.len(), 4);
    assert_eq!(move_xy(&eng.out[0]), (fp(3), fp(1)));
}

#[test]
fn geometry_is_deterministic_across_runs() {
    let mut a = Engine::new();
    let mut b = Engine::new();
    for eng in [&mut a, &mut b] {
        eng.move_to(fp(1), fp(2), &Some("path".to_string()));
        eng.line_to(fp(9), fp(9), 37, &Some("path".to_string())).unwrap();
        eng.rect(-fp(4), -fp(4), fp(4), fp(4), 7, 5, true, &None);
        eng.ellipse(0, 0, fp(15), fp(5), 45 * SCALE, SCALE, 100, 10, &None);
    }
    assert_eq!(a.out, b.out);
}
