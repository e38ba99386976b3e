use scan_engine::ast::{FunctionDef, Program, Stmt};
use scan_engine::command::CommandKind;
use scan_engine::eval::run_program;
use scan_engine::fixed::SCALE;
use scan_engine::samples::{drawLines, drawRect, loop_figures_program, sample_program, scanCircuit};
use scan_engine::value::EngineError;

fn wrap(name: &str, def: FunctionDef) -> Program {
    let main = FunctionDef {
        params: Vec::new(),
        body: vec![Stmt::Call {
            name: name.to_string(),
            args: Vec::new(),
        }],
    };
    Program {
        funcs: vec![
            (name.to_string(), def),
            ("main".to_string(), main),
        ],
        init: None,
    }
}

#[test]
fn draw_rect_scans_a_hundred_by_hundred_grid() {
    let out = run_program(&wrap("drawRect", drawRect()), &Vec::new(), 10_000).unwrap();
    assert_eq!(out.len(), 100 * 100);
    match out[0].kind {
        CommandKind::Move { x, y } => {
            assert_eq!((x, y), (-40 * SCALE, -40 * SCALE));
        }
        _ => panic!("expected a move"),
    }
    for c in &out {
        assert_eq!(c.label.as_deref(), Some("Xrect"));
    }
}

#[test]
fn scan_circuit_brackets_every_chord() {
    let out = run_program(&wrap("scanCircuit", scanCircuit()), &Vec::new(), 100_000).unwrap();
    let starts = out
        .iter()
        .filter(|c| matches!(c.kind, CommandKind::MeasureStart))
        .count();
    let ends = out
        .iter()
        .filter(|c| matches!(c.kind, CommandKind::MeasureEnd))
        .count();
    // One chord per step of two units from just inside the circle's bottom
    // to just inside its top.
    assert_eq!(starts, 28);
    assert_eq!(ends, 28);
    for c in &out {
        assert_eq!(c.label.as_deref(), Some("circuit"));
    }
}

#[test]
fn draw_lines_emits_a_wait_per_spoke() {
    let out = run_program(&wrap("drawLines", drawLines()), &Vec::new(), 1_000_000).unwrap();
    let waits = out
        .iter()
        .filter(|c| matches!(c.kind, CommandKind::Wait { .. }))
        .count();
    assert_eq!(waits, 100);
    let moves = out
        .iter()
        .filter(|c| matches!(c.kind, CommandKind::Move { .. }))
        .count();
    assert_eq!(moves, 100 * 500);
}

#[test]
fn sample_runs_are_deterministic() {
    let a = run_program(&wrap("drawLines", drawLines()), &Vec::new(), 1_000_000).unwrap();
    let b = run_program(&wrap("drawLines", drawLines()), &Vec::new(), 1_000_000).unwrap();
    assert_eq!(a, b);
}

#[test]
fn undeclared_rect_argument_is_rejected_at_run_time() {
    // The second sample's rect call keeps the script's extra waitAtEnd
    // argument, which the builtin signature does not declare.
    let r = run_program(&sample_program(), &Vec::new(), 100_000);
    assert!(matches!(r, Err(EngineError::TypeError)));
}

#[test]
fn assignment_as_condition_loops_until_the_budget_ends() {
    let r = run_program(&loop_figures_program(), &Vec::new(), 2_000);
    assert!(matches!(r, Err(EngineError::StepLimit)));
}
