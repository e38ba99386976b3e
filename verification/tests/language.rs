use scan_engine::ast::{Arg, Expr, FunctionDef, Program, Stmt};
use scan_engine::command::{Command, CommandKind};
use scan_engine::eval::{expand_range, run_program};
use scan_engine::fixed::SCALE;
use scan_engine::value::{BinOp, EngineError, Value};

fn fp(x: i64) -> i64 {
    x * SCALE
}

fn num(x: i64) -> Expr {
    Expr::Lit(Value::Num(fp(x)))
}

fn var(n: &str) -> Expr {
    Expr::Var(n.to_string())
}

fn pos(e: Expr) -> Arg {
    Arg { name: None, value: e }
}

fn named(n: &str, e: Expr) -> Arg {
    Arg {
        name: Some(n.to_string()),
        value: e,
    }
}

fn call(name: &str, args: Vec<Arg>) -> Stmt {
    Stmt::Call {
        name: name.to_string(),
        args,
    }
}

fn program_of(body: Vec<Stmt>) -> Program {
    let main = FunctionDef {
        params: Vec::new(),
        body,
    };
    Program {
        funcs: vec![("main".to_string(), main)],
        init: None,
    }
}

fn run(body: Vec<Stmt>) -> Result<Vec<Command>, EngineError> {
    run_program(&program_of(body), &Vec::new(), 1_000_000)
}

fn move_xy(c: &Command) -> (i64, i64) {
    match c.kind {
        CommandKind::Move { x, y } => (x, y),
        _ => panic!("expected a move"),
    }
}

#[test]
fn range_is_half_open_with_default_step() {
    let v = expand_range(0, 5, 1).unwrap();
    assert_eq!(v, vec![0, 1, 2, 3, 4]);
}

#[test]
fn range_with_larger_step_stays_below_end() {
    let v = expand_range(2, 11, 3).unwrap();
    assert_eq!(v, vec![2, 5, 8]);
}

#[test]
fn range_is_empty_when_start_reaches_end() {
    assert_eq!(expand_range(5, 5, 1).unwrap(), Vec::<i64>::new());
    assert_eq!(expand_range(7, 5, 1).unwrap(), Vec::<i64>::new());
    assert_eq!(expand_range(3, 5, -1).unwrap(), Vec::<i64>::new());
}

#[test]
fn range_runs_downward_on_negative_step() {
    let v = expand_range(5, 0, -2).unwrap();
    assert_eq!(v, vec![5, 3, 1]);
}

#[test]
fn range_with_zero_step_is_invalid() {
    assert!(matches!(expand_range(0, 5, 0), Err(EngineError::InvalidRange)));
}

#[test]
fn for_loop_visits_range_in_order() {
    let body = vec![Stmt::For {
        var: "i".to_string(),
        start: num(0),
        end: num(3),
        step: None,
        body: vec![call("setMarker", vec![pos(var("i"))])],
    }];
    let out = run(body).unwrap();
    let ids: Vec<i64> = out
        .iter()
        .map(|c| match c.kind {
            CommandKind::Marker { id } => id,
            _ => panic!("expected markers"),
        })
        .collect();
    assert_eq!(ids, vec![0, 1, 2]);
}

#[test]
fn double_start_measure_fails_the_program() {
    let body = vec![call("startMeasure", vec![]), call("startMeasure", vec![])];
    assert!(matches!(run(body), Err(EngineError::SequenceError)));
}

#[test]
fn stop_measure_without_start_fails_the_program() {
    let body = vec![call("stopMeasure", vec![])];
    assert!(matches!(run(body), Err(EngineError::SequenceError)));
}

#[test]
fn open_window_at_end_of_run_fails() {
    let body = vec![call("moveTo", vec![pos(num(0)), pos(num(0))]), call("startMeasure", vec![])];
    assert!(matches!(run(body), Err(EngineError::UnclosedMeasurementWindow)));
}

#[test]
fn closed_window_yields_exactly_one_pair() {
    let body = vec![
        call("startMeasure", vec![]),
        call("moveTo", vec![pos(num(1)), pos(num(1))]),
        call("stopMeasure", vec![]),
    ];
    let out = run(body).unwrap();
    let starts = out
        .iter()
        .filter(|c| matches!(c.kind, CommandKind::MeasureStart))
        .count();
    let ends = out
        .iter()
        .filter(|c| matches!(c.kind, CommandKind::MeasureEnd))
        .count();
    assert_eq!((starts, ends), (1, 1));
}

#[test]
fn same_program_twice_gives_identical_streams() {
    let mk = || {
        vec![
            Stmt::Shape {
                label: "sweep".to_string(),
                body: vec![
                    call("moveTo", vec![pos(num(0)), pos(num(0))]),
                    call(
                        "rect",
                        vec![
                            pos(num(-2)),
                            pos(num(-2)),
                            pos(num(2)),
                            pos(num(2)),
                            named("nrows", num(4)),
                            named("nCols", num(4)),
                            named("interp", num(1)),
                        ],
                    ),
                    call(
                        "ellipse",
                        vec![
                            pos(num(0)),
                            pos(num(0)),
                            pos(num(5)),
                            pos(num(3)),
                            named("angle", num(45)),
                            named("nTurns", num(2)),
                            named("numPts", num(50)),
                            named("waitAtBegin", num(7)),
                        ],
                    ),
                ],
            },
        ]
    };
    let a = run(mk()).unwrap();
    let b = run(mk()).unwrap();
    assert_eq!(a, b);
}

#[test]
fn ellipse_program_emits_wait_then_cardinal_points() {
    let body = vec![call(
        "ellipse",
        vec![
            named("x0", num(0)),
            named("y0", num(0)),
            named("radX", num(5)),
            named("radY", num(3)),
            named("angle", num(0)),
            named("nTurns", num(1)),
            named("numPts", num(4)),
            named("waitAtBegin", num(100)),
        ],
    )];
    let out = run(body).unwrap();
    assert_eq!(out.len(), 5);
    assert!(matches!(out[0].kind, CommandKind::Wait { usec: 100 }));
    let pts: Vec<(i64, i64)> = out[1..].iter().map(move_xy).collect();
    assert_eq!(pts, vec![(fp(5), 0), (0, fp(3)), (-fp(5), 0), (0, -fp(3))]);
}

#[test]
fn shape_blocks_label_their_commands() {
    let body = vec![
        Stmt::Shape {
            label: "ring".to_string(),
            body: vec![call("moveTo", vec![pos(num(1)), pos(num(2))])],
        },
        call("moveTo", vec![pos(num(3)), pos(num(4))]),
    ];
    let out = run(body).unwrap();
    assert_eq!(out[0].label.as_deref(), Some("ring"));
    assert_eq!(out[1].label, None);
}

#[test]
fn geometry_label_argument_overrides_enclosing_label() {
    let body = vec![Stmt::Shape {
        label: "outer".to_string(),
        body: vec![call(
            "rect",
            vec![
                pos(num(0)),
                pos(num(0)),
                pos(num(1)),
                pos(num(1)),
                named("nrows", num(2)),
                named("nCols", num(2)),
                named("label", Expr::Lit(Value::Text("Xrect".to_string()))),
            ],
        )],
    }];
    let out = run(body).unwrap();
    assert_eq!(out.len(), 4);
    for c in &out {
        assert_eq!(c.label.as_deref(), Some("Xrect"));
    }
}

#[test]
fn unknown_variable_is_a_name_error() {
    let body = vec![call("moveTo", vec![pos(var("nowhere")), pos(num(0))])];
    assert!(matches!(run(body), Err(EngineError::NameError(_))));
}

#[test]
fn unknown_call_target_is_undefined_function() {
    let body = vec![call("drawCircle", vec![])];
    assert!(matches!(run(body), Err(EngineError::UndefinedFunction(_))));
}

#[test]
fn arithmetic_on_text_is_a_type_error() {
    let body = vec![Stmt::Let(vec![(
        "x".to_string(),
        Expr::Bin(
            BinOp::Add,
            Box::new(Expr::Lit(Value::Text("a".to_string()))),
            Box::new(num(1)),
        ),
    )])];
    assert!(matches!(run(body), Err(EngineError::TypeError)));
}

#[test]
fn negative_point_count_is_invalid_geometry() {
    let body = vec![
        call("moveTo", vec![pos(num(0)), pos(num(0))]),
        call("lineTo", vec![pos(num(1)), pos(num(1)), pos(num(-5))]),
    ];
    assert!(matches!(run(body), Err(EngineError::InvalidGeometry)));
}

#[test]
fn missing_required_argument_is_a_type_error() {
    let body = vec![call("moveTo", vec![pos(num(0))])];
    assert!(matches!(run(body), Err(EngineError::TypeError)));
}

#[test]
fn unknown_named_argument_is_a_type_error() {
    let body = vec![call(
        "moveTo",
        vec![pos(num(0)), pos(num(0)), named("zoom", num(1))],
    )];
    assert!(matches!(run(body), Err(EngineError::TypeError)));
}

#[test]
fn let_bindings_shadow_and_feed_expressions() {
    let body = vec![
        Stmt::Let(vec![
            ("a".to_string(), num(3)),
            ("b".to_string(), Expr::Bin(BinOp::Mul, Box::new(var("a")), Box::new(num(2)))),
        ]),
        call("moveTo", vec![pos(var("b")), pos(var("a"))]),
    ];
    let out = run(body).unwrap();
    assert_eq!(move_xy(&out[0]), (fp(6), fp(3)));
}

#[test]
fn while_loop_runs_until_condition_goes_falsy() {
    // let n = 3; while (n = n - 1) { setMarker(n) }  -- marks 2, then 1,
    // stopping when the assigned value reaches zero.
    let body = vec![
        Stmt::Let(vec![("n".to_string(), num(3))]),
        Stmt::While {
            cond: Expr::Assign(
                "n".to_string(),
                Box::new(Expr::Bin(BinOp::Sub, Box::new(var("n")), Box::new(num(1)))),
            ),
            body: vec![call("setMarker", vec![pos(var("n"))])],
        },
    ];
    let out = run(body).unwrap();
    let ids: Vec<i64> = out
        .iter()
        .map(|c| match c.kind {
            CommandKind::Marker { id } => id,
            _ => panic!("expected markers"),
        })
        .collect();
    assert_eq!(ids, vec![2, 1]);
}

#[test]
fn user_functions_bind_defaults_and_overrides() {
    let helper = FunctionDef {
        params: vec![
            ("x".to_string(), Some(Value::Num(fp(9)))),
            ("y".to_string(), Some(Value::Num(fp(7)))),
        ],
        body: vec![call("moveTo", vec![pos(var("x")), pos(var("y"))])],
    };
    let main = FunctionDef {
        params: Vec::new(),
        body: vec![call("jump", vec![named("y", num(1))])],
    };
    let prog = Program {
        funcs: vec![
            ("jump".to_string(), helper),
            ("main".to_string(), main),
        ],
        init: None,
    };
    let out = run_program(&prog, &Vec::new(), 100_000).unwrap();
    assert_eq!(move_xy(&out[0]), (fp(9), fp(1)));
}

#[test]
fn init_block_establishes_globals_for_main() {
    let main = FunctionDef {
        params: Vec::new(),
        body: vec![call("moveTo", vec![pos(var("home")), pos(var("home"))])],
    };
    let prog = Program {
        funcs: vec![("main".to_string(), main)],
        init: Some(vec![Stmt::Let(vec![("home".to_string(), num(11))])]),
    };
    let out = run_program(&prog, &Vec::new(), 100_000).unwrap();
    assert_eq!(move_xy(&out[0]), (fp(11), fp(11)));
}

#[test]
fn caller_overrides_reach_main_parameters() {
    let main = FunctionDef {
        params: vec![("scanFreq".to_string(), Some(Value::Num(fp(10_000))))],
        body: vec![call("waitUsec", vec![pos(var("scanFreq"))])],
    };
    let prog = Program {
        funcs: vec![("main".to_string(), main)],
        init: None,
    };
    let overrides = vec![("scanFreq".to_string(), Value::Num(fp(123)))];
    let out = run_program(&prog, &overrides, 100_000).unwrap();
    assert!(matches!(out[0].kind, CommandKind::Wait { usec: 123 }));
}
