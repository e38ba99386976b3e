//! Sample scan programs, written as the syntax trees an external front end
//! would produce.  They exercise the raster, circuit-scan and radial-line
//! patterns the engine is built for.

#![allow(non_snake_case)]

use vstd::prelude::*;
use crate::ast::Arg;
use crate::ast::Expr;
use crate::ast::FunctionDef;
use crate::ast::Program;
use crate::ast::Stmt;
use crate::fixed::SCALE;
use crate::value::BinOp;
use crate::value::Value;

verus! {

/// The expression is a fixed-point literal of `x` whole units.
pub open spec fn e_lit(e: Expr, x: int) -> bool {
    e matches Expr::Lit(Value::Num(n)) && n == x * SCALE as int
}

/// The expression is a reference to this variable.
pub open spec fn e_var(e: Expr, n: Seq<char>) -> bool {
    e matches Expr::Var(s) && s@ == n
}

/// The expression negates a reference to this variable.
pub open spec fn e_neg_var(e: Expr, n: Seq<char>) -> bool {
    e matches Expr::Neg(b) && e_var(*b, n)
}

/// The expression applies this operator to a variable and a variable.
pub open spec fn e_bin_vv(e: Expr, op: BinOp, l: Seq<char>, r: Seq<char>) -> bool {
    e matches Expr::Bin(o, a, b) && o == op && e_var(*a, l) && e_var(*b, r)
}

/// The argument is positional.
pub open spec fn a_pos(a: Arg) -> bool {
    a.name is None
}

/// The argument carries this name.
pub open spec fn a_named(a: Arg, n: Seq<char>) -> bool {
    a.name matches Some(s) && s@ == n
}

/// The statement calls this target with this many arguments.
pub open spec fn s_call(st: Stmt, n: Seq<char>, count: int) -> bool {
    st matches Stmt::Call { name, args } && name@ == n && args@.len() == count
}

/// The arguments of a call statement; meaningful only for calls.
pub open spec fn call_args(st: Stmt) -> Seq<Arg> {
    match st {
        Stmt::Call { name, args } => args@,
        _ => Seq::empty(),
    }
}

/// A literal number of whole units, as a fixed-point expression.
pub fn fp_lit(x: i64) -> (r: Expr)
    requires
        -9_000_000_000 <= x <= 9_000_000_000,
    ensures
        r == Expr::Lit(Value::Num((x * SCALE as int) as i64)),
{
    Expr::Lit(Value::Num(x * SCALE))
}

/// A variable reference.
fn var(n: &str) -> (r: Expr)
    ensures
        r matches Expr::Var(s) && s@ == n@,
{
    Expr::Var(n.to_owned())
}

/// A positional argument.
fn pos(e: Expr) -> (r: Arg)
    ensures
        r.name is None,
        r.value == e,
{
    Arg { name: None, value: e }
}

/// A named argument.
fn named(n: &str, e: Expr) -> (r: Arg)
    ensures
        r.name matches Some(s) && s@ == n@,
        r.value == e,
{
    Arg { name: Some(n.to_owned()), value: e }
}

/// A binary operation.
fn bin(op: BinOp, a: Expr, b: Expr) -> (r: Expr)
    ensures
        r == Expr::Bin(op, Box::new(a), Box::new(b)),
{
    Expr::Bin(op, Box::new(a), Box::new(b))
}

/// The raster sample: scan one boustrophedon grid over a square box.
pub fn drawRect() -> (r: FunctionDef)
    ensures
        r.params@.len() == 0,
        r.body@.len() == 2,
        r.body@[0] matches Stmt::Let(l) && l@.len() == 5 && l@[3].0@ == "sizeX"@ && e_lit(
            l@[3].1,
            40,
        ) && l@[4].0@ == "sizeY"@ && e_lit(l@[4].1, 40),
        s_call(r.body@[1], "rect"@, 8),
        a_pos(call_args(r.body@[1])[0]) && e_neg_var(call_args(r.body@[1])[0].value, "sizeX"@),
        a_pos(call_args(r.body@[1])[1]) && e_neg_var(call_args(r.body@[1])[1].value, "sizeY"@),
        a_pos(call_args(r.body@[1])[2]) && e_var(call_args(r.body@[1])[2].value, "sizeX"@),
        a_pos(call_args(r.body@[1])[3]) && e_var(call_args(r.body@[1])[3].value, "sizeY"@),
        a_named(call_args(r.body@[1])[4], "nrows"@) && e_lit(call_args(r.body@[1])[4].value, 100),
        a_named(call_args(r.body@[1])[5], "nCols"@) && e_lit(call_args(r.body@[1])[5].value, 100),
        a_named(call_args(r.body@[1])[6], "interp"@) && e_lit(call_args(r.body@[1])[6].value, 1),
        a_named(call_args(r.body@[1])[7], "label"@) && (call_args(r.body@[1])[7].value matches
            Expr::Lit(Value::Text(t)) && t@ == "Xrect"@),
{
    let lets: Vec<(String, Expr)> = vec![
        ("Nx".to_owned(), fp_lit(10)),
        ("Ny".to_owned(), fp_lit(10)),
        ("D".to_owned(), fp_lit(20)),
        ("sizeX".to_owned(), fp_lit(40)),
        ("sizeY".to_owned(), fp_lit(40)),
    ];
    let args: Vec<Arg> = vec![
        pos(Expr::Neg(Box::new(var("sizeX")))),
        pos(Expr::Neg(Box::new(var("sizeY")))),
        pos(var("sizeX")),
        pos(var("sizeY")),
        named("nrows", fp_lit(100)),
        named("nCols", fp_lit(100)),
        named("interp", fp_lit(1)),
        named("label", Expr::Lit(Value::Text("Xrect".to_owned()))),
    ];
    let body: Vec<Stmt> = vec![
        Stmt::Let(lets),
        Stmt::Call { name: "rect".to_owned(), args },
    ];
    FunctionDef { params: Vec::new(), body }
}

/// The circuit sample: measured horizontal chords across a circle, one
/// measurement window per chord.
pub fn scanCircuit() -> (r: FunctionDef)
    ensures
        r.params@.len() == 0,
        r.body@.len() == 1,
        r.body@[0] matches Stmt::Shape { label, body } && label@ == "circuit"@ && body@.len() == 2
            && (body@[0] matches Stmt::Let(l) && l@.len() == 7 && l@[3].0@ == "R"@ && e_lit(
            l@[3].1,
            30,
        ) && l@[5].0@ == "step"@ && e_lit(l@[5].1, 2) && l@[6].0@ == "delay"@ && e_lit(
            l@[6].1,
            25000,
        )) && (body@[1] matches Stmt::For { var, start, end, step, body: chord } && var@ == "y"@
            && (start matches Expr::Bin(o1, a1, b1) && o1 == BinOp::Add && e_neg_var(*a1, "R"@)
            && e_var(*b1, "step"@)) && (end matches Expr::Bin(o2, a2, b2) && o2 == BinOp::Sub
            && e_var(*a2, "R"@) && e_var(*b2, "step"@)) && (step matches Some(se) && e_var(
            se,
            "step"@,
        )) && chord@.len() == 7 && (chord@[0] matches Stmt::Let(lx) && lx@.len() == 1
            && lx@[0].0@ == "x"@ && (lx@[0].1 matches Expr::MathCall(f, fa) && f@ == "sqrt"@
            && fa@.len() == 1)) && s_call(chord@[1], "moveTo"@, 2) && s_call(
            chord@[2],
            "waitUsec"@,
            1,
        ) && e_var(call_args(chord@[2])[0].value, "delay"@) && s_call(chord@[3], "startMeasure"@, 0)
            && (chord@[4] matches Stmt::Let(ln) && ln@.len() == 1 && ln@[0].0@ == "num"@) && s_call(
            chord@[5],
            "lineTo"@,
            3,
        ) && e_var(call_args(chord@[5])[2].value, "num"@) && s_call(chord@[6], "stopMeasure"@, 0)),
{
    let lets: Vec<(String, Expr)> = vec![
        ("scale".to_owned(), fp_lit(366)),
        ("x0".to_owned(), fp_lit(0)),
        ("y0".to_owned(), fp_lit(0)),
        ("R".to_owned(), fp_lit(30)),
        ("maxPts".to_owned(), fp_lit(1000)),
        ("step".to_owned(), fp_lit(2)),
        ("delay".to_owned(), fp_lit(25000)),
    ];
    let chord: Vec<Stmt> = vec![
        Stmt::Let(
            vec![
                (
                    "x".to_owned(),
                    Expr::MathCall(
                        "sqrt".to_owned(),
                        vec![
                            bin(
                                BinOp::Sub,
                                bin(BinOp::Mul, var("R"), var("R")),
                                bin(BinOp::Mul, var("y"), var("y")),
                            ),
                        ],
                    ),
                ),
            ],
        ),
        Stmt::Call {
            name: "moveTo".to_owned(),
            args: vec![
                pos(bin(BinOp::Sub, var("x0"), var("x"))),
                pos(bin(BinOp::Add, var("y0"), var("y"))),
            ],
        },
        Stmt::Call { name: "waitUsec".to_owned(), args: vec![pos(var("delay"))] },
        Stmt::Call { name: "startMeasure".to_owned(), args: Vec::new() },
        Stmt::Let(vec![("num".to_owned(), bin(BinOp::Mul, fp_lit(2), var("x")))]),
        Stmt::Call {
            name: "lineTo".to_owned(),
            args: vec![
                pos(bin(BinOp::Add, var("x0"), var("x"))),
                pos(bin(BinOp::Add, var("y0"), var("y"))),
                pos(var("num")),
            ],
        },
        Stmt::Call { name: "stopMeasure".to_owned(), args: Vec::new() },
    ];
    let scan: Vec<Stmt> = vec![
        Stmt::Let(lets),
        Stmt::For {
            var: "y".to_owned(),
            start: bin(BinOp::Add, Expr::Neg(Box::new(var("R"))), var("step")),
            end: bin(BinOp::Sub, var("R"), var("step")),
            step: Some(var("step")),
            body: chord,
        },
    ];
    let body: Vec<Stmt> = vec![Stmt::Shape { label: "circuit".to_owned(), body: scan }];
    FunctionDef { params: Vec::new(), body }
}

/// The radial sample: diameters of a circle drawn as interpolated lines.
pub fn drawLines() -> (r: FunctionDef)
    ensures
        r.params@.len() == 0,
        r.body@.len() == 2,
        r.body@[0] matches Stmt::Let(l) && l@.len() == 4 && l@[0].0@ == "N"@ && e_lit(l@[0].1, 100)
            && l@[3].0@ == "R"@ && e_lit(l@[3].1, 2),
        r.body@[1] matches Stmt::For { var, start, end, step, body } && var@ == "i"@ && e_lit(
            start,
            0,
        ) && e_var(end, "N"@) && step is None && body@.len() == 4 && (body@[0] matches Stmt::Let(la)
            && la@.len() == 1 && la@[0].0@ == "ang"@) && s_call(body@[1], "waitUsec"@, 1) && e_lit(
            call_args(body@[1])[0].value,
            10000,
        ) && (body@[2] matches Stmt::Let(lxy) && lxy@.len() == 2 && lxy@[0].0@ == "X"@
            && lxy@[1].0@ == "Y"@) && s_call(body@[3], "line"@, 5) && a_named(
            call_args(body@[3])[4],
            "numPts"@,
        ) && e_lit(call_args(body@[3])[4].value, 500),
{
    let lets: Vec<(String, Expr)> = vec![
        ("N".to_owned(), fp_lit(100)),
        ("x0".to_owned(), fp_lit(0)),
        ("y0".to_owned(), fp_lit(0)),
        ("R".to_owned(), fp_lit(2)),
    ];
    let ang = bin(
        BinOp::Div,
        bin(BinOp::Mul, bin(BinOp::Mul, var("M_PI"), fp_lit(2)), var("i")),
        var("N"),
    );
    let spoke: Vec<Stmt> = vec![
        Stmt::Let(vec![("ang".to_owned(), ang)]),
        Stmt::Call { name: "waitUsec".to_owned(), args: vec![pos(fp_lit(10000))] },
        Stmt::Let(
            vec![
                (
                    "X".to_owned(),
                    bin(
                        BinOp::Mul,
                        var("R"),
                        Expr::MathCall("cos".to_owned(), vec![var("ang")]),
                    ),
                ),
                (
                    "Y".to_owned(),
                    bin(
                        BinOp::Mul,
                        var("R"),
                        Expr::MathCall("sin".to_owned(), vec![var("ang")]),
                    ),
                ),
            ],
        ),
        Stmt::Call {
            name: "line".to_owned(),
            args: vec![
                pos(bin(BinOp::Sub, var("x0"), var("X"))),
                pos(bin(BinOp::Sub, var("y0"), var("Y"))),
                pos(bin(BinOp::Add, var("x0"), var("X"))),
                pos(bin(BinOp::Add, var("y0"), var("Y"))),
                named("numPts", fp_lit(500)),
            ],
        },
    ];
    let body: Vec<Stmt> = vec![
        Stmt::Let(lets),
        Stmt::For {
            var: "i".to_owned(),
            start: fp_lit(0),
            end: var("N"),
            step: None,
            body: spoke,
        },
    ];
    FunctionDef { params: Vec::new(), body }
}

/// The raster sample bundled as a whole program.  Its `main` shows the
/// assignment-as-condition idiom: the condition binds a name to one, which
/// is truthy, so only the evaluation budget ends the loop.
pub fn loop_figures_program() -> (r: Program)
    ensures
        r.funcs@.len() == 2,
        r.init is None,
        r.funcs@[0].0@ == "drawRect"@,
        r.funcs@[1].0@ == "main"@,
        r.funcs@[1].1.params@.len() == 2 && r.funcs@[1].1.params@[0].0@ == "scanFreq"@
            && r.funcs@[1].1.params@[0].1 == Some(Value::Num((10_000 * SCALE as int) as i64)),
        r.funcs@[1].1.body@.len() == 1 && (r.funcs@[1].1.body@[0] matches Stmt::While {
            cond,
            body,
        } && (cond matches Expr::Assign(nm, rhs) && nm@ == "numIters"@ && e_lit(*rhs, 1))
            && body@.len() == 1 && s_call(body@[0], "drawRect"@, 0)),
{
    let main_body: Vec<Stmt> = vec![
        Stmt::While {
            cond: Expr::Assign("numIters".to_owned(), Box::new(fp_lit(1))),
            body: vec![Stmt::Call { name: "drawRect".to_owned(), args: Vec::new() }],
        },
    ];
    let main_def = FunctionDef {
        params: vec![
            ("scanFreq".to_owned(), Some(Value::Num(10_000 * SCALE))),
            ("markerDelay".to_owned(), Some(Value::Num(5_000 * SCALE))),
        ],
        body: main_body,
    };
    let funcs: Vec<(String, FunctionDef)> = vec![
        ("drawRect".to_owned(), drawRect()),
        ("main".to_owned(), main_def),
    ];
    Program { funcs, init: None }
}

/// The radial sample's whole program: the `init` block establishing the
/// scan-rate global, and a `main` that rasters one square.  Its rect call
/// keeps the script's extra `waitAtEnd` argument, which the builtin
/// signature does not declare, so running it fails with a type error.
pub fn sample_program() -> (r: Program)
    ensures
        r.funcs@.len() == 2,
        r.init matches Some(init) && init@.len() == 1 && (init@[0] matches Stmt::Let(l)
            && l@.len() == 1 && l@[0].0@ == "SHZ"@ && e_lit(l@[0].1, 50000)),
        r.funcs@[0].0@ == "drawLines"@,
        r.funcs@[1].0@ == "main"@,
        r.funcs@[1].1.body@.len() == 2 && s_call(r.funcs@[1].1.body@[1], "rect"@, 8) && a_named(
            call_args(r.funcs@[1].1.body@[1])[6],
            "waitAtEnd"@,
        ),
{
    let main_lets: Vec<(String, Expr)> = vec![
        ("Nx".to_owned(), fp_lit(1)),
        ("Ny".to_owned(), fp_lit(1)),
        ("D".to_owned(), fp_lit(10)),
        ("sizeX".to_owned(), fp_lit(50)),
        ("sizeY".to_owned(), fp_lit(50)),
        ("ncols".to_owned(), fp_lit(200)),
        ("nrows".to_owned(), fp_lit(200)),
    ];
    let rect_args: Vec<Arg> = vec![
        pos(Expr::Neg(Box::new(var("sizeX")))),
        pos(Expr::Neg(Box::new(var("sizeY")))),
        pos(var("sizeX")),
        pos(var("sizeY")),
        named("nrows", var("nrows")),
        named("nCols", var("ncols")),
        named("waitAtEnd", fp_lit(5000)),
        named("label", Expr::Lit(Value::Text("rectZZZ".to_owned()))),
    ];
    let main_def = FunctionDef {
        params: vec![("scanFreq".to_owned(), Some(Value::Num(10_000 * SCALE)))],
        body: vec![
            Stmt::Let(main_lets),
            Stmt::Call { name: "rect".to_owned(), args: rect_args },
        ],
    };
    let init: Vec<Stmt> = vec![Stmt::Let(vec![("SHZ".to_owned(), fp_lit(50000))])];
    let funcs: Vec<(String, FunctionDef)> = vec![
        ("drawLines".to_owned(), drawLines()),
        ("main".to_owned(), main_def),
    ];
    Program { funcs, init: Some(init) }
}

} // verus!
