//! The meaning of a scan program, as specification-level functions.
//!
//! `run_spec` and its pieces form a fuel-indexed interpreter over
//! mathematical state: they say, value by value, which command stream and
//! which error a program run yields.  The executable evaluator is proved
//! equal to these functions, so a run's entire output is pinned by its
//! contract.

use vstd::prelude::*;
use crate::ast::Arg;
use crate::ast::Expr;
use crate::ast::FunctionDef;
use crate::ast::Program;
use crate::ast::Stmt;
use crate::command::Command;
use crate::command::CommandKind;
use crate::engine::MAX_COUNT;
use crate::engine::ellipse_cmds;
use crate::engine::ellipse_xy;
use crate::engine::line_cmds;
use crate::engine::rect_cmds;
use crate::engine::rect_last_xy;
use crate::env::Env;
use crate::env::frame_lookup;
use crate::env::last_index_of;
use crate::engine::Engine;
use crate::fixed::SCALE;
use crate::fixed::div_trunc;
use crate::value::EngineError;
use crate::value::Value;
use crate::value::binop_spec;
use crate::value::is_math_fn;
use crate::value::math_apply_spec;
use crate::value::math_const_spec;
use crate::value::neg_spec;
use crate::value::truthy_spec;

verus! {

/// The values a `for` loop visits: from `a`, stepping by `s`, while strictly
/// on the start side of `b`.  A step toward `b` from outside never runs;
/// a zero step is rejected before this sequence is consulted.
pub open spec fn range_seq(a: int, b: int, s: int) -> Seq<int>
    decreases (if s > 0 && a < b {
        b - a
    } else if s < 0 && a > b {
        a - b
    } else {
        0
    }),
{
    if s > 0 && a < b {
        seq![a] + range_seq(a + s, b, s)
    } else if s < 0 && a > b {
        seq![a] + range_seq(a + s, b, s)
    } else {
        Seq::empty()
    }
}

/// A budget handed onward never grows: in a real run the callee's leftover
/// is below the caller's, so this cap is the identity there; it only makes
/// the recursion measure evident.
pub open spec fn cap_fuel(next: u64, cur: u64) -> u64 {
    if next < cur {
        next
    } else {
        0
    }
}

/// The environment after an assignment: the innermost binding of the name
/// is overwritten if one exists, and a fresh innermost binding is made
/// otherwise.
pub open spec fn env_assign(
    env: Seq<(String, Value)>,
    name: String,
    v: Value,
) -> Seq<(String, Value)> {
    if frame_lookup(env, name@) is Some {
        let j = last_index_of(env, name@);
        env.update(j, (env[j].0, v))
    } else {
        env.push((name, v))
    }
}

/// What a number-expecting conversion yields.
pub open spec fn num_spec(v: Value) -> Result<i64, EngineError> {
    match v {
        Value::Num(n) => Ok(n),
        _ => Err(EngineError::TypeError),
    }
}

/// What a count conversion yields.
pub open spec fn count_spec(v: Value) -> Result<i64, EngineError> {
    match v {
        Value::Num(n) => if n < 0 || n as int / SCALE as int > MAX_COUNT as int {
            Err(EngineError::InvalidGeometry)
        } else {
            Ok((n as int / SCALE as int) as i64)
        },
        _ => Err(EngineError::TypeError),
    }
}

/// What a wait-duration conversion yields.
pub open spec fn wait_spec(v: Value) -> Result<u64, EngineError> {
    match v {
        Value::Num(n) => if n < 0 {
            Err(EngineError::TypeError)
        } else {
            Ok((n as int / SCALE as int) as u64)
        },
        _ => Err(EngineError::TypeError),
    }
}

/// What a marker-identifier conversion yields.
pub open spec fn id_spec(v: Value) -> Result<i64, EngineError> {
    match v {
        Value::Num(n) => Ok(div_trunc(n as int, SCALE as int) as i64),
        _ => Err(EngineError::TypeError),
    }
}

/// What a label-argument conversion yields.
pub open spec fn label_spec(v: Value) -> Result<Option<String>, EngineError> {
    match v {
        Value::Text(s) => Ok(Some(s)),
        Value::Undef => Ok(None),
        _ => Err(EngineError::TypeError),
    }
}

/// The first unused argument carrying this name, searching from `j`.
pub open spec fn find_named_from(
    args: Seq<(Option<String>, Value)>,
    used: Seq<bool>,
    name: Seq<char>,
    j: int,
) -> Option<int>
    decreases args.len() - j,
{
    if j < 0 || j >= args.len() {
        None
    } else if !used[j] && (match args[j].0 {
        Some(n) => n@ == name,
        None => false,
    }) {
        Some(j)
    } else {
        find_named_from(args, used, name, j + 1)
    }
}

/// The first unused positional argument, searching from `j`.
pub open spec fn find_pos_from(
    args: Seq<(Option<String>, Value)>,
    used: Seq<bool>,
    j: int,
) -> Option<int>
    decreases args.len() - j,
{
    if j < 0 || j >= args.len() {
        None
    } else if !used[j] && args[j].0 is None {
        Some(j)
    } else {
        find_pos_from(args, used, j + 1)
    }
}

/// Whether any argument from `j` on went unused.
pub open spec fn any_unused_from(
    args: Seq<(Option<String>, Value)>,
    used: Seq<bool>,
    j: int,
) -> bool
    decreases args.len() - j,
{
    if j < 0 || j >= args.len() {
        false
    } else if !used[j] {
        true
    } else {
        any_unused_from(args, used, j + 1)
    }
}

/// Parameter binding from position `i` on: each parameter takes the
/// argument of its name first, the next positional argument otherwise, and
/// its declared default last; a parameter left without a value, or an
/// argument no parameter took, is a type error.
pub open spec fn bind_from(
    params: Seq<(Seq<char>, Option<Value>)>,
    args: Seq<(Option<String>, Value)>,
    used: Seq<bool>,
    out: Seq<Value>,
    i: int,
) -> Result<Seq<Value>, EngineError>
    decreases params.len() - i,
{
    if i < 0 || i >= params.len() {
        if any_unused_from(args, used, 0) {
            Err(EngineError::TypeError)
        } else {
            Ok(out)
        }
    } else {
        match find_named_from(args, used, params[i].0, 0) {
            Some(j) => bind_from(params, args, used.update(j, true), out.push(args[j].1), i + 1),
            None => match find_pos_from(args, used, 0) {
                Some(j) => bind_from(
                    params,
                    args,
                    used.update(j, true),
                    out.push(args[j].1),
                    i + 1,
                ),
                None => match params[i].1 {
                    Some(d) => bind_from(params, args, used, out.push(d), i + 1),
                    None => Err(EngineError::TypeError),
                },
            },
        }
    }
}

/// The values handed to a call's parameters.
pub open spec fn bind_spec(
    params: Seq<(Seq<char>, Option<Value>)>,
    args: Seq<(Option<String>, Value)>,
) -> Result<Seq<Value>, EngineError> {
    bind_from(params, args, Seq::new(args.len(), |k: int| false), Seq::empty(), 0)
}

/// Declared parameters reduced to their names' characters and defaults.
pub open spec fn param_views(params: Seq<(String, Option<Value>)>) -> Seq<
    (Seq<char>, Option<Value>),
> {
    params.map_values(|p: (String, Option<Value>)| (p.0@, p.1))
}

/// A fresh activation environment: each parameter bound to its value.
pub open spec fn params_env(
    params: Seq<(String, Option<Value>)>,
    bound: Seq<Value>,
) -> Seq<(String, Value)> {
    Seq::new(params.len(), |i: int| (params[i].0, bound[i]))
}

/// The first function of this name, if any.
pub open spec fn find_func_from(
    funcs: Seq<(String, FunctionDef)>,
    name: Seq<char>,
    j: int,
) -> Option<int>
    decreases funcs.len() - j,
{
    if j < 0 || j >= funcs.len() {
        None
    } else if funcs[j].0@ == name {
        Some(j)
    } else {
        find_func_from(funcs, name, j + 1)
    }
}

/// Resolve a call name against the user function table.
pub open spec fn find_func_spec(funcs: Seq<(String, FunctionDef)>, name: Seq<char>) -> Option<
    int,
> {
    find_func_from(funcs, name, 0)
}

/// What an expression evaluates to: the value, the environment after it,
/// and the leftover budget.
pub open spec fn spec_expr(
    globals: Seq<(String, Value)>,
    env: Seq<(String, Value)>,
    e: Expr,
    fuel: u64,
) -> Result<(Value, Seq<(String, Value)>, u64), EngineError>
    decreases fuel, 0int, 0int,
{
    if fuel == 0 {
        Err(EngineError::StepLimit)
    } else {
        let f0 = (fuel - 1) as u64;
        match e {
            Expr::Lit(v) => Ok((v, env, f0)),
            Expr::Var(name) => match frame_lookup(env, name@) {
                Some(v) => Ok((v, env, f0)),
                None => match frame_lookup(globals, name@) {
                    Some(v) => Ok((v, env, f0)),
                    None => match math_const_spec(name@) {
                        Some(v) => Ok((v, env, f0)),
                        None => Err(EngineError::NameError(name)),
                    },
                },
            },
            Expr::Neg(inner) => match spec_expr(globals, env, *inner, f0) {
                Ok((v, env1, f1)) => match neg_spec(v) {
                    Ok(nv) => Ok((nv, env1, f1)),
                    Err(er) => Err(er),
                },
                Err(er) => Err(er),
            },
            Expr::Bin(op, lhs, rhs) => match spec_expr(globals, env, *lhs, f0) {
                Ok((va, env1, f1)) => match spec_expr(globals, env1, *rhs, cap_fuel(f1, fuel)) {
                    Ok((vb, env2, f2)) => match binop_spec(op, va, vb) {
                        Ok(v) => Ok((v, env2, f2)),
                        Err(er) => Err(er),
                    },
                    Err(er) => Err(er),
                },
                Err(er) => Err(er),
            },
            Expr::Assign(name, rhs) => match spec_expr(globals, env, *rhs, f0) {
                Ok((v, env1, f1)) => Ok((v, env_assign(env1, name, v), f1)),
                Err(er) => Err(er),
            },
            Expr::MathCall(name, argv) => match spec_expr_list(globals, env, argv@, f0) {
                Ok((vals, env1, f1)) => if is_math_fn(name@) {
                    match math_apply_spec(name@, vals) {
                        Ok(v) => Ok((v, env1, f1)),
                        Err(er) => Err(er),
                    }
                } else {
                    Err(EngineError::UndefinedFunction(name))
                },
                Err(er) => Err(er),
            },
        }
    }
}

/// What a list of expressions evaluates to, left to right.
pub open spec fn spec_expr_list(
    globals: Seq<(String, Value)>,
    env: Seq<(String, Value)>,
    es: Seq<Expr>,
    fuel: u64,
) -> Result<(Seq<Value>, Seq<(String, Value)>, u64), EngineError>
    decreases fuel, 1int, es.len(),
{
    if es.len() == 0 {
        Ok((Seq::empty(), env, fuel))
    } else {
        match spec_expr(globals, env, es[0], fuel) {
            Ok((v, env1, f1)) => match spec_expr_list(globals, env1, es.drop_first(), cap_fuel(f1, fuel)) {
                Ok((vs, env2, f2)) => Ok((seq![v] + vs, env2, f2)),
                Err(er) => Err(er),
            },
            Err(er) => Err(er),
        }
    }
}

/// What a list of call arguments evaluates to, left to right, keeping each
/// argument's name.
pub open spec fn spec_arg_list(
    globals: Seq<(String, Value)>,
    env: Seq<(String, Value)>,
    args: Seq<Arg>,
    fuel: u64,
) -> Result<(Seq<(Option<String>, Value)>, Seq<(String, Value)>, u64), EngineError>
    decreases fuel, 1int, args.len(),
{
    if args.len() == 0 {
        Ok((Seq::empty(), env, fuel))
    } else {
        match spec_expr(globals, env, args[0].value, fuel) {
            Ok((v, env1, f1)) => match spec_arg_list(
                globals,
                env1,
                args.drop_first(),
                cap_fuel(f1, fuel),
            ) {
                Ok((vs, env2, f2)) => Ok((seq![(args[0].name, v)] + vs, env2, f2)),
                Err(er) => Err(er),
            },
            Err(er) => Err(er),
        }
    }
}

/// The mathematical state of a run: the activation's bindings, the cursor,
/// the window state and the stream so far.
pub struct RunState {
    pub env: Seq<(String, Value)>,
    pub cursor: Option<(i64, i64)>,
    pub measuring: bool,
    pub out: Seq<Command>,
}

/// What a builtin primitive does to the engine: which commands it appends,
/// how it moves the cursor and the window state, and exactly when it fails.
pub open spec fn spec_builtin(
    cursor: Option<(i64, i64)>,
    measuring: bool,
    out: Seq<Command>,
    label: Option<String>,
    name: String,
    vals: Seq<(Option<String>, Value)>,
) -> Result<(Option<(i64, i64)>, bool, Seq<Command>), EngineError> {
    if name@ == "moveTo"@ {
        match bind_spec(seq![("x"@, Option::<Value>::None), ("y"@, Option::<Value>::None)], vals) {
            Err(e) => Err(e),
            Ok(b) => match num_spec(b[0]) {
                Err(e) => Err(e),
                Ok(x) => match num_spec(b[1]) {
                    Err(e) => Err(e),
                    Ok(y) => Ok(
                        (
                            Some((x, y)),
                            measuring,
                            out.push((Command { kind: CommandKind::Move { x, y }, label })),
                        ),
                    ),
                },
            },
        }
    } else if name@ == "lineTo"@ {
        match bind_spec(
            seq![
                ("x"@, Option::<Value>::None),
                ("y"@, Option::<Value>::None),
                ("numPts"@, Option::<Value>::None),
            ],
            vals,
        ) {
            Err(e) => Err(e),
            Ok(b) => match num_spec(b[0]) {
                Err(e) => Err(e),
                Ok(x) => match num_spec(b[1]) {
                    Err(e) => Err(e),
                    Ok(y) => match count_spec(b[2]) {
                        Err(e) => Err(e),
                        Ok(n) => match cursor {
                            None => Err(EngineError::InvalidGeometry),
                            Some(c) => Ok(
                                (
                                    Some((x, y)),
                                    measuring,
                                    out + line_cmds(c.0, c.1, x, y, n as int, label),
                                ),
                            ),
                        },
                    },
                },
            },
        }
    } else if name@ == "line"@ {
        match bind_spec(
            seq![
                ("x1"@, Option::<Value>::None),
                ("y1"@, Option::<Value>::None),
                ("x2"@, Option::<Value>::None),
                ("y2"@, Option::<Value>::None),
                ("numPts"@, Option::<Value>::None),
            ],
            vals,
        ) {
            Err(e) => Err(e),
            Ok(b) => match num_spec(b[0]) {
                Err(e) => Err(e),
                Ok(x1) => match num_spec(b[1]) {
                    Err(e) => Err(e),
                    Ok(y1) => match num_spec(b[2]) {
                        Err(e) => Err(e),
                        Ok(x2) => match num_spec(b[3]) {
                            Err(e) => Err(e),
                            Ok(y2) => match count_spec(b[4]) {
                                Err(e) => Err(e),
                                Ok(n) => Ok(
                                    (
                                        Some((x2, y2)),
                                        measuring,
                                        out + line_cmds(x1, y1, x2, y2, n as int, label),
                                    ),
                                ),
                            },
                        },
                    },
                },
            },
        }
    } else if name@ == "rect"@ {
        match bind_spec(
            seq![
                ("x0"@, Option::<Value>::None),
                ("y0"@, Option::<Value>::None),
                ("x1"@, Option::<Value>::None),
                ("y1"@, Option::<Value>::None),
                ("nrows"@, Option::<Value>::None),
                ("nCols"@, Option::<Value>::None),
                ("interp"@, Option::Some(Value::Num(0))),
                ("label"@, Option::Some(Value::Undef)),
            ],
            vals,
        ) {
            Err(e) => Err(e),
            Ok(b) => match num_spec(b[0]) {
                Err(e) => Err(e),
                Ok(x0) => match num_spec(b[1]) {
                    Err(e) => Err(e),
                    Ok(y0) => match num_spec(b[2]) {
                        Err(e) => Err(e),
                        Ok(x1) => match num_spec(b[3]) {
                            Err(e) => Err(e),
                            Ok(y1) => match count_spec(b[4]) {
                                Err(e) => Err(e),
                                Ok(nr) => match count_spec(b[5]) {
                                    Err(e) => Err(e),
                                    Ok(nc) => match truthy_spec(b[6]) {
                                        Err(e) => Err(e),
                                        Ok(boustro) => match label_spec(b[7]) {
                                            Err(e) => Err(e),
                                            Ok(own) => if nr * nc > MAX_COUNT {
                                                Err(EngineError::InvalidGeometry)
                                            } else {
                                                let eff = if own is Some {
                                                    own
                                                } else {
                                                    label
                                                };
                                                Ok(
                                                    (
                                                        if nr > 0 && nc > 0 {
                                                            Some(
                                                                rect_last_xy(
                                                                    x0,
                                                                    y0,
                                                                    x1,
                                                                    y1,
                                                                    nr as int,
                                                                    nc as int,
                                                                    boustro,
                                                                ),
                                                            )
                                                        } else {
                                                            cursor
                                                        },
                                                        measuring,
                                                        out + rect_cmds(
                                                            x0,
                                                            y0,
                                                            x1,
                                                            y1,
                                                            nr as int,
                                                            nc as int,
                                                            boustro,
                                                            eff,
                                                        ),
                                                    ),
                                                )
                                            },
                                        },
                                    },
                                },
                            },
                        },
                    },
                },
            },
        }
    } else if name@ == "ellipse"@ {
        match bind_spec(
            seq![
                ("x0"@, Option::<Value>::None),
                ("y0"@, Option::<Value>::None),
                ("radX"@, Option::<Value>::None),
                ("radY"@, Option::<Value>::None),
                ("angle"@, Option::<Value>::None),
                ("nTurns"@, Option::<Value>::None),
                ("numPts"@, Option::<Value>::None),
                ("waitAtBegin"@, Option::Some(Value::Num(0))),
                ("label"@, Option::Some(Value::Undef)),
            ],
            vals,
        ) {
            Err(e) => Err(e),
            Ok(b) => match num_spec(b[0]) {
                Err(e) => Err(e),
                Ok(x0) => match num_spec(b[1]) {
                    Err(e) => Err(e),
                    Ok(y0) => match num_spec(b[2]) {
                        Err(e) => Err(e),
                        Ok(rx) => match num_spec(b[3]) {
                            Err(e) => Err(e),
                            Ok(ry) => match num_spec(b[4]) {
                                Err(e) => Err(e),
                                Ok(angle) => match num_spec(b[5]) {
                                    Err(e) => Err(e),
                                    Ok(nturns) => match count_spec(b[6]) {
                                        Err(e) => Err(e),
                                        Ok(npts) => match wait_spec(b[7]) {
                                            Err(e) => Err(e),
                                            Ok(wait) => match label_spec(b[8]) {
                                                Err(e) => Err(e),
                                                Ok(own) => {
                                                    let eff = if own is Some {
                                                        own
                                                    } else {
                                                        label
                                                    };
                                                    Ok(
                                                        (
                                                            if npts > 0 {
                                                                Some(
                                                                    ellipse_xy(
                                                                        x0,
                                                                        y0,
                                                                        rx,
                                                                        ry,
                                                                        angle,
                                                                        nturns,
                                                                        npts as int,
                                                                        npts as int - 1,
                                                                    ),
                                                                )
                                                            } else {
                                                                cursor
                                                            },
                                                            measuring,
                                                            out + (if wait > 0 {
                                                                seq![
                                                                    (Command {
                                                                        kind: CommandKind::Wait {
                                                                            usec: wait,
                                                                        },
                                                                        label: eff,
                                                                    }),
                                                                ]
                                                            } else {
                                                                Seq::<Command>::empty()
                                                            }) + ellipse_cmds(
                                                                x0,
                                                                y0,
                                                                rx,
                                                                ry,
                                                                angle,
                                                                nturns,
                                                                npts as int,
                                                                eff,
                                                            ),
                                                        ),
                                                    )
                                                },
                                            },
                                        },
                                    },
                                },
                            },
                        },
                    },
                },
            },
        }
    } else if name@ == "waitUsec"@ {
        match bind_spec(seq![("n"@, Option::<Value>::None)], vals) {
            Err(e) => Err(e),
            Ok(b) => match wait_spec(b[0]) {
                Err(e) => Err(e),
                Ok(n) => Ok(
                    (
                        cursor,
                        measuring,
                        out.push((Command { kind: CommandKind::Wait { usec: n }, label })),
                    ),
                ),
            },
        }
    } else if name@ == "startMeasure"@ {
        match bind_spec(Seq::empty(), vals) {
            Err(e) => Err(e),
            Ok(b) => if measuring {
                Err(EngineError::SequenceError)
            } else {
                Ok(
                    (
                        cursor,
                        true,
                        out.push((Command { kind: CommandKind::MeasureStart, label })),
                    ),
                )
            },
        }
    } else if name@ == "stopMeasure"@ {
        match bind_spec(Seq::empty(), vals) {
            Err(e) => Err(e),
            Ok(b) => if !measuring {
                Err(EngineError::SequenceError)
            } else {
                Ok(
                    (cursor, false, out.push((Command { kind: CommandKind::MeasureEnd, label }))),
                )
            },
        }
    } else if name@ == "setMarker"@ {
        match bind_spec(seq![("id"@, Option::<Value>::None)], vals) {
            Err(e) => Err(e),
            Ok(b) => match id_spec(b[0]) {
                Err(e) => Err(e),
                Ok(id) => Ok(
                    (
                        cursor,
                        measuring,
                        out.push((Command { kind: CommandKind::Marker { id }, label })),
                    ),
                ),
            },
        }
    } else if name@ == "waitTrigger"@ {
        match bind_spec(Seq::empty(), vals) {
            Err(e) => Err(e),
            Ok(b) => Ok(
                (cursor, measuring, out.push((Command { kind: CommandKind::Trigger, label }))),
            ),
        }
    } else {
        Err(EngineError::UndefinedFunction(name))
    }
}

/// What one statement does to the run state.
pub open spec fn spec_stmt(
    funcs: Seq<(String, FunctionDef)>,
    globals: Seq<(String, Value)>,
    st: RunState,
    label: Option<String>,
    stmt: Stmt,
    fuel: u64,
) -> Result<(RunState, u64), EngineError>
    decreases fuel, 2int, 0int,
{
    if fuel == 0 {
        Err(EngineError::StepLimit)
    } else {
        let f0 = (fuel - 1) as u64;
        match stmt {
            Stmt::Let(items) => match spec_let_items(globals, st.env, items@, f0) {
                Ok((env2, f)) => Ok(
                    (
                        RunState {
                            env: env2,
                            cursor: st.cursor,
                            measuring: st.measuring,
                            out: st.out,
                        },
                        f,
                    ),
                ),
                Err(er) => Err(er),
            },
            Stmt::ExprStmt(e) => match spec_expr(globals, st.env, e, f0) {
                Ok((v, env1, f1)) => Ok(
                    (
                        RunState {
                            env: env1,
                            cursor: st.cursor,
                            measuring: st.measuring,
                            out: st.out,
                        },
                        f1,
                    ),
                ),
                Err(er) => Err(er),
            },
            Stmt::For { var, start, end, step, body } => match spec_expr(
                globals,
                st.env,
                start,
                f0,
            ) {
                Err(er) => Err(er),
                Ok((sv, env1, f1)) => match spec_expr(globals, env1, end, cap_fuel(f1, fuel)) {
                    Err(er) => Err(er),
                    Ok((ev, env2, f2)) => {
                        let stepped = match step {
                            Some(se) => spec_expr(globals, env2, se, cap_fuel(f2, fuel)),
                            None => Ok((Value::Num(SCALE), env2, f2)),
                        };
                        match stepped {
                            Err(er) => Err(er),
                            Ok((tv, env3, f3)) => match num_spec(sv) {
                                Err(er) => Err(er),
                                Ok(a) => match num_spec(ev) {
                                    Err(er) => Err(er),
                                    Ok(b) => match num_spec(tv) {
                                        Err(er) => Err(er),
                                        Ok(s) => if s == 0 {
                                            Err(EngineError::InvalidRange)
                                        } else if range_seq(a as int, b as int, s as int).len()
                                            > MAX_COUNT {
                                            Err(EngineError::InvalidRange)
                                        } else {
                                            spec_for_iters(
                                                funcs,
                                                globals,
                                                var,
                                                body@,
                                                range_seq(a as int, b as int, s as int),
                                                RunState {
                                                    env: env3,
                                                    cursor: st.cursor,
                                                    measuring: st.measuring,
                                                    out: st.out,
                                                },
                                                label,
                                                cap_fuel(f3, fuel),
                                            )
                                        },
                                    },
                                },
                            },
                        }
                    },
                },
            },
            Stmt::While { cond, body } => spec_while(funcs, globals, cond, body@, st, label, f0),
            Stmt::Shape { label: lb, body } => {
                let lframe = st.env.len();
                match spec_block(funcs, globals, body@, st, Some(lb), f0) {
                    Err(er) => Err(er),
                    Ok((st2, f1)) => Ok(
                        (
                            RunState {
                                env: st2.env.take(lframe as int),
                                cursor: st2.cursor,
                                measuring: st2.measuring,
                                out: st2.out,
                            },
                            f1,
                        ),
                    ),
                }
            },
            Stmt::Call { name, args } => spec_call(funcs, globals, name, args@, st, label, f0),
        }
    }
}

/// What a `let` list does to the environment, left to right.
pub open spec fn spec_let_items(
    globals: Seq<(String, Value)>,
    env: Seq<(String, Value)>,
    items: Seq<(String, Expr)>,
    fuel: u64,
) -> Result<(Seq<(String, Value)>, u64), EngineError>
    decreases fuel, 3int, items.len(),
{
    if items.len() == 0 {
        Ok((env, fuel))
    } else {
        match spec_expr(globals, env, items[0].1, fuel) {
            Err(er) => Err(er),
            Ok((v, env1, f2)) => spec_let_items(
                globals,
                env1.push((items[0].0, v)),
                items.drop_first(),
                cap_fuel(f2, fuel),
            ),
        }
    }
}

/// What a statement list does to the run state, in order.
pub open spec fn spec_stmts(
    funcs: Seq<(String, FunctionDef)>,
    globals: Seq<(String, Value)>,
    stmts: Seq<Stmt>,
    st: RunState,
    label: Option<String>,
    fuel: u64,
) -> Result<(RunState, u64), EngineError>
    decreases fuel, 3int, stmts.len(),
{
    if stmts.len() == 0 {
        Ok((st, fuel))
    } else {
        match spec_stmt(funcs, globals, st, label, stmts[0], fuel) {
            Err(er) => Err(er),
            Ok((st2, f2)) => spec_stmts(
                funcs,
                globals,
                stmts.drop_first(),
                st2,
                label,
                cap_fuel(f2, fuel),
            ),
        }
    }
}

/// What a block does: one budget step, then its statements.
pub open spec fn spec_block(
    funcs: Seq<(String, FunctionDef)>,
    globals: Seq<(String, Value)>,
    stmts: Seq<Stmt>,
    st: RunState,
    label: Option<String>,
    fuel: u64,
) -> Result<(RunState, u64), EngineError>
    decreases fuel, 4int, 0int,
{
    if fuel == 0 {
        Err(EngineError::StepLimit)
    } else {
        spec_stmts(funcs, globals, stmts, st, label, (fuel - 1) as u64)
    }
}

/// What a `for` loop does: one fresh frame per visited value, the bound
/// variable innermost, the frame dropped after each iteration.
pub open spec fn spec_for_iters(
    funcs: Seq<(String, FunctionDef)>,
    globals: Seq<(String, Value)>,
    var: String,
    body: Seq<Stmt>,
    vals: Seq<int>,
    st: RunState,
    label: Option<String>,
    fuel: u64,
) -> Result<(RunState, u64), EngineError>
    decreases fuel, 5int, vals.len(),
{
    if vals.len() == 0 {
        Ok((st, fuel))
    } else {
        let lframe = st.env.len();
        let env1 = st.env.push((var, Value::Num(vals[0] as i64)));
        match spec_block(
            funcs,
            globals,
            body,
            RunState { env: env1, cursor: st.cursor, measuring: st.measuring, out: st.out },
            label,
            fuel,
        ) {
            Err(er) => Err(er),
            Ok((st2, f2)) => spec_for_iters(
                funcs,
                globals,
                var,
                body,
                vals.drop_first(),
                RunState {
                    env: st2.env.take(lframe as int),
                    cursor: st2.cursor,
                    measuring: st2.measuring,
                    out: st2.out,
                },
                label,
                cap_fuel(f2, fuel),
            ),
        }
    }
}

/// What a `while` loop does: re-evaluate the condition in the enclosing
/// frame, run the body while it is truthy.
pub open spec fn spec_while(
    funcs: Seq<(String, FunctionDef)>,
    globals: Seq<(String, Value)>,
    cond: Expr,
    body: Seq<Stmt>,
    st: RunState,
    label: Option<String>,
    fuel: u64,
) -> Result<(RunState, u64), EngineError>
    decreases fuel, 6int, 0int,
{
    match spec_expr(globals, st.env, cond, fuel) {
        Err(er) => Err(er),
        Ok((cv, env1, f1)) => {
            let st1 = RunState {
                env: env1,
                cursor: st.cursor,
                measuring: st.measuring,
                out: st.out,
            };
            match truthy_spec(cv) {
                Err(er) => Err(er),
                Ok(t) => if !t {
                    Ok((st1, f1))
                } else {
                    match spec_block(funcs, globals, body, st1, label, cap_fuel(f1, fuel)) {
                        Err(er) => Err(er),
                        Ok((st2, f2)) => spec_while(
                            funcs,
                            globals,
                            cond,
                            body,
                            st2,
                            label,
                            cap_fuel(f2, fuel),
                        ),
                    }
                },
            }
        },
    }
}

/// What a call statement does: arguments left to right, then the target,
/// user functions shadowing builtins; a user body runs in a fresh
/// activation seeing only its parameters and the globals.
pub open spec fn spec_call(
    funcs: Seq<(String, FunctionDef)>,
    globals: Seq<(String, Value)>,
    name: String,
    args: Seq<Arg>,
    st: RunState,
    label: Option<String>,
    fuel: u64,
) -> Result<(RunState, u64), EngineError>
    decreases fuel, 7int, 0int,
{
    if fuel == 0 {
        Err(EngineError::StepLimit)
    } else {
        let f0 = (fuel - 1) as u64;
        match spec_arg_list(globals, st.env, args, f0) {
            Err(er) => Err(er),
            Ok((vals, env1, f)) => match find_func_spec(funcs, name@) {
                Some(idx) => {
                    let fd = funcs[idx].1;
                    match bind_spec(param_views(fd.params@), vals) {
                        Err(er) => Err(er),
                        Ok(bound) => match spec_block(
                            funcs,
                            globals,
                            fd.body@,
                            RunState {
                                env: params_env(fd.params@, bound),
                                cursor: st.cursor,
                                measuring: st.measuring,
                                out: st.out,
                            },
                            label,
                            cap_fuel(f, fuel),
                        ) {
                            Err(er) => Err(er),
                            Ok((st2, f2)) => Ok(
                                (
                                    RunState {
                                        env: env1,
                                        cursor: st2.cursor,
                                        measuring: st2.measuring,
                                        out: st2.out,
                                    },
                                    f2,
                                ),
                            ),
                        },
                    }
                },
                None => match spec_builtin(st.cursor, st.measuring, st.out, label, name, vals) {
                    Err(er) => Err(er),
                    Ok(t) => Ok(
                        (RunState { env: env1, cursor: t.0, measuring: t.1, out: t.2 }, f),
                    ),
                },
            },
        }
    }
}

/// The mathematical state a concrete evaluator state denotes.
pub open spec fn st_of(env: Env, eng: Engine) -> RunState {
    RunState { env: env.bindings@, cursor: eng.cursor, measuring: eng.measuring, out: eng.out@ }
}

/// The state every run begins in.
pub open spec fn initial_state() -> RunState {
    RunState { env: Seq::empty(), cursor: None, measuring: false, out: Seq::empty() }
}

/// What the `init` block yields: the run state holding the globals, and the
/// leftover budget.
pub open spec fn init_result(prog: Program, fuel: u64) -> Result<(RunState, u64), EngineError> {
    match prog.init {
        Some(init) => spec_block(prog.funcs@, Seq::empty(), init@, initial_state(), None, fuel),
        None => Ok((initial_state(), fuel)),
    }
}

/// Caller overrides as named call arguments for `main`.
pub open spec fn override_args(overrides: Seq<(String, Value)>) -> Seq<(Option<String>, Value)> {
    overrides.map_values(|o: (String, Value)| (Some(o.0), o.1))
}

/// What a whole run yields when `main` exists: the exact command stream of
/// a successful run, or the exact error of a failed one.  The driver's
/// contract routes the missing-`main` case separately, since this function
/// cannot coin that error's name.
pub open spec fn run_spec(prog: Program, overrides: Seq<(String, Value)>, fuel: u64) -> Result<
    Seq<Command>,
    EngineError,
> {
    match init_result(prog, fuel) {
        Err(e) => Err(e),
        Ok((st1, f1)) => match find_func_spec(prog.funcs@, "main"@) {
            None => Err(EngineError::StepLimit),
            Some(idx) => {
                let fd = prog.funcs@[idx].1;
                match bind_spec(param_views(fd.params@), override_args(overrides)) {
                    Err(e) => Err(e),
                    Ok(bound) => match spec_block(
                        prog.funcs@,
                        st1.env,
                        fd.body@,
                        RunState {
                            env: params_env(fd.params@, bound),
                            cursor: st1.cursor,
                            measuring: st1.measuring,
                            out: st1.out,
                        },
                        None,
                        f1,
                    ) {
                        Err(e) => Err(e),
                        Ok((st2, f2)) => if st2.measuring {
                            Err(EngineError::UnclosedMeasurementWindow)
                        } else {
                            Ok(st2.out)
                        },
                    },
                }
            },
        },
    }
}

} // verus!
