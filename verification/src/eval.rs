//! The evaluator: statements, loops, calls, and the driver.  Each function
//! is proved equal to its counterpart in the specification-level
//! interpreter, so a run's entire command stream and error are pinned.

use vstd::prelude::*;
use crate::ast::Arg;
use crate::ast::Expr;
use crate::ast::Program;
use crate::ast::Stmt;
use crate::command::Command;
use crate::command::clone_label;
use crate::command::measure_balanced;
use crate::command::stream_extends;
use crate::engine::Engine;
use crate::engine::MAX_COUNT;
use crate::env::Env;
use crate::env::lookup_bindings;
use crate::fixed::SCALE;
use crate::fixed::div_trunc_i128;
use crate::semantics::RunState;
use crate::semantics::any_unused_from;
use crate::semantics::bind_from;
use crate::semantics::bind_spec;
use crate::semantics::cap_fuel;
use crate::semantics::env_assign;
use crate::semantics::find_func_from;
use crate::semantics::find_func_spec;
use crate::semantics::find_named_from;
use crate::semantics::find_pos_from;
use crate::semantics::init_result;
use crate::semantics::override_args;
use crate::semantics::param_views;
use crate::semantics::params_env;
use crate::semantics::range_seq;
use crate::semantics::run_spec;
use crate::semantics::spec_arg_list;
use crate::semantics::spec_block;
use crate::semantics::spec_builtin;
use crate::semantics::spec_call;
use crate::semantics::spec_expr;
use crate::semantics::spec_expr_list;
use crate::semantics::spec_for_iters;
use crate::semantics::spec_let_items;
use crate::semantics::spec_stmt;
use crate::semantics::spec_stmts;
use crate::semantics::spec_while;
use crate::semantics::st_of;
use crate::value::EngineError;
use crate::value::Value;
use crate::value::apply_binop;
use crate::value::apply_math;
use crate::value::apply_neg;
use crate::value::math_const;
use crate::value::str_eq;
use crate::value::str_is;
use crate::value::truthy;
use vstd::pervasive::VecAdditionalExecFns;

verus! {

/// A positive-step range visits exactly the values `a + k * s` that lie
/// strictly below `b`, in ascending order, and is empty when `a >= b`.
pub proof fn lemma_range_members(a: int, b: int, s: int)
    requires
        s > 0,
    ensures
        forall|k: int|
            0 <= k < range_seq(a, b, s).len() ==> #[trigger] range_seq(a, b, s)[k] == a + k * s,
        forall|k: int| 0 <= k < range_seq(a, b, s).len() ==> #[trigger] (a + k * s) < b,
        a >= b ==> range_seq(a, b, s).len() == 0,
        a < b ==> b <= a + range_seq(a, b, s).len() * s,
        a < b ==> range_seq(a, b, s).len() >= 1,
    decreases b - a,
{
    if a < b {
        let rest = range_seq(a + s, b, s);
        let whole = range_seq(a, b, s);
        assert(whole == seq![a] + rest);
        if a + s < b {
            lemma_range_members(a + s, b, s);
            assert forall|k: int| 0 <= k < whole.len() implies #[trigger] whole[k] == a + k * s by {
                if k == 0 {
                    assert(whole[0] == a);
                    assert(a + 0 * s == a) by (nonlinear_arith);
                } else {
                    assert(whole[k] == rest[k - 1]);
                    assert(rest[k - 1] == (a + s) + (k - 1) * s);
                    assert((a + s) + (k - 1) * s == a + k * s) by (nonlinear_arith);
                }
            }
            assert forall|k: int| 0 <= k < whole.len() implies #[trigger] (a + k * s) < b by {
                if k == 0 {
                    assert(a + 0 * s == a) by (nonlinear_arith);
                } else {
                    assert((a + s) + (k - 1) * s < b);
                    assert((a + s) + (k - 1) * s == a + k * s) by (nonlinear_arith);
                }
            }
            assert(b <= (a + s) + rest.len() * s);
            assert((a + s) + rest.len() * s == a + whole.len() * s) by (nonlinear_arith)
                requires
                    whole.len() == rest.len() + 1,
            ;
        } else {
            assert(rest =~= Seq::<int>::empty());
            assert(whole.len() == 1);
            assert(whole[0] == a);
            assert(a + 0 * s == a) by (nonlinear_arith);
            assert(a + 1 * s == a + s) by (nonlinear_arith);
        }
    }
}

/// A range whose step leads away from its end is simply empty: a
/// non-positive span with a positive step, or a non-negative span with a
/// negative step, iterates zero times rather than failing or diverging.
pub proof fn lemma_range_degenerate(a: int, b: int, s: int)
    ensures
        s > 0 && a >= b ==> range_seq(a, b, s).len() == 0,
        s < 0 && a <= b ==> range_seq(a, b, s).len() == 0,
{
}

/// Expand a `for` range into its visited values.  A zero step is an invalid
/// range, as is one longer than the engine's expansion bound.
pub fn expand_range(a: i64, b: i64, s: i64) -> (r: Result<Vec<i64>, EngineError>)
    ensures
        s == 0 ==> r == Err::<Vec<i64>, EngineError>(EngineError::InvalidRange),
        s != 0 && range_seq(a as int, b as int, s as int).len() > MAX_COUNT ==> r == Err::<
            Vec<i64>,
            EngineError,
        >(EngineError::InvalidRange),
        s != 0 && range_seq(a as int, b as int, s as int).len() <= MAX_COUNT ==> (r matches Ok(v)
            && v@.map_values(|x: i64| x as int) == range_seq(a as int, b as int, s as int)),
{
    if s == 0 {
        return Err(EngineError::InvalidRange);
    }
    let mut v: Vec<i64> = Vec::new();
    let mut i: i128 = a as i128;
    let ghost whole = range_seq(a as int, b as int, s as int);
    while (s > 0 && i < b as i128) || (s < 0 && i > b as i128)
        invariant
            s != 0,
            whole == range_seq(a as int, b as int, s as int),
            whole =~= v@.map_values(|x: i64| x as int) + range_seq(i as int, b as int, s as int),
            v@.len() <= MAX_COUNT,
            s > 0 ==> a as int <= i as int,
            s < 0 ==> i as int <= a as int,
            s > 0 && v@.len() > 0 ==> i as int <= b as int + s as int,
            s < 0 && v@.len() > 0 ==> b as int + s as int <= i as int,
        decreases range_seq(i as int, b as int, s as int).len(),
    {
        proof {
            assert(range_seq(i as int, b as int, s as int) == seq![i as int] + range_seq(
                i as int + s as int,
                b as int,
                s as int,
            ));
        }
        if v.len() >= MAX_COUNT as usize {
            proof {
                assert(whole.len() >= v@.len() + 1);
            }
            return Err(EngineError::InvalidRange);
        }
        let cur: i64 = i as i64;
        let ghost prev = v@;
        v.push(cur);
        proof {
            assert(v@.map_values(|x: i64| x as int) =~= prev.map_values(|x: i64| x as int).push(
                i as int,
            ));
        }
        i = i + s as i128;
    }
    proof {
        assert(range_seq(i as int, b as int, s as int) =~= Seq::<int>::empty());
        assert(v@.map_values(|x: i64| x as int) =~= whole);
    }
    Ok(v)
}

/// The number a value holds, or a type error.
pub fn as_num(v: &Value) -> (r: Result<i64, EngineError>)
    ensures
        r == crate::semantics::num_spec(*v),
{
    match v {
        Value::Num(n) => Ok(*n),
        _ => Err(EngineError::TypeError),
    }
}

/// A point or grid count: the whole part of a non-negative number, within
/// the expansion bound.  A non-number is a type error; a negative or
/// oversized count is invalid geometry.
pub fn as_count(v: &Value) -> (r: Result<i64, EngineError>)
    ensures
        r == crate::semantics::count_spec(*v),
{
    match v {
        Value::Num(n) => {
            if *n < 0 {
                Err(EngineError::InvalidGeometry)
            } else {
                let c = ((*n as u64) / (SCALE as u64)) as i64;
                if c > MAX_COUNT {
                    Err(EngineError::InvalidGeometry)
                } else {
                    Ok(c)
                }
            }
        },
        _ => Err(EngineError::TypeError),
    }
}

/// A wait duration in whole microseconds: the whole part of a non-negative
/// number.  A negative duration is a type error.
pub fn as_wait(v: &Value) -> (r: Result<u64, EngineError>)
    ensures
        r == crate::semantics::wait_spec(*v),
{
    match v {
        Value::Num(n) => {
            if *n < 0 {
                Err(EngineError::TypeError)
            } else {
                Ok((*n as u64) / (SCALE as u64))
            }
        },
        _ => Err(EngineError::TypeError),
    }
}

/// A marker identifier: the whole part of a number, toward zero.
pub fn as_id(v: &Value) -> (r: Result<i64, EngineError>)
    ensures
        r == crate::semantics::id_spec(*v),
{
    match v {
        Value::Num(n) => {
            let q = div_trunc_i128(*n as i128, SCALE as i128);
            Ok(q as i64)
        },
        _ => Err(EngineError::TypeError),
    }
}

/// A shape label argument: a string labels, an absent value leaves the
/// enclosing label in force, anything else is a type error.
pub fn as_label(v: &Value) -> (r: Result<Option<String>, EngineError>)
    ensures
        r == crate::semantics::label_spec(*v),
{
    match v {
        Value::Text(s) => Ok(Some(s.clone())),
        Value::Undef => Ok(None),
        _ => Err(EngineError::TypeError),
    }
}

/// A required parameter.
fn preq(n: &str) -> (r: ((String, Option<Value>)))
    ensures
        r.0@ == n@,
        r.1 is None,
{
    (n.to_owned(), None)
}

/// A parameter with a default value.
fn pdef(n: &str, v: Value) -> (r: ((String, Option<Value>)))
    ensures
        r.0@ == n@,
        r.1 == Some(v),
{
    (n.to_owned(), Some(v))
}

/// Find a user function by name; the first definition wins.
fn find_func(prog: &Program, name: &String) -> (r: Option<usize>)
    ensures
        r matches Some(i) ==> i < prog.funcs@.len() && find_func_spec(prog.funcs@, name@) == Some(
            i as int,
        ),
        r is None ==> find_func_spec(prog.funcs@, name@) is None,
{
    let mut i: usize = 0;
    while i < prog.funcs.len()
        invariant
            i <= prog.funcs@.len(),
            find_func_from(prog.funcs@, name@, 0) == find_func_from(prog.funcs@, name@, i as int),
        decreases prog.funcs@.len() - i,
    {
        if str_eq(&prog.funcs[i].0, name) {
            return Some(i);
        }
        i = i + 1;
    }
    None
}

/// Find the first unused argument carrying this name.
fn find_named(args: &Vec<(Option<String>, Value)>, used: &Vec<bool>, name: &String) -> (r: Option<
    usize,
>)
    requires
        used@.len() == args@.len(),
    ensures
        r matches Some(j) ==> j < args@.len() && find_named_from(args@, used@, name@, 0) == Some(
            j as int,
        ),
        r is None ==> find_named_from(args@, used@, name@, 0) is None,
{
    let mut j: usize = 0;
    while j < args.len()
        invariant
            used@.len() == args@.len(),
            j <= args@.len(),
            find_named_from(args@, used@, name@, 0) == find_named_from(
                args@,
                used@,
                name@,
                j as int,
            ),
        decreases args@.len() - j,
    {
        if !used[j] {
            match &args[j].0 {
                Some(n) => {
                    if str_eq(n, name) {
                        return Some(j);
                    }
                },
                None => {},
            }
        }
        j = j + 1;
    }
    None
}

/// Find the first unused positional argument.
fn find_positional(args: &Vec<(Option<String>, Value)>, used: &Vec<bool>) -> (r: Option<usize>)
    requires
        used@.len() == args@.len(),
    ensures
        r matches Some(j) ==> j < args@.len() && find_pos_from(args@, used@, 0) == Some(j as int),
        r is None ==> find_pos_from(args@, used@, 0) is None,
{
    let mut j: usize = 0;
    while j < args.len()
        invariant
            used@.len() == args@.len(),
            j <= args@.len(),
            find_pos_from(args@, used@, 0) == find_pos_from(args@, used@, j as int),
        decreases args@.len() - j,
    {
        if !used[j] {
            match &args[j].0 {
                None => {
                    return Some(j);
                },
                Some(_) => {},
            }
        }
        j = j + 1;
    }
    None
}

/// Match evaluated call arguments against declared parameters: each
/// parameter takes the argument of its name first, the next positional
/// argument otherwise, and its declared default last.  A parameter left
/// without a value, or an argument no parameter takes, is a type error.
pub fn bind_params(
    params: &Vec<(String, Option<Value>)>,
    args: &Vec<(Option<String>, Value)>,
) -> (r: Result<Vec<Value>, EngineError>)
    ensures
        r matches Ok(v) ==> v@.len() == params@.len() && bind_spec(param_views(params@), args@)
            == Ok::<Seq<Value>, EngineError>(v@),
        r matches Err(e) ==> e == EngineError::TypeError && bind_spec(param_views(params@), args@)
            == Err::<Seq<Value>, EngineError>(EngineError::TypeError),
{
    let ghost pviews = param_views(params@);
    let mut used: Vec<bool> = Vec::new();
    let mut t: usize = 0;
    while t < args.len()
        invariant
            used@.len() == t,
            t <= args@.len(),
            forall|k: int| 0 <= k < t ==> used@[k] == false,
        decreases args@.len() - t,
    {
        used.push(false);
        t = t + 1;
    }
    proof {
        assert(used@ =~= Seq::new(args@.len(), |k: int| false));
    }
    let mut out: Vec<Value> = Vec::new();
    let mut i: usize = 0;
    while i < params.len()
        invariant
            out@.len() == i,
            i <= params@.len(),
            used@.len() == args@.len(),
            pviews == param_views(params@),
            bind_spec(pviews, args@) == bind_from(pviews, args@, used@, out@, i as int),
        decreases params@.len() - i,
    {
        proof {
            assert(pviews[i as int] == (params@[i as int].0@, params@[i as int].1));
        }
        match find_named(args, &used, &params[i].0) {
            Some(j) => {
                out.push(args[j].1.clone());
                used.set(j, true);
            },
            None => {
                match find_positional(args, &used) {
                    Some(j) => {
                        out.push(args[j].1.clone());
                        used.set(j, true);
                    },
                    None => {
                        match &params[i].1 {
                            Some(d) => {
                                out.push(d.clone());
                            },
                            None => {
                                return Err(EngineError::TypeError);
                            },
                        }
                    },
                }
            },
        }
        i = i + 1;
    }
    let mut j: usize = 0;
    while j < args.len()
        invariant
            used@.len() == args@.len(),
            j <= args@.len(),
            out@.len() == params@.len(),
            pviews == param_views(params@),
            bind_spec(pviews, args@) == bind_from(pviews, args@, used@, out@, params@.len() as int),
            any_unused_from(args@, used@, 0) == any_unused_from(args@, used@, j as int),
        decreases args@.len() - j,
    {
        if !used[j] {
            return Err(EngineError::TypeError);
        }
        j = j + 1;
    }
    Ok(out)
}

/// Evaluate an expression.  Expressions never emit commands; an assignment
/// expression mutates the environment and yields the assigned value, binding
/// the name in the innermost frame when nothing shadows it.  The result and
/// the new environment are exactly those of the specification interpreter.
pub fn eval_expr(globals: &Vec<(String, Value)>, env: &mut Env, e: &Expr, fuel: u64) -> (r: Result<
    (Value, u64),
    EngineError,
>)
    requires
        old(env).wf(),
    ensures
        final(env).wf(),
        final(env).starts@ == old(env).starts@,
        r matches Ok(p) ==> p.1 < fuel && spec_expr(globals@, old(env).bindings@, *e, fuel) == Ok::<
            (Value, Seq<(String, Value)>, u64),
            EngineError,
        >((p.0, final(env).bindings@, p.1)),
        r matches Err(er) ==> spec_expr(globals@, old(env).bindings@, *e, fuel) == Err::<
            (Value, Seq<(String, Value)>, u64),
            EngineError,
        >(er),
    decreases fuel, 0int, 0int,
{
    if fuel == 0 {
        return Err(EngineError::StepLimit);
    }
    let f0 = fuel - 1;
    match e {
        Expr::Lit(v) => Ok((v.clone(), f0)),
        Expr::Var(name) => {
            match env.lookup(name) {
                Some(v) => Ok((v, f0)),
                None => match lookup_bindings(globals, name) {
                    Some(v) => Ok((v, f0)),
                    None => match math_const(name) {
                        Some(v) => Ok((v, f0)),
                        None => Err(EngineError::NameError(name.clone())),
                    },
                },
            }
        },
        Expr::Neg(inner) => {
            let (v, f1) = eval_expr(globals, env, inner, f0)?;
            let nv = apply_neg(&v)?;
            Ok((nv, f1))
        },
        Expr::Bin(op, lhs, rhs) => {
            let (va, f1) = eval_expr(globals, env, lhs, f0)?;
            proof {
                assert(cap_fuel(f1, fuel) == f1);
            }
            let (vb, f2) = eval_expr(globals, env, rhs, f1)?;
            let v = apply_binop(*op, &va, &vb)?;
            Ok((v, f2))
        },
        Expr::Assign(name, rhs) => {
            let (v, f1) = eval_expr(globals, env, rhs, f0)?;
            let ghost mid = env.bindings@;
            let hit = env.assign(name, v.clone());
            if !hit {
                env.bind(name.clone(), v.clone());
            }
            proof {
                assert(env.bindings@ == env_assign(mid, *name, v));
            }
            Ok((v, f1))
        },
        Expr::MathCall(name, argv) => {
            proof {
                assert(argv@.skip(0) =~= argv@);
            }
            let (vals, f) = eval_expr_list(globals, env, argv, 0, f0)?;
            if str_is(name, "sin") || str_is(name, "cos") || str_is(name, "sqrt") || str_is(
                name,
                "hypot",
            ) {
                let v = apply_math(name, &vals)?;
                Ok((v, f))
            } else {
                Err(EngineError::UndefinedFunction(name.clone()))
            }
        },
    }
}

/// Evaluate the expressions from position `i` on, left to right.
fn eval_expr_list(
    globals: &Vec<(String, Value)>,
    env: &mut Env,
    argv: &Vec<Expr>,
    i: usize,
    fuel: u64,
) -> (r: Result<(Vec<Value>, u64), EngineError>)
    requires
        old(env).wf(),
        i <= argv@.len(),
    ensures
        final(env).wf(),
        final(env).starts@ == old(env).starts@,
        r matches Ok(p) ==> p.1 <= fuel && spec_expr_list(
            globals@,
            old(env).bindings@,
            argv@.skip(i as int),
            fuel,
        ) == Ok::<(Seq<Value>, Seq<(String, Value)>, u64), EngineError>(
            (p.0@, final(env).bindings@, p.1),
        ),
        r matches Err(er) ==> spec_expr_list(
            globals@,
            old(env).bindings@,
            argv@.skip(i as int),
            fuel,
        ) == Err::<(Seq<Value>, Seq<(String, Value)>, u64), EngineError>(er),
    decreases fuel, 1int, argv@.len() - i,
{
    if i >= argv.len() {
        proof {
            assert(argv@.skip(i as int) =~= Seq::<Expr>::empty());
        }
        return Ok((Vec::new(), fuel));
    }
    proof {
        assert(argv@.skip(i as int)[0] == argv@[i as int]);
        assert(argv@.skip(i as int).drop_first() =~= argv@.skip(i as int + 1));
    }
    let (v, f1) = eval_expr(globals, env, &argv[i], fuel)?;
    proof {
        assert(cap_fuel(f1, fuel) == f1);
    }
    let (mut rest, f2) = eval_expr_list(globals, env, argv, i + 1, f1)?;
    let ghost prev = rest@;
    rest.insert(0, v);
    proof {
        assert(rest@ =~= seq![v] + prev);
    }
    Ok((rest, f2))
}

/// Evaluate the call arguments from position `i` on, keeping each
/// argument's name.
fn eval_arg_list(
    globals: &Vec<(String, Value)>,
    env: &mut Env,
    args: &Vec<Arg>,
    i: usize,
    fuel: u64,
) -> (r: Result<(Vec<(Option<String>, Value)>, u64), EngineError>)
    requires
        old(env).wf(),
        i <= args@.len(),
    ensures
        final(env).wf(),
        final(env).starts@ == old(env).starts@,
        r matches Ok(p) ==> p.1 <= fuel && spec_arg_list(
            globals@,
            old(env).bindings@,
            args@.skip(i as int),
            fuel,
        ) == Ok::<(Seq<(Option<String>, Value)>, Seq<(String, Value)>, u64), EngineError>(
            (p.0@, final(env).bindings@, p.1),
        ),
        r matches Err(er) ==> spec_arg_list(
            globals@,
            old(env).bindings@,
            args@.skip(i as int),
            fuel,
        ) == Err::<(Seq<(Option<String>, Value)>, Seq<(String, Value)>, u64), EngineError>(er),
    decreases fuel, 1int, args@.len() - i,
{
    if i >= args.len() {
        proof {
            assert(args@.skip(i as int) =~= Seq::<Arg>::empty());
        }
        return Ok((Vec::new(), fuel));
    }
    proof {
        assert(args@.skip(i as int)[0] == args@[i as int]);
        assert(args@.skip(i as int).drop_first() =~= args@.skip(i as int + 1));
    }
    let (v, f1) = eval_expr(globals, env, &args[i].value, fuel)?;
    proof {
        assert(cap_fuel(f1, fuel) == f1);
    }
    let (mut rest, f2) = eval_arg_list(globals, env, args, i + 1, f1)?;
    let ghost prev = rest@;
    rest.insert(0, (clone_label(&args[i].name), v));
    proof {
        assert(rest@ =~= seq![(args@[i as int].name, v)] + prev);
    }
    Ok((rest, f2))
}

/// Evaluate the statements of a block in order.
pub fn eval_block(
    prog: &Program,
    globals: &Vec<(String, Value)>,
    env: &mut Env,
    eng: &mut Engine,
    label: &Option<String>,
    stmts: &Vec<Stmt>,
    fuel: u64,
) -> (r: Result<u64, EngineError>)
    requires
        old(env).wf(),
        old(eng).inv(),
    ensures
        final(env).wf(),
        final(eng).inv(),
        stream_extends(final(eng).out@, old(eng).out@),
        r matches Ok(f) ==> f < fuel && final(env).starts@ == old(env).starts@ && spec_block(
            prog.funcs@,
            globals@,
            stmts@,
            st_of(*old(env), *old(eng)),
            *label,
            fuel,
        ) == Ok::<(RunState, u64), EngineError>((st_of(*final(env), *final(eng)), f)),
        r matches Err(e) ==> spec_block(
            prog.funcs@,
            globals@,
            stmts@,
            st_of(*old(env), *old(eng)),
            *label,
            fuel,
        ) == Err::<(RunState, u64), EngineError>(e),
    decreases fuel, 4int, 0int,
{
    if fuel == 0 {
        return Err(EngineError::StepLimit);
    }
    proof {
        assert(stmts@.skip(0) =~= stmts@);
    }
    let f = eval_stmts(prog, globals, env, eng, label, stmts, 0, fuel - 1)?;
    Ok(f)
}

/// Evaluate the statements from position `i` on.
fn eval_stmts(
    prog: &Program,
    globals: &Vec<(String, Value)>,
    env: &mut Env,
    eng: &mut Engine,
    label: &Option<String>,
    stmts: &Vec<Stmt>,
    i: usize,
    fuel: u64,
) -> (r: Result<u64, EngineError>)
    requires
        old(env).wf(),
        old(eng).inv(),
        i <= stmts@.len(),
    ensures
        final(env).wf(),
        final(eng).inv(),
        stream_extends(final(eng).out@, old(eng).out@),
        r matches Ok(f) ==> f <= fuel && final(env).starts@ == old(env).starts@ && spec_stmts(
            prog.funcs@,
            globals@,
            stmts@.skip(i as int),
            st_of(*old(env), *old(eng)),
            *label,
            fuel,
        ) == Ok::<(RunState, u64), EngineError>((st_of(*final(env), *final(eng)), f)),
        r matches Err(e) ==> spec_stmts(
            prog.funcs@,
            globals@,
            stmts@.skip(i as int),
            st_of(*old(env), *old(eng)),
            *label,
            fuel,
        ) == Err::<(RunState, u64), EngineError>(e),
    decreases fuel, 3int, stmts@.len() - i,
{
    if i >= stmts.len() {
        proof {
            assert(stmts@.skip(i as int) =~= Seq::<Stmt>::empty());
        }
        return Ok(fuel);
    }
    proof {
        assert(stmts@.skip(i as int)[0] == stmts@[i as int]);
        assert(stmts@.skip(i as int).drop_first() =~= stmts@.skip(i as int + 1));
    }
    let f2 = eval_stmt(prog, globals, env, eng, label, &stmts[i], fuel)?;
    proof {
        assert(cap_fuel(f2, fuel) == f2);
    }
    let f3 = eval_stmts(prog, globals, env, eng, label, stmts, i + 1, f2)?;
    Ok(f3)
}

/// Evaluate the `let` items from position `i` on, binding left to right.
fn eval_let_items(
    globals: &Vec<(String, Value)>,
    env: &mut Env,
    items: &Vec<(String, Expr)>,
    i: usize,
    fuel: u64,
) -> (r: Result<u64, EngineError>)
    requires
        old(env).wf(),
        i <= items@.len(),
    ensures
        final(env).wf(),
        final(env).starts@ == old(env).starts@,
        r matches Ok(f) ==> f <= fuel && spec_let_items(
            globals@,
            old(env).bindings@,
            items@.skip(i as int),
            fuel,
        ) == Ok::<(Seq<(String, Value)>, u64), EngineError>((final(env).bindings@, f)),
        r matches Err(e) ==> spec_let_items(
            globals@,
            old(env).bindings@,
            items@.skip(i as int),
            fuel,
        ) == Err::<(Seq<(String, Value)>, u64), EngineError>(e),
    decreases fuel, 3int, items@.len() - i,
{
    if i >= items.len() {
        proof {
            assert(items@.skip(i as int) =~= Seq::<(String, Expr)>::empty());
        }
        return Ok(fuel);
    }
    proof {
        assert(items@.skip(i as int)[0] == items@[i as int]);
        assert(items@.skip(i as int).drop_first() =~= items@.skip(i as int + 1));
    }
    let (v, f2) = eval_expr(globals, env, &items[i].1, fuel)?;
    env.bind(items[i].0.clone(), v);
    proof {
        assert(cap_fuel(f2, fuel) == f2);
    }
    let f3 = eval_let_items(globals, env, items, i + 1, f2)?;
    Ok(f3)
}

/// Run the loop body once per remaining visited value, each iteration in a
/// fresh frame holding the bound variable.
fn eval_for_iters(
    prog: &Program,
    globals: &Vec<(String, Value)>,
    env: &mut Env,
    eng: &mut Engine,
    label: &Option<String>,
    var: &String,
    body: &Vec<Stmt>,
    vals: &Vec<i64>,
    k: usize,
    fuel: u64,
) -> (r: Result<u64, EngineError>)
    requires
        old(env).wf(),
        old(eng).inv(),
        k <= vals@.len(),
    ensures
        final(env).wf(),
        final(eng).inv(),
        stream_extends(final(eng).out@, old(eng).out@),
        r matches Ok(f) ==> f <= fuel && final(env).starts@ == old(env).starts@ && spec_for_iters(
            prog.funcs@,
            globals@,
            *var,
            body@,
            vals@.map_values(|x: i64| x as int).skip(k as int),
            st_of(*old(env), *old(eng)),
            *label,
            fuel,
        ) == Ok::<(RunState, u64), EngineError>((st_of(*final(env), *final(eng)), f)),
        r matches Err(e) ==> spec_for_iters(
            prog.funcs@,
            globals@,
            *var,
            body@,
            vals@.map_values(|x: i64| x as int).skip(k as int),
            st_of(*old(env), *old(eng)),
            *label,
            fuel,
        ) == Err::<(RunState, u64), EngineError>(e),
    decreases fuel, 5int, vals@.len() - k,
{
    let ghost vints = vals@.map_values(|x: i64| x as int);
    if k >= vals.len() {
        proof {
            assert(vints.skip(k as int) =~= Seq::<int>::empty());
        }
        return Ok(fuel);
    }
    let ghost st0 = st_of(*old(env), *old(eng));
    proof {
        assert(vints.skip(k as int)[0] == vints[k as int]);
        assert(vints.skip(k as int).drop_first() =~= vints.skip(k as int + 1));
        assert(vints[k as int] as i64 == vals@[k as int]);
    }
    let lframe = env.bindings.len();
    env.push_frame();
    env.bind(var.clone(), Value::Num(vals[k]));
    proof {
        assert(st_of(*env, *eng) == (RunState {
            env: st0.env.push((*var, Value::Num(vints.skip(k as int)[0] as i64))),
            cursor: st0.cursor,
            measuring: st0.measuring,
            out: st0.out,
        }));
    }
    let f2 = eval_block(prog, globals, env, eng, label, body, fuel)?;
    let ghost stb = st_of(*env, *eng);
    env.pop_frame();
    proof {
        assert(env.starts@ =~= old(env).starts@);
        assert(lframe as int == st0.env.len() as int);
        assert(env.bindings@ == stb.env.take(st0.env.len() as int));
        assert(st_of(*env, *eng) == (RunState {
            env: stb.env.take(st0.env.len() as int),
            cursor: stb.cursor,
            measuring: stb.measuring,
            out: stb.out,
        }));
        assert(cap_fuel(f2, fuel) == f2);
    }
    let f3 = eval_for_iters(prog, globals, env, eng, label, var, body, vals, k + 1, f2)?;
    Ok(f3)
}

/// Run a `while` loop: condition in the enclosing frame, body while truthy.
fn eval_while(
    prog: &Program,
    globals: &Vec<(String, Value)>,
    env: &mut Env,
    eng: &mut Engine,
    label: &Option<String>,
    cond: &Expr,
    body: &Vec<Stmt>,
    fuel: u64,
) -> (r: Result<u64, EngineError>)
    requires
        old(env).wf(),
        old(eng).inv(),
    ensures
        final(env).wf(),
        final(eng).inv(),
        stream_extends(final(eng).out@, old(eng).out@),
        r matches Ok(f) ==> f < fuel && final(env).starts@ == old(env).starts@ && spec_while(
            prog.funcs@,
            globals@,
            *cond,
            body@,
            st_of(*old(env), *old(eng)),
            *label,
            fuel,
        ) == Ok::<(RunState, u64), EngineError>((st_of(*final(env), *final(eng)), f)),
        r matches Err(e) ==> spec_while(
            prog.funcs@,
            globals@,
            *cond,
            body@,
            st_of(*old(env), *old(eng)),
            *label,
            fuel,
        ) == Err::<(RunState, u64), EngineError>(e),
    decreases fuel, 6int, 0int,
{
    let (cv, f1) = eval_expr(globals, env, cond, fuel)?;
    let t = truthy(&cv)?;
    if !t {
        return Ok(f1);
    }
    proof {
        assert(cap_fuel(f1, fuel) == f1);
    }
    let f2 = eval_block(prog, globals, env, eng, label, body, f1)?;
    proof {
        assert(cap_fuel(f2, fuel) == f2);
    }
    let f3 = eval_while(prog, globals, env, eng, label, cond, body, f2)?;
    Ok(f3)
}

/// Evaluate one statement.
#[verifier::rlimit(100)]
pub fn eval_stmt(
    prog: &Program,
    globals: &Vec<(String, Value)>,
    env: &mut Env,
    eng: &mut Engine,
    label: &Option<String>,
    st: &Stmt,
    fuel: u64,
) -> (r: Result<u64, EngineError>)
    requires
        old(env).wf(),
        old(eng).inv(),
    ensures
        final(env).wf(),
        final(eng).inv(),
        stream_extends(final(eng).out@, old(eng).out@),
        r matches Ok(f) ==> f < fuel && final(env).starts@ == old(env).starts@ && spec_stmt(
            prog.funcs@,
            globals@,
            st_of(*old(env), *old(eng)),
            *label,
            *st,
            fuel,
        ) == Ok::<(RunState, u64), EngineError>((st_of(*final(env), *final(eng)), f)),
        r matches Err(e) ==> spec_stmt(
            prog.funcs@,
            globals@,
            st_of(*old(env), *old(eng)),
            *label,
            *st,
            fuel,
        ) == Err::<(RunState, u64), EngineError>(e),
    decreases fuel, 2int, 0int,
{
    if fuel == 0 {
        return Err(EngineError::StepLimit);
    }
    let f0 = fuel - 1;
    match st {
        Stmt::Let(items) => {
            proof {
                assert(items@.skip(0) =~= items@);
            }
            let f = eval_let_items(globals, env, items, 0, f0)?;
            Ok(f)
        },
        Stmt::ExprStmt(e) => {
            let (_, f1) = eval_expr(globals, env, e, f0)?;
            Ok(f1)
        },
        Stmt::For { var, start, end, step, body } => {
            let (sv, f1) = eval_expr(globals, env, start, f0)?;
            proof {
                assert(cap_fuel(f1, fuel) == f1);
            }
            let (ev, f2) = eval_expr(globals, env, end, f1)?;
            proof {
                assert(cap_fuel(f2, fuel) == f2);
            }
            let (tv, f3) = match step {
                Some(se) => eval_expr(globals, env, se, f2)?,
                None => (Value::Num(SCALE), f2),
            };
            let a = as_num(&sv)?;
            let b = as_num(&ev)?;
            let s = as_num(&tv)?;
            let vals = expand_range(a, b, s)?;
            proof {
                assert(cap_fuel(f3, fuel) == f3);
                assert(vals@.map_values(|x: i64| x as int).skip(0) =~= range_seq(
                    a as int,
                    b as int,
                    s as int,
                ));
            }
            let f = eval_for_iters(prog, globals, env, eng, label, var, body, &vals, 0, f3)?;
            Ok(f)
        },
        Stmt::While { cond, body } => {
            let f = eval_while(prog, globals, env, eng, label, cond, body, f0)?;
            Ok(f)
        },
        Stmt::Shape { label: lb, body } => {
            let ghost st0 = st_of(*env, *eng);
            let lframe = env.bindings.len();
            env.push_frame();
            let new_label: Option<String> = Some(lb.clone());
            let f1 = eval_block(prog, globals, env, eng, &new_label, body, f0)?;
            let ghost stb = st_of(*env, *eng);
            env.pop_frame();
            proof {
                assert(env.starts@ =~= old(env).starts@);
                assert(lframe as int == st0.env.len() as int);
                assert(env.bindings@ == stb.env.take(st0.env.len() as int));
                assert(st_of(*env, *eng) == (RunState {
                    env: stb.env.take(st0.env.len() as int),
                    cursor: stb.cursor,
                    measuring: stb.measuring,
                    out: stb.out,
                }));
            }
            Ok(f1)
        },
        Stmt::Call { name, args } => {
            let f1 = eval_call(prog, globals, env, eng, label, name, args, f0)?;
            Ok(f1)
        },
    }
}

/// Evaluate a call statement: arguments left to right, then the target,
/// user functions shadowing builtins.  A user function body runs in a fresh
/// activation that sees only its parameters and the globals.
pub fn eval_call(
    prog: &Program,
    globals: &Vec<(String, Value)>,
    env: &mut Env,
    eng: &mut Engine,
    label: &Option<String>,
    name: &String,
    args: &Vec<Arg>,
    fuel: u64,
) -> (r: Result<u64, EngineError>)
    requires
        old(env).wf(),
        old(eng).inv(),
    ensures
        final(env).wf(),
        final(eng).inv(),
        stream_extends(final(eng).out@, old(eng).out@),
        r matches Ok(f) ==> f < fuel && final(env).starts@ == old(env).starts@ && spec_call(
            prog.funcs@,
            globals@,
            *name,
            args@,
            st_of(*old(env), *old(eng)),
            *label,
            fuel,
        ) == Ok::<(RunState, u64), EngineError>((st_of(*final(env), *final(eng)), f)),
        r matches Err(e) ==> spec_call(
            prog.funcs@,
            globals@,
            *name,
            args@,
            st_of(*old(env), *old(eng)),
            *label,
            fuel,
        ) == Err::<(RunState, u64), EngineError>(e),
    decreases fuel, 7int, 0int,
{
    if fuel == 0 {
        return Err(EngineError::StepLimit);
    }
    let f0 = fuel - 1;
    proof {
        assert(args@.skip(0) =~= args@);
    }
    let (vals, f) = eval_arg_list(globals, env, args, 0, f0)?;
    match find_func(prog, name) {
        Some(idx) => {
            let fd = &prog.funcs[idx].1;
            let bound = bind_params(&fd.params, &vals)?;
            let mut cenv = Env::new_activation();
            let mut j: usize = 0;
            while j < fd.params.len()
                invariant
                    cenv.wf(),
                    cenv.starts@.len() == 1,
                    bound@.len() == fd.params@.len(),
                    j <= fd.params@.len(),
                    cenv.bindings@ =~= params_env(fd.params@, bound@).take(j as int),
                decreases fd.params@.len() - j,
            {
                cenv.bind(fd.params[j].0.clone(), bound[j].clone());
                proof {
                    assert(params_env(fd.params@, bound@).take(j as int + 1) =~= params_env(
                        fd.params@,
                        bound@,
                    ).take(j as int).push((fd.params@[j as int].0, bound@[j as int])));
                }
                j = j + 1;
            }
            proof {
                assert(cenv.bindings@ =~= params_env(fd.params@, bound@));
                assert(cap_fuel(f, fuel) == f);
            }
            let f2 = eval_block(prog, globals, &mut cenv, eng, label, &fd.body, f)?;
            Ok(f2)
        },
        None => {
            dispatch_builtin(eng, label, name, &vals)?;
            Ok(f)
        },
    }
}

/// Check that a raster grid stays within the expansion bound.
fn check_grid(nr: i64, nc: i64) -> (r: Result<(), EngineError>)
    requires
        0 <= nr <= MAX_COUNT,
        0 <= nc <= MAX_COUNT,
    ensures
        r matches Ok(u) ==> nr * nc <= MAX_COUNT,
        r is Err ==> r == Err::<(), EngineError>(EngineError::InvalidGeometry) && nr * nc
            > MAX_COUNT,
{
    if nr == 0 || nc == 0 {
        proof {
            assert(nr * nc == 0) by (nonlinear_arith)
                requires
                    nr == 0 || nc == 0,
            ;
        }
        return Ok(());
    }
    let q = (MAX_COUNT as u64) / (nr as u64);
    proof {
        vstd::arithmetic::div_mod::lemma_fundamental_div_mod(MAX_COUNT as int, nr as int);
    }
    if nc as u64 <= q {
        proof {
            assert(nr * nc <= MAX_COUNT) by (nonlinear_arith)
                requires
                    nc as int <= q as int,
                    MAX_COUNT as int == nr as int * (q as int) + MAX_COUNT as int % (nr as int),
                    MAX_COUNT as int % (nr as int) >= 0,
                    nr > 0,
            ;
        }
        Ok(())
    } else {
        proof {
            assert(nr * nc > MAX_COUNT) by (nonlinear_arith)
                requires
                    nc as int >= q as int + 1,
                    MAX_COUNT as int == nr as int * (q as int) + MAX_COUNT as int % (nr as int),
                    MAX_COUNT as int % (nr as int) < nr as int,
                    nr > 0,
            ;
        }
        Err(EngineError::InvalidGeometry)
    }
}

/// Resolve the label a geometry call tags its commands with: its own label
/// argument if one was given, the enclosing shape label otherwise.
fn effective_label(own: Option<String>, enclosing: &Option<String>) -> (r: Option<String>)
    ensures
        own is Some ==> r == own,
        own is None ==> r == *enclosing,
{
    match own {
        Some(s) => Some(s),
        None => clone_label(enclosing),
    }
}

/// Dispatch a builtin primitive call on its evaluated arguments: the
/// commands appended, the cursor and window state, and the error of a
/// failed call are exactly those of `spec_builtin`.
#[verifier::rlimit(100)]
pub fn dispatch_builtin(
    eng: &mut Engine,
    label: &Option<String>,
    name: &String,
    vals: &Vec<(Option<String>, Value)>,
) -> (r: Result<(), EngineError>)
    requires
        old(eng).inv(),
    ensures
        final(eng).inv(),
        stream_extends(final(eng).out@, old(eng).out@),
        r matches Ok(u) ==> spec_builtin(
            old(eng).cursor,
            old(eng).measuring,
            old(eng).out@,
            *label,
            *name,
            vals@,
        ) == Ok::<(Option<(i64, i64)>, bool, Seq<Command>), EngineError>(
            (final(eng).cursor, final(eng).measuring, final(eng).out@),
        ),
        r matches Err(e) ==> spec_builtin(
            old(eng).cursor,
            old(eng).measuring,
            old(eng).out@,
            *label,
            *name,
            vals@,
        ) == Err::<(Option<(i64, i64)>, bool, Seq<Command>), EngineError>(e),
{
    if str_is(name, "moveTo") {
        let ps = vec![preq("x"), preq("y")];
        proof {
            assert(param_views(ps@) =~= seq![
                ("x"@, Option::<Value>::None),
                ("y"@, Option::<Value>::None),
            ]);
        }
        let b = bind_params(&ps, vals)?;
        let x = as_num(&b[0])?;
        let y = as_num(&b[1])?;
        eng.move_to(x, y, label);
        Ok(())
    } else if str_is(name, "lineTo") {
        let ps = vec![preq("x"), preq("y"), preq("numPts")];
        proof {
            assert(param_views(ps@) =~= seq![
                ("x"@, Option::<Value>::None),
                ("y"@, Option::<Value>::None),
                ("numPts"@, Option::<Value>::None),
            ]);
        }
        let b = bind_params(&ps, vals)?;
        let x = as_num(&b[0])?;
        let y = as_num(&b[1])?;
        let n = as_count(&b[2])?;
        eng.line_to(x, y, n, label)?;
        Ok(())
    } else if str_is(name, "line") {
        let ps = vec![preq("x1"), preq("y1"), preq("x2"), preq("y2"), preq("numPts")];
        proof {
            assert(param_views(ps@) =~= seq![
                ("x1"@, Option::<Value>::None),
                ("y1"@, Option::<Value>::None),
                ("x2"@, Option::<Value>::None),
                ("y2"@, Option::<Value>::None),
                ("numPts"@, Option::<Value>::None),
            ]);
        }
        let b = bind_params(&ps, vals)?;
        let x1 = as_num(&b[0])?;
        let y1 = as_num(&b[1])?;
        let x2 = as_num(&b[2])?;
        let y2 = as_num(&b[3])?;
        let n = as_count(&b[4])?;
        eng.line(x1, y1, x2, y2, n, label);
        Ok(())
    } else if str_is(name, "rect") {
        let ps = vec![
            preq("x0"),
            preq("y0"),
            preq("x1"),
            preq("y1"),
            preq("nrows"),
            preq("nCols"),
            pdef("interp", Value::Num(0)),
            pdef("label", Value::Undef),
        ];
        proof {
            assert(param_views(ps@) =~= seq![
                ("x0"@, Option::<Value>::None),
                ("y0"@, Option::<Value>::None),
                ("x1"@, Option::<Value>::None),
                ("y1"@, Option::<Value>::None),
                ("nrows"@, Option::<Value>::None),
                ("nCols"@, Option::<Value>::None),
                ("interp"@, Option::Some(Value::Num(0))),
                ("label"@, Option::Some(Value::Undef)),
            ]);
        }
        let b = bind_params(&ps, vals)?;
        let x0 = as_num(&b[0])?;
        let y0 = as_num(&b[1])?;
        let x1 = as_num(&b[2])?;
        let y1 = as_num(&b[3])?;
        let nr = as_count(&b[4])?;
        let nc = as_count(&b[5])?;
        let boustro = truthy(&b[6])?;
        let own = as_label(&b[7])?;
        check_grid(nr, nc)?;
        let eff = effective_label(own, label);
        let count = eng.rect(x0, y0, x1, y1, nr, nc, boustro, &eff);
        proof {
            assert(count == 0 <==> nr == 0 || nc == 0) by (nonlinear_arith)
                requires
                    count == nr * nc,
                    nr >= 0,
                    nc >= 0,
            ;
        }
        Ok(())
    } else if str_is(name, "ellipse") {
        let ps = vec![
            preq("x0"),
            preq("y0"),
            preq("radX"),
            preq("radY"),
            preq("angle"),
            preq("nTurns"),
            preq("numPts"),
            pdef("waitAtBegin", Value::Num(0)),
            pdef("label", Value::Undef),
        ];
        proof {
            assert(param_views(ps@) =~= seq![
                ("x0"@, Option::<Value>::None),
                ("y0"@, Option::<Value>::None),
                ("radX"@, Option::<Value>::None),
                ("radY"@, Option::<Value>::None),
                ("angle"@, Option::<Value>::None),
                ("nTurns"@, Option::<Value>::None),
                ("numPts"@, Option::<Value>::None),
                ("waitAtBegin"@, Option::Some(Value::Num(0))),
                ("label"@, Option::Some(Value::Undef)),
            ]);
        }
        let b = bind_params(&ps, vals)?;
        let x0 = as_num(&b[0])?;
        let y0 = as_num(&b[1])?;
        let rx = as_num(&b[2])?;
        let ry = as_num(&b[3])?;
        let angle = as_num(&b[4])?;
        let nturns = as_num(&b[5])?;
        let npts = as_count(&b[6])?;
        let wait = as_wait(&b[7])?;
        let own = as_label(&b[8])?;
        let eff = effective_label(own, label);
        eng.ellipse(x0, y0, rx, ry, angle, nturns, npts, wait, &eff);
        Ok(())
    } else if str_is(name, "waitUsec") {
        let ps = vec![preq("n")];
        proof {
            assert(param_views(ps@) =~= seq![("n"@, Option::<Value>::None)]);
        }
        let b = bind_params(&ps, vals)?;
        let n = as_wait(&b[0])?;
        eng.wait_usec(n, label);
        Ok(())
    } else if str_is(name, "startMeasure") {
        let ps: Vec<(String, Option<Value>)> = Vec::new();
        proof {
            assert(param_views(ps@) =~= Seq::<(Seq<char>, Option<Value>)>::empty());
        }
        bind_params(&ps, vals)?;
        eng.start_measure(label)?;
        Ok(())
    } else if str_is(name, "stopMeasure") {
        let ps: Vec<(String, Option<Value>)> = Vec::new();
        proof {
            assert(param_views(ps@) =~= Seq::<(Seq<char>, Option<Value>)>::empty());
        }
        bind_params(&ps, vals)?;
        eng.stop_measure(label)?;
        Ok(())
    } else if str_is(name, "setMarker") {
        let ps = vec![preq("id")];
        proof {
            assert(param_views(ps@) =~= seq![("id"@, Option::<Value>::None)]);
        }
        let b = bind_params(&ps, vals)?;
        let id = as_id(&b[0])?;
        eng.set_marker(id, label);
        Ok(())
    } else if str_is(name, "waitTrigger") {
        let ps: Vec<(String, Option<Value>)> = Vec::new();
        proof {
            assert(param_views(ps@) =~= Seq::<(Seq<char>, Option<Value>)>::empty());
        }
        bind_params(&ps, vals)?;
        eng.wait_trigger(label);
        Ok(())
    } else {
        Err(EngineError::UndefinedFunction(name.clone()))
    }
}

/// Run a whole program: the `init` block once, establishing the globals,
/// then `main` under the caller's parameter overrides.  A successful run
/// returns exactly the stream `run_spec` gives, well bracketed; a failed
/// run returns exactly its error and no stream at all.
#[verifier::rlimit(100)]
pub fn run_program(prog: &Program, overrides: &Vec<(String, Value)>, fuel: u64) -> (r: Result<
    Vec<Command>,
    EngineError,
>)
    ensures
        r matches Ok(cmds) ==> measure_balanced(cmds@) && crate::command::count_starts(cmds@)
            == crate::command::count_ends(cmds@),
        init_result(*prog, fuel) is Ok && find_func_spec(prog.funcs@, "main"@) is None ==> (
        r matches Err(e) && e matches EngineError::UndefinedFunction(n) && n@ == "main"@),
        !(init_result(*prog, fuel) is Ok && find_func_spec(prog.funcs@, "main"@) is None) ==> {
            &&& (r matches Ok(cmds) ==> run_spec(*prog, overrides@, fuel) == Ok::<
                Seq<Command>,
                EngineError,
            >(cmds@))
            &&& (r matches Err(e) ==> run_spec(*prog, overrides@, fuel) == Err::<
                Seq<Command>,
                EngineError,
            >(e))
        },
{
    let mut eng = Engine::new();
    let mut genv = Env::new_activation();
    let mut f = fuel;
    let empty_globals: Vec<(String, Value)> = Vec::new();
    let no_label: Option<String> = None;
    proof {
        assert(genv.bindings@ =~= Seq::<(String, Value)>::empty());
        assert(eng.out@ =~= Seq::<Command>::empty());
        assert(empty_globals@ =~= Seq::<(String, Value)>::empty());
        assert(st_of(genv, eng) == crate::semantics::initial_state());
    }
    match &prog.init {
        Some(init) => {
            f = eval_block(prog, &empty_globals, &mut genv, &mut eng, &no_label, init, f)?;
        },
        None => {},
    }
    let ghost st1 = st_of(genv, eng);
    proof {
        assert(init_result(*prog, fuel) == Ok::<(RunState, u64), EngineError>((st1, f)));
    }
    let globals = genv.bindings;
    let main_name: String = "main".to_owned();
    let idx = match find_func(prog, &main_name) {
        Some(i) => i,
        None => {
            return Err(EngineError::UndefinedFunction(main_name));
        },
    };
    let fd = &prog.funcs[idx].1;
    let mut args: Vec<(Option<String>, Value)> = Vec::new();
    let mut i: usize = 0;
    while i < overrides.len()
        invariant
            i <= overrides@.len(),
            args@ =~= override_args(overrides@).take(i as int),
        decreases overrides@.len() - i,
    {
        args.push((Some(overrides[i].0.clone()), overrides[i].1.clone()));
        proof {
            assert(override_args(overrides@).take(i as int + 1) =~= override_args(
                overrides@,
            ).take(i as int).push((Some(overrides@[i as int].0), overrides@[i as int].1)));
        }
        i = i + 1;
    }
    proof {
        assert(args@ =~= override_args(overrides@));
    }
    let bound = bind_params(&fd.params, &args)?;
    let mut cenv = Env::new_activation();
    let mut j: usize = 0;
    while j < fd.params.len()
        invariant
            cenv.wf(),
            bound@.len() == fd.params@.len(),
            j <= fd.params@.len(),
            cenv.bindings@ =~= params_env(fd.params@, bound@).take(j as int),
        decreases fd.params@.len() - j,
    {
        cenv.bind(fd.params[j].0.clone(), bound[j].clone());
        proof {
            assert(params_env(fd.params@, bound@).take(j as int + 1) =~= params_env(
                fd.params@,
                bound@,
            ).take(j as int).push((fd.params@[j as int].0, bound@[j as int])));
        }
        j = j + 1;
    }
    proof {
        assert(cenv.bindings@ =~= params_env(fd.params@, bound@));
    }
    eval_block(prog, &globals, &mut cenv, &mut eng, &no_label, &fd.body, f)?;
    if eng.measuring {
        return Err(EngineError::UnclosedMeasurementWindow);
    }
    proof {
        crate::command::lemma_measure_pairing(eng.out@);
    }
    Ok(eng.out)
}

} // verus!
