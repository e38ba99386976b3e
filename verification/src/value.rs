//! Script values and the operators over them.

use vstd::prelude::*;
use crate::fixed::SCALE;
use crate::fixed::PI_FP;
use crate::fixed::E_FP;
use crate::fixed::TWO_PI_FP;
use crate::fixed::clamp64;
use crate::fixed::fp_add;
use crate::fixed::fp_sub;
use crate::fixed::fp_mul;
use crate::fixed::fp_div;
use crate::fixed::fp_mul_spec;
use crate::fixed::fp_div_spec;
use crate::fixed::sat_narrow;
use crate::fixed::turn_sin;
use crate::fixed::turn_cos;
use crate::fixed::turn_sin_fp;
use crate::fixed::turn_cos_fp;
use crate::fixed::is_isqrt;
use crate::fixed::isqrt_spec;
use crate::fixed::lemma_isqrt_is;
use crate::fixed::isqrt_u128;

verus! {

/// The failure taxonomy of the engine.  Every failure aborts the run; no
/// partial command stream is handed out.
#[derive(Debug, Clone, PartialEq)]
pub enum EngineError {
    /// An unbound identifier was referenced.
    NameError(String),
    /// An operator or builtin was given a value of the wrong kind, the wrong
    /// number of arguments, or a value outside its stated domain.
    TypeError,
    /// A call target resolved neither to a user function nor to a builtin.
    UndefinedFunction(String),
    /// An illegal measurement-window transition.
    SequenceError,
    /// The run ended while a measurement window was still open.
    UnclosedMeasurementWindow,
    /// A loop range with a zero step, or one too long to expand.
    InvalidRange,
    /// A negative or oversized point or grid count, or a motion call that
    /// interpolates from a cursor no `moveTo` has placed yet.
    InvalidGeometry,
    /// The evaluation step budget handed to the driver ran out.
    StepLimit,
}

/// A script value: a fixed-point number, a string, or nothing.
#[derive(Debug, PartialEq)]
pub enum Value {
    Num(i64),
    Text(String),
    Undef,
}

impl Clone for Value {
    /// Clones are exact copies.
    fn clone(&self) -> (res: Self)
        ensures
            res == *self,
    {
        match self {
            Value::Num(n) => Value::Num(*n),
            Value::Text(s) => Value::Text(s.clone()),
            Value::Undef => Value::Undef,
        }
    }
}

/// A binary operator of the expression language.  Comparisons return the
/// fixed-point numbers one and zero.
#[derive(Debug, Clone, Copy, PartialEq, Eq, Structural)]
pub enum BinOp {
    Add,
    Sub,
    Mul,
    Div,
    Lt,
    Le,
    Gt,
    Ge,
    CmpEq,
    CmpNe,
}

/// Fixed-point encoding of a boolean comparison result.
pub open spec fn bool_fp(b: bool) -> Value {
    if b {
        Value::Num(SCALE as int as i64)
    } else {
        Value::Num(0)
    }
}

/// What a binary operator yields.  Arithmetic and ordering are defined on
/// numbers alone; equality is also defined between two strings.  Every other
/// combination of operand kinds is a type error.
pub open spec fn binop_spec(op: BinOp, a: Value, b: Value) -> Result<Value, EngineError> {
    match (a, b) {
        (Value::Num(x), Value::Num(y)) => Ok(
            match op {
                BinOp::Add => Value::Num(clamp64(x + y) as i64),
                BinOp::Sub => Value::Num(clamp64(x - y) as i64),
                BinOp::Mul => Value::Num(fp_mul_spec(x as int, y as int) as i64),
                BinOp::Div => Value::Num(fp_div_spec(x as int, y as int) as i64),
                BinOp::Lt => bool_fp(x < y),
                BinOp::Le => bool_fp(x <= y),
                BinOp::Gt => bool_fp(x > y),
                BinOp::Ge => bool_fp(x >= y),
                BinOp::CmpEq => bool_fp(x == y),
                BinOp::CmpNe => bool_fp(x != y),
            },
        ),
        (Value::Text(x), Value::Text(y)) => match op {
            BinOp::CmpEq => Ok(bool_fp(x@ == y@)),
            BinOp::CmpNe => Ok(bool_fp(x@ != y@)),
            _ => Err(EngineError::TypeError),
        },
        _ => Err(EngineError::TypeError),
    }
}

/// Apply a binary operator.
pub fn apply_binop(op: BinOp, a: &Value, b: &Value) -> (r: Result<Value, EngineError>)
    ensures
        r == binop_spec(op, *a, *b),
{
    match (a, b) {
        (Value::Num(x), Value::Num(y)) => Ok(
            match op {
                BinOp::Add => Value::Num(fp_add(*x, *y)),
                BinOp::Sub => Value::Num(fp_sub(*x, *y)),
                BinOp::Mul => Value::Num(fp_mul(*x, *y)),
                BinOp::Div => Value::Num(fp_div(*x, *y)),
                BinOp::Lt => Value::Num(if *x < *y { SCALE } else { 0 }),
                BinOp::Le => Value::Num(if *x <= *y { SCALE } else { 0 }),
                BinOp::Gt => Value::Num(if *x > *y { SCALE } else { 0 }),
                BinOp::Ge => Value::Num(if *x >= *y { SCALE } else { 0 }),
                BinOp::CmpEq => Value::Num(if *x == *y { SCALE } else { 0 }),
                BinOp::CmpNe => Value::Num(if *x != *y { SCALE } else { 0 }),
            },
        ),
        (Value::Text(x), Value::Text(y)) => match op {
            BinOp::CmpEq => Ok(Value::Num(if *x == *y { SCALE } else { 0 })),
            BinOp::CmpNe => Ok(Value::Num(if *x == *y { 0 } else { SCALE })),
            _ => Err(EngineError::TypeError),
        },
        _ => Err(EngineError::TypeError),
    }
}

/// What numeric negation yields: defined on numbers alone.
pub open spec fn neg_spec(a: Value) -> Result<Value, EngineError> {
    match a {
        Value::Num(x) => Ok(Value::Num(clamp64(-(x as int)) as i64)),
        _ => Err(EngineError::TypeError),
    }
}

/// Negate a value.
pub fn apply_neg(a: &Value) -> (r: Result<Value, EngineError>)
    ensures
        r == neg_spec(*a),
{
    match a {
        Value::Num(x) => Ok(Value::Num(sat_narrow(-(*x as i128)))),
        _ => Err(EngineError::TypeError),
    }
}

/// A condition is truthy exactly when it is a non-zero number; a non-numeric
/// condition is a type error.
pub open spec fn truthy_spec(a: Value) -> Result<bool, EngineError> {
    match a {
        Value::Num(x) => Ok(x != 0),
        _ => Err(EngineError::TypeError),
    }
}

/// Decide a condition.
pub fn truthy(a: &Value) -> (r: Result<bool, EngineError>)
    ensures
        r == truthy_spec(*a),
{
    match a {
        Value::Num(x) => Ok(*x != 0),
        _ => Err(EngineError::TypeError),
    }
}

/// Compare two strings.
pub fn str_eq(a: &String, b: &String) -> (r: bool)
    ensures
        r == (a@ == b@),
{
    *a == *b
}

/// Compare a string against a literal.
pub fn str_is(s: &String, lit: &str) -> (b: bool)
    ensures
        b == (s@ == lit@),
{
    let owned: String = lit.to_owned();
    *s == owned
}

/// The value of a named mathematical constant, if the name is one.
pub open spec fn math_const_spec(name: Seq<char>) -> Option<Value> {
    if name == "M_PI"@ {
        Some(Value::Num(PI_FP as int as i64))
    } else if name == "M_E"@ {
        Some(Value::Num(E_FP as int as i64))
    } else {
        None
    }
}

/// Look up a mathematical constant by name.
pub fn math_const(name: &String) -> (r: Option<Value>)
    ensures
        r == math_const_spec(name@),
{
    if str_is(name, "M_PI") {
        Some(Value::Num(PI_FP))
    } else if str_is(name, "M_E") {
        Some(Value::Num(E_FP))
    } else {
        None
    }
}

/// Whether a name is one of the mathematical library functions.
pub open spec fn is_math_fn(name: Seq<char>) -> bool {
    ||| name == "sin"@
    ||| name == "cos"@
    ||| name == "sqrt"@
    ||| name == "hypot"@
}

/// What `sin` yields on its evaluated arguments.
pub open spec fn sin_spec(args: Seq<Value>) -> Result<Value, EngineError> {
    if args.len() != 1 {
        Err(EngineError::TypeError)
    } else {
        match args[0] {
            Value::Num(x) => Ok(Value::Num(turn_sin(x as int, TWO_PI_FP as int) as i64)),
            _ => Err(EngineError::TypeError),
        }
    }
}

/// What `cos` yields on its evaluated arguments.
pub open spec fn cos_spec(args: Seq<Value>) -> Result<Value, EngineError> {
    if args.len() != 1 {
        Err(EngineError::TypeError)
    } else {
        match args[0] {
            Value::Num(x) => Ok(Value::Num(turn_cos(x as int, TWO_PI_FP as int) as i64)),
            _ => Err(EngineError::TypeError),
        }
    }
}

/// What `sqrt` yields on its evaluated arguments: the integer square root
/// of the scaled radicand, exact on perfect squares; a negative radicand is
/// a type error.
pub open spec fn sqrt_spec(args: Seq<Value>) -> Result<Value, EngineError> {
    if args.len() != 1 {
        Err(EngineError::TypeError)
    } else {
        match args[0] {
            Value::Num(x) => if x < 0 {
                Err(EngineError::TypeError)
            } else {
                Ok(Value::Num(isqrt_spec(x as int * SCALE as int) as i64))
            },
            _ => Err(EngineError::TypeError),
        }
    }
}

/// What `hypot` yields on its evaluated arguments: the integer square root
/// of the sum of squares, saturated at the range end.
pub open spec fn hypot_spec(args: Seq<Value>) -> Result<Value, EngineError> {
    if args.len() != 2 {
        Err(EngineError::TypeError)
    } else {
        match (args[0], args[1]) {
            (Value::Num(x), Value::Num(y)) => {
                let q = isqrt_spec(x as int * x as int + y as int * y as int);
                Ok(Value::Num(if q > i64::MAX as int {
                    i64::MAX
                } else {
                    q as i64
                }))
            },
            _ => Err(EngineError::TypeError),
        }
    }
}

/// What a mathematical library function yields, by name.
pub open spec fn math_apply_spec(name: Seq<char>, args: Seq<Value>) -> Result<Value, EngineError> {
    if name == "sin"@ {
        sin_spec(args)
    } else if name == "cos"@ {
        cos_spec(args)
    } else if name == "sqrt"@ {
        sqrt_spec(args)
    } else {
        hypot_spec(args)
    }
}

/// Apply a mathematical library function to its evaluated arguments.
///
/// `sin` and `cos` take one fixed-point radian argument and yield the
/// engine's fixed-point sine and cosine: the angle as a fraction of a full
/// turn of `TWO_PI_FP`, folded onto a quadrant polynomial.  `sqrt` of a
/// non-negative number and `hypot` of two numbers yield the integer square
/// root of the scaled radicand, so both are exact on perfect squares.  A
/// wrong argument count, a non-numeric argument, or a negative radicand for
/// `sqrt` is a type error.
pub fn apply_math(name: &String, args: &Vec<Value>) -> (r: Result<Value, EngineError>)
    requires
        is_math_fn(name@),
    ensures
        name@ == "sin"@ ==> r == sin_spec(args@),
        name@ != "sin"@ && name@ == "cos"@ ==> r == cos_spec(args@),
        name@ != "sin"@ && name@ != "cos"@ && name@ == "sqrt"@ ==> r == sqrt_spec(args@),
        name@ != "sin"@ && name@ != "cos"@ && name@ != "sqrt"@ && name@ == "hypot"@ ==> r
            == hypot_spec(args@),
{
    if str_is(name, "sin") {
        if args.len() != 1 {
            return Err(EngineError::TypeError);
        }
        match &args[0] {
            Value::Num(x) => Ok(Value::Num(turn_sin_fp(*x as i128, TWO_PI_FP as i128))),
            _ => Err(EngineError::TypeError),
        }
    } else if str_is(name, "cos") {
        if args.len() != 1 {
            return Err(EngineError::TypeError);
        }
        match &args[0] {
            Value::Num(x) => Ok(Value::Num(turn_cos_fp(*x as i128, TWO_PI_FP as i128))),
            _ => Err(EngineError::TypeError),
        }
    } else if str_is(name, "sqrt") {
        if args.len() != 1 {
            return Err(EngineError::TypeError);
        }
        match &args[0] {
            Value::Num(x) => {
                if *x < 0 {
                    return Err(EngineError::TypeError);
                }
                let n = (*x as u128) * (SCALE as u128);
                let q = isqrt_u128(n);
                proof {
                    assert((q as int) < 0x1_0000_0000_0000) by (nonlinear_arith)
                        requires
                            0 <= q as int,
                            (q as int) * (q as int) <= 0x8000_0000_0000_0000 * 0x10_0000,
                    ;
                    lemma_isqrt_is(n as int, q as int);
                }
                Ok(Value::Num(q as i64))
            },
            _ => Err(EngineError::TypeError),
        }
    } else {
        if args.len() != 2 {
            return Err(EngineError::TypeError);
        }
        match (&args[0], &args[1]) {
            (Value::Num(x), Value::Num(y)) => {
                proof {
                    assert(0 <= (x as int) * (x as int)
                        <= 0x4000_0000_0000_0000_0000_0000_0000_0000 && 0 <= (y as int) * (
                    y as int) <= 0x4000_0000_0000_0000_0000_0000_0000_0000) by (nonlinear_arith)
                        requires
                            -0x8000_0000_0000_0000 <= x as int <= 0x7fff_ffff_ffff_ffff,
                            -0x8000_0000_0000_0000 <= y as int <= 0x7fff_ffff_ffff_ffff,
                    ;
                }
                let xi = *x as i128;
                let yi = *y as i128;
                let n = (xi * xi) as u128 + (yi * yi) as u128;
                let q = isqrt_u128(n);
                proof {
                    lemma_isqrt_is(n as int, q as int);
                }
                if q > i64::MAX as u128 {
                    proof {
                        assert((i64::MAX as int) * (i64::MAX as int) <= (q as int) * (q as int))
                            by (nonlinear_arith)
                            requires
                                i64::MAX as int <= q as int,
                                0 <= q as int,
                        ;
                    }
                    Ok(Value::Num(i64::MAX))
                } else {
                    Ok(Value::Num(q as i64))
                }
            },
            _ => Err(EngineError::TypeError),
        }
    }
}

} // verus!
