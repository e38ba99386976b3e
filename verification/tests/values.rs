use scan_engine::fixed::SCALE;
use scan_engine::value::{apply_binop, apply_math, math_const, BinOp, EngineError, Value};

fn fp(x: i64) -> i64 {
    x * SCALE
}

fn n(x: i64) -> Value {
    Value::Num(x)
}

fn binop(op: BinOp, a: i64, b: i64) -> i64 {
    match apply_binop(op, &n(a), &n(b)).unwrap() {
        Value::Num(v) => v,
        _ => panic!("expected a number"),
    }
}

#[test]
fn fixed_point_arithmetic_is_exact_on_small_values() {
    assert_eq!(binop(BinOp::Add, fp(2), fp(3)), fp(5));
    assert_eq!(binop(BinOp::Sub, fp(2), fp(3)), fp(-1));
    assert_eq!(binop(BinOp::Mul, 2_500_000, 2_000_000), 5_000_000);
    assert_eq!(binop(BinOp::Div, fp(7), fp(2)), 3_500_000);
}

#[test]
fn division_by_zero_saturates_instead_of_failing() {
    assert_eq!(binop(BinOp::Div, fp(1), 0), i64::MAX);
    assert_eq!(binop(BinOp::Div, fp(-1), 0), i64::MIN);
    assert_eq!(binop(BinOp::Div, 0, 0), 0);
}

#[test]
fn addition_saturates_at_the_range_ends() {
    assert_eq!(binop(BinOp::Add, i64::MAX, 1), i64::MAX);
    assert_eq!(binop(BinOp::Sub, i64::MIN, 1), i64::MIN);
}

#[test]
fn comparisons_return_fixed_point_booleans() {
    assert_eq!(binop(BinOp::Lt, fp(1), fp(2)), SCALE);
    assert_eq!(binop(BinOp::Ge, fp(1), fp(2)), 0);
    assert_eq!(binop(BinOp::CmpEq, fp(2), fp(2)), SCALE);
    assert_eq!(binop(BinOp::CmpNe, fp(2), fp(2)), 0);
}

#[test]
fn string_values_compare_only_for_equality() {
    let a = Value::Text("ab".to_string());
    let b = Value::Text("ab".to_string());
    let c = Value::Text("cd".to_string());
    assert_eq!(apply_binop(BinOp::CmpEq, &a, &b).unwrap(), Value::Num(SCALE));
    assert_eq!(apply_binop(BinOp::CmpNe, &a, &c).unwrap(), Value::Num(SCALE));
    assert!(matches!(
        apply_binop(BinOp::Add, &a, &b),
        Err(EngineError::TypeError)
    ));
}

#[test]
fn arithmetic_on_undefined_is_a_type_error() {
    assert!(matches!(
        apply_binop(BinOp::Mul, &Value::Undef, &n(1)),
        Err(EngineError::TypeError)
    ));
}

#[test]
fn sqrt_is_exact_on_perfect_squares() {
    let r = apply_math(&"sqrt".to_string(), &vec![n(fp(4))]).unwrap();
    assert_eq!(r, Value::Num(fp(2)));
    let r = apply_math(&"sqrt".to_string(), &vec![n(fp(900))]).unwrap();
    assert_eq!(r, Value::Num(fp(30)));
}

#[test]
fn sqrt_of_negative_is_a_type_error() {
    assert!(matches!(
        apply_math(&"sqrt".to_string(), &vec![n(fp(-1))]),
        Err(EngineError::TypeError)
    ));
}

#[test]
fn hypot_is_exact_on_pythagorean_triples() {
    let r = apply_math(&"hypot".to_string(), &vec![n(fp(3)), n(fp(4))]).unwrap();
    assert_eq!(r, Value::Num(fp(5)));
}

#[test]
fn cosine_and_sine_are_exact_at_zero() {
    assert_eq!(
        apply_math(&"cos".to_string(), &vec![n(0)]).unwrap(),
        Value::Num(SCALE)
    );
    assert_eq!(
        apply_math(&"sin".to_string(), &vec![n(0)]).unwrap(),
        Value::Num(0)
    );
}

#[test]
fn trig_stays_within_the_unit_range() {
    for k in -10..=10 {
        let x = k * 700_000;
        for f in ["sin", "cos"] {
            match apply_math(&f.to_string(), &vec![n(x)]).unwrap() {
                Value::Num(v) => assert!(-SCALE <= v && v <= SCALE),
                _ => panic!("expected a number"),
            }
        }
    }
}

#[test]
fn named_constants_hold_their_fixed_point_values() {
    assert_eq!(
        math_const(&"M_PI".to_string()),
        Some(Value::Num(3_141_593))
    );
    assert_eq!(math_const(&"M_E".to_string()), Some(Value::Num(2_718_282)));
    assert_eq!(math_const(&"TAU".to_string()), None);
}

#[test]
fn math_functions_check_their_arity() {
    assert!(matches!(
        apply_math(&"sin".to_string(), &vec![n(1), n(2)]),
        Err(EngineError::TypeError)
    ));
    assert!(matches!(
        apply_math(&"hypot".to_string(), &vec![n(1)]),
        Err(EngineError::TypeError)
    ));
}
