//! The abstract syntax of scan programs.  An external front end produces
//! this tree; the engine only evaluates it.

use vstd::prelude::*;
use crate::value::Value;
use crate::value::BinOp;

verus! {

/// An expression over script values.
#[derive(Debug)]
pub enum Expr {
    /// A literal value.
    Lit(Value),
    /// A variable reference, resolved against the environment chain and then
    /// against the named mathematical constants.
    Var(String),
    /// Numeric negation.
    Neg(Box<Expr>),
    /// A binary operator application.
    Bin(BinOp, Box<Expr>, Box<Expr>),
    /// An assignment expression: its value is the assigned value.
    Assign(String, Box<Expr>),
    /// A call of a mathematical library function inside an expression.
    MathCall(String, Vec<Expr>),
}

/// One call argument, positional or named.
#[derive(Debug)]
pub struct Arg {
    pub name: Option<String>,
    pub value: Expr,
}

/// A statement.
#[derive(Debug)]
pub enum Stmt {
    /// Bind each name in the current frame, left to right.
    Let(Vec<(String, Expr)>),
    /// Evaluate an expression for its effect.
    ExprStmt(Expr),
    /// Iterate a bound variable over a half-open range; the step defaults to
    /// one and must not be zero.  Each iteration runs in a fresh frame.
    For { var: String, start: Expr, end: Expr, step: Option<Expr>, body: Vec<Stmt> },
    /// Re-evaluate the condition before each iteration in the enclosing
    /// frame; run the body while it is truthy.
    While { cond: Expr, body: Vec<Stmt> },
    /// A labelled shape block: a fresh frame, and every command emitted
    /// inside carries the label.
    Shape { label: String, body: Vec<Stmt> },
    /// A call of a user function or of a builtin primitive.
    Call { name: String, args: Vec<Arg> },
}

/// A user function: ordered parameters with optional default values, and a
/// body.
#[derive(Debug)]
pub struct FunctionDef {
    pub params: Vec<(String, Option<Value>)>,
    pub body: Vec<Stmt>,
}

/// A scan program: an ordered name-to-function table, and an optional
/// initialization block run once before `main`, whose bindings become the
/// run's globals.
#[derive(Debug)]
pub struct Program {
    pub funcs: Vec<(String, FunctionDef)>,
    pub init: Option<Vec<Stmt>>,
}

} // verus!
