//! The scalar expression evaluator.
//!
//! An expression tree (a literal value, or a binary operator applied to two
//! subtrees; precedence is the parser's business and is already encoded in
//! the tree shape) reduces to a single typed value.  Arithmetic and bitwise
//! operators are defined on number pairs only; concatenation is defined
//! whenever at least one side is a string, stringifying a numeric other side.
//! The evaluator is pure: it performs no storage access and no I/O, and every
//! failure is reported as a typed error rather than a panic.

use vstd::prelude::*;

use crate::text::{dec_string, format_i64};

verus! {

/// A binary operator that can appear in an expression tree.  Shifts are
/// recognized but deliberately unsupported (reported as explicit errors, not
/// computed).
#[derive(Clone, Copy, Debug, PartialEq, Eq, Structural)]
pub enum BinaryOp {
    Plus,
    Minus,
    Multiply,
    Divide,
    Modulus,
    BitwiseAnd,
    BitwiseOr,
    StringConcat,
    ShiftLeft,
    ShiftRight,
}

/// A typed scalar: a 64-bit integer or a character string.
#[derive(Clone, Debug, PartialEq, Eq)]
pub enum ScalarValue {
    Number(i64),
    Text(String),
}

/// The mathematical form of a scalar value.
#[verifier::ext_equal]
pub enum ScalarView {
    Number(i64),
    Text(Seq<char>),
}

impl View for ScalarValue {
    type V = ScalarView;

    open spec fn view(&self) -> ScalarView {
        match self {
            ScalarValue::Number(n) => ScalarView::Number(*n),
            ScalarValue::Text(s) => ScalarView::Text(s@),
        }
    }
}

/// A failure of expression evaluation, client-visible as a domain error.
#[derive(Clone, Debug, PartialEq, Eq)]
pub enum EvalError {
    /// The operator has no definition for the resolved operand type pair;
    /// carries the operator symbol and both type names.
    UndefinedFunction(String, String, String),
    /// The operator is recognized but deliberately not implemented.
    UnsupportedOperator(String),
    /// The mathematical result does not fit a 64-bit integer.
    NumericValueOutOfRange,
    DivisionByZero,
}

/// The mathematical form of an evaluation error.
#[verifier::ext_equal]
pub enum EvalErrorView {
    UndefinedFunction(Seq<char>, Seq<char>, Seq<char>),
    UnsupportedOperator(Seq<char>),
    NumericValueOutOfRange,
    DivisionByZero,
}

impl View for EvalError {
    type V = EvalErrorView;

    open spec fn view(&self) -> EvalErrorView {
        match self {
            EvalError::UndefinedFunction(op, l, r) => EvalErrorView::UndefinedFunction(
                op@,
                l@,
                r@,
            ),
            EvalError::UnsupportedOperator(op) => EvalErrorView::UnsupportedOperator(op@),
            EvalError::NumericValueOutOfRange => EvalErrorView::NumericValueOutOfRange,
            EvalError::DivisionByZero => EvalErrorView::DivisionByZero,
        }
    }
}

/// A scalar expression tree: a literal, or a binary operator applied to two
/// subtrees.
#[derive(Debug, PartialEq, Eq)]
pub enum Expr {
    Value(ScalarValue),
    Binary(BinaryOp, Box<Expr>, Box<Expr>),
}

/// The symbol of an operator, as it appears in error messages.
pub open spec fn op_symbol(op: BinaryOp) -> Seq<char> {
    match op {
        BinaryOp::Plus => "+"@,
        BinaryOp::Minus => "-"@,
        BinaryOp::Multiply => "*"@,
        BinaryOp::Divide => "/"@,
        BinaryOp::Modulus => "%"@,
        BinaryOp::BitwiseAnd => "&"@,
        BinaryOp::BitwiseOr => "|"@,
        BinaryOp::StringConcat => "||"@,
        BinaryOp::ShiftLeft => "<<"@,
        BinaryOp::ShiftRight => ">>"@,
    }
}

/// The type name of a scalar, as it appears in error messages.
pub open spec fn type_name_of(v: ScalarView) -> Seq<char> {
    match v {
        ScalarView::Number(_) => "NUMBER"@,
        ScalarView::Text(_) => "STRING"@,
    }
}

/// Arithmetic and bitwise operators on a pair of numbers.  Division and
/// modulo truncate toward zero; a mathematical result outside the 64-bit
/// range is an error, as is a zero divisor.
pub open spec fn apply_numeric(op: BinaryOp, a: i64, b: i64) -> Result<ScalarView, EvalErrorView> {
    match op {
        BinaryOp::Plus => match a.checked_add(b) {
            Some(v) => Ok(ScalarView::Number(v)),
            None => Err(EvalErrorView::NumericValueOutOfRange),
        },
        BinaryOp::Minus => match a.checked_sub(b) {
            Some(v) => Ok(ScalarView::Number(v)),
            None => Err(EvalErrorView::NumericValueOutOfRange),
        },
        BinaryOp::Multiply => match a.checked_mul(b) {
            Some(v) => Ok(ScalarView::Number(v)),
            None => Err(EvalErrorView::NumericValueOutOfRange),
        },
        BinaryOp::Divide => if b == 0 {
            Err(EvalErrorView::DivisionByZero)
        } else {
            match a.checked_div(b) {
                Some(v) => Ok(ScalarView::Number(v)),
                None => Err(EvalErrorView::NumericValueOutOfRange),
            }
        },
        BinaryOp::Modulus => if b == 0 {
            Err(EvalErrorView::DivisionByZero)
        } else {
            match a.checked_rem(b) {
                Some(v) => Ok(ScalarView::Number(v)),
                None => Err(EvalErrorView::NumericValueOutOfRange),
            }
        },
        BinaryOp::BitwiseAnd => Ok(ScalarView::Number(a & b)),
        BinaryOp::BitwiseOr => Ok(ScalarView::Number(a | b)),
        _ => Err(EvalErrorView::UnsupportedOperator(op_symbol(op))),
    }
}

/// Concatenation: defined whenever at least one side is a string; a numeric
/// other side is stringified; two numbers are an undefined function.
pub open spec fn apply_concat(l: ScalarView, r: ScalarView) -> Result<ScalarView, EvalErrorView> {
    match (l, r) {
        (ScalarView::Text(a), ScalarView::Text(b)) => Ok(ScalarView::Text(a + b)),
        (ScalarView::Number(a), ScalarView::Text(b)) => Ok(
            ScalarView::Text(dec_string(a as int) + b),
        ),
        (ScalarView::Text(a), ScalarView::Number(b)) => Ok(
            ScalarView::Text(a + dec_string(b as int)),
        ),
        (ScalarView::Number(_), ScalarView::Number(_)) => Err(
            EvalErrorView::UndefinedFunction(
                op_symbol(BinaryOp::StringConcat),
                "NUMBER"@,
                "NUMBER"@,
            ),
        ),
    }
}

/// What one operator application yields on two evaluated operands.
pub open spec fn apply_binary(op: BinaryOp, l: ScalarView, r: ScalarView) -> Result<
    ScalarView,
    EvalErrorView,
> {
    match op {
        BinaryOp::StringConcat => apply_concat(l, r),
        BinaryOp::ShiftLeft => Err(EvalErrorView::UnsupportedOperator(op_symbol(op))),
        BinaryOp::ShiftRight => Err(EvalErrorView::UnsupportedOperator(op_symbol(op))),
        _ => match (l, r) {
            (ScalarView::Number(a), ScalarView::Number(b)) => apply_numeric(op, a, b),
            _ => Err(
                EvalErrorView::UndefinedFunction(op_symbol(op), type_name_of(l), type_name_of(r)),
            ),
        },
    }
}

/// What evaluating an expression tree yields: operands evaluate left to
/// right, and the first failure is the tree's failure.
pub open spec fn eval_spec(e: Expr) -> Result<ScalarView, EvalErrorView>
    decreases e,
{
    match e {
        Expr::Value(v) => Ok(v@),
        Expr::Binary(op, l, r) => match eval_spec(*l) {
            Err(err) => Err(err),
            Ok(lv) => match eval_spec(*r) {
                Err(err) => Err(err),
                Ok(rv) => apply_binary(op, lv, rv),
            },
        },
    }
}

/// The mathematical form of an evaluation outcome.
pub open spec fn eval_result_view(r: Result<ScalarValue, EvalError>) -> Result<
    ScalarView,
    EvalErrorView,
> {
    match r {
        Ok(v) => Ok(v@),
        Err(e) => Err(e@),
    }
}

/// A copy of a scalar value.
pub fn clone_scalar(v: &ScalarValue) -> (r: ScalarValue)
    ensures
        r@ == v@,
{
    match v {
        ScalarValue::Number(n) => ScalarValue::Number(*n),
        ScalarValue::Text(s) => ScalarValue::Text(s.clone()),
    }
}

fn op_symbol_exec(op: BinaryOp) -> (s: String)
    ensures
        s@ == op_symbol(op),
{
    match op {
        BinaryOp::Plus => "+".to_owned(),
        BinaryOp::Minus => "-".to_owned(),
        BinaryOp::Multiply => "*".to_owned(),
        BinaryOp::Divide => "/".to_owned(),
        BinaryOp::Modulus => "%".to_owned(),
        BinaryOp::BitwiseAnd => "&".to_owned(),
        BinaryOp::BitwiseOr => "|".to_owned(),
        BinaryOp::StringConcat => "||".to_owned(),
        BinaryOp::ShiftLeft => "<<".to_owned(),
        BinaryOp::ShiftRight => ">>".to_owned(),
    }
}

fn type_name_exec(v: &ScalarValue) -> (s: String)
    ensures
        s@ == type_name_of(v@),
{
    match v {
        ScalarValue::Number(_) => "NUMBER".to_owned(),
        ScalarValue::Text(_) => "STRING".to_owned(),
    }
}

fn apply_numeric_exec(op: BinaryOp, a: i64, b: i64) -> (res: Result<ScalarValue, EvalError>)
    ensures
        eval_result_view(res) == apply_numeric(op, a, b),
{
    match op {
        BinaryOp::Plus => match a.checked_add(b) {
            Some(v) => Ok(ScalarValue::Number(v)),
            None => Err(EvalError::NumericValueOutOfRange),
        },
        BinaryOp::Minus => match a.checked_sub(b) {
            Some(v) => Ok(ScalarValue::Number(v)),
            None => Err(EvalError::NumericValueOutOfRange),
        },
        BinaryOp::Multiply => match a.checked_mul(b) {
            Some(v) => Ok(ScalarValue::Number(v)),
            None => Err(EvalError::NumericValueOutOfRange),
        },
        BinaryOp::Divide => {
            if b == 0 {
                Err(EvalError::DivisionByZero)
            } else {
                match a.checked_div(b) {
                    Some(v) => Ok(ScalarValue::Number(v)),
                    None => Err(EvalError::NumericValueOutOfRange),
                }
            }
        },
        BinaryOp::Modulus => {
            if b == 0 {
                Err(EvalError::DivisionByZero)
            } else {
                match a.checked_rem(b) {
                    Some(v) => Ok(ScalarValue::Number(v)),
                    None => Err(EvalError::NumericValueOutOfRange),
                }
            }
        },
        BinaryOp::BitwiseAnd => Ok(ScalarValue::Number(a & b)),
        BinaryOp::BitwiseOr => Ok(ScalarValue::Number(a | b)),
        _ => Err(EvalError::UnsupportedOperator(op_symbol_exec(op))),
    }
}

fn apply_concat_exec(l: ScalarValue, r: ScalarValue) -> (res: Result<ScalarValue, EvalError>)
    ensures
        eval_result_view(res) == apply_concat(l@, r@),
{
    match (l, r) {
        (ScalarValue::Text(a), ScalarValue::Text(b)) => {
            let mut s = a;
            s.push_str(b.as_str());
            Ok(ScalarValue::Text(s))
        },
        (ScalarValue::Number(a), ScalarValue::Text(b)) => {
            let mut s = format_i64(a);
            s.push_str(b.as_str());
            Ok(ScalarValue::Text(s))
        },
        (ScalarValue::Text(a), ScalarValue::Number(b)) => {
            let mut s = a;
            let tail = format_i64(b);
            s.push_str(tail.as_str());
            Ok(ScalarValue::Text(s))
        },
        (ScalarValue::Number(_), ScalarValue::Number(_)) => Err(
            EvalError::UndefinedFunction(
                op_symbol_exec(BinaryOp::StringConcat),
                "NUMBER".to_owned(),
                "NUMBER".to_owned(),
            ),
        ),
    }
}

fn apply_binary_exec(op: BinaryOp, l: ScalarValue, r: ScalarValue) -> (res: Result<
    ScalarValue,
    EvalError,
>)
    ensures
        eval_result_view(res) == apply_binary(op, l@, r@),
{
    match op {
        BinaryOp::StringConcat => apply_concat_exec(l, r),
        BinaryOp::ShiftLeft => Err(EvalError::UnsupportedOperator(op_symbol_exec(op))),
        BinaryOp::ShiftRight => Err(EvalError::UnsupportedOperator(op_symbol_exec(op))),
        _ => match (l, r) {
            (ScalarValue::Number(a), ScalarValue::Number(b)) => apply_numeric_exec(op, a, b),
            (l2, r2) => {
                let ln = type_name_exec(&l2);
                let rn = type_name_exec(&r2);
                Err(EvalError::UndefinedFunction(op_symbol_exec(op), ln, rn))
            },
        },
    }
}

/// Evaluates an expression tree to a single typed value, or to the first
/// evaluation error, exactly as `eval_spec` describes.
pub fn eval(e: &Expr) -> (res: Result<ScalarValue, EvalError>)
    ensures
        eval_result_view(res) == eval_spec(*e),
    decreases *e,
{
    match e {
        Expr::Value(v) => Ok(clone_scalar(v)),
        Expr::Binary(op, l, r) => {
            let lv = match eval(&**l) {
                Ok(v) => v,
                Err(err) => {
                    return Err(err);
                },
            };
            let rv = match eval(&**r) {
                Ok(v) => v,
                Err(err) => {
                    return Err(err);
                },
            };
            apply_binary_exec(*op, lv, rv)
        },
    }
}

/// The text a scalar value is stored as: numbers render in decimal, strings
/// are themselves.
pub open spec fn scalar_text(v: ScalarView) -> Seq<char> {
    match v {
        ScalarView::Number(n) => dec_string(n as int),
        ScalarView::Text(t) => t,
    }
}

/// Renders a scalar value as the text it is stored as.
pub fn scalar_to_text(v: &ScalarValue) -> (s: String)
    ensures
        s@ == scalar_text(v@),
{
    match v {
        ScalarValue::Number(n) => format_i64(*n),
        ScalarValue::Text(t) => t.clone(),
    }
}

} // verus!
