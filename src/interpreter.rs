use vstd::prelude::*;
use vstd::string::StringExecFns;

use crate::expr::{Expr, ExprView, LitView, LiteralValue};
use crate::token::TokenType;

verus! {

/// A float arithmetic operation.
#[derive(Clone, Copy, Debug, PartialEq, Eq, Structural)]
pub enum FloatOp {
    Add,
    Sub,
    Mul,
    Div,
}

/// A float comparison.
#[derive(Clone, Copy, Debug, PartialEq, Eq, Structural)]
pub enum CmpOp {
    Greater,
    GreaterEqual,
    Less,
    LessEqual,
}

/// A 64-bit float computation, kept as a term: the library decides which
/// operations happen on which operands, and the host carries them out with
/// IEEE 754 arithmetic.
#[derive(Debug, PartialEq)]
pub enum FloatTerm {
    /// A float literal, by its decimal text.
    Literal(String),
    /// An integer promoted to a float.
    FromInt(i64),
    Neg(Box<FloatTerm>),
    Arith(FloatOp, Box<FloatTerm>, Box<FloatTerm>),
}

/// A truth value: known, or resting on float computations.
#[derive(Debug, PartialEq)]
pub enum Truth {
    Known(bool),
    Not(Box<Truth>),
    Compare(CmpOp, Box<FloatTerm>, Box<FloatTerm>),
    /// Float equality, under which NaN equals nothing.
    FloatEq(Box<FloatTerm>, Box<FloatTerm>),
    /// Whether two truth values are equal.
    Same(Box<Truth>, Box<Truth>),
}

/// A value that an expression reduces to.
#[derive(Debug, PartialEq)]
pub enum RuntimeValue {
    Integer(i64),
    Float(FloatTerm),
    String(String),
    Boolean(Truth),
    Null,
}

/// What the operands of a failed operation should have been.
#[derive(Clone, Copy, Debug, PartialEq, Eq, Structural)]
pub enum Expected {
    /// The operand of unary `-`.
    Number,
    /// The operands of `-`, `*`, `/` and of comparisons.
    Numbers,
    /// The operands of `+`.
    NumbersOrStrings,
}

/// A failure of evaluation.
#[derive(Clone, Copy, Debug, PartialEq, Eq, Structural)]
pub enum RuntimeError {
    TypeError(Expected),
    DivisionByZero,
    UnsupportedOperator,
}

/// The message for a runtime error.
pub open spec fn error_text(e: RuntimeError) -> Seq<char> {
    match e {
        RuntimeError::TypeError(Expected::Number) => "Operand must be a number."@,
        RuntimeError::TypeError(Expected::Numbers) => "Operands must be numbers."@,
        RuntimeError::TypeError(Expected::NumbersOrStrings) => "Operands of '+' must be two numbers or two strings."@,
        RuntimeError::DivisionByZero => "Division by zero."@,
        RuntimeError::UnsupportedOperator => "Unsupported operator."@,
    }
}

impl RuntimeError {
    /// The message for this error.
    pub fn to_text(&self) -> (r: String)
        ensures
            r@ == error_text(*self),
    {
        match self {
            RuntimeError::TypeError(Expected::Number) => String::from_str("Operand must be a number."),
            RuntimeError::TypeError(Expected::Numbers) => String::from_str("Operands must be numbers."),
            RuntimeError::TypeError(Expected::NumbersOrStrings) => String::from_str(
                "Operands of '+' must be two numbers or two strings.",
            ),
            RuntimeError::DivisionByZero => String::from_str("Division by zero."),
            RuntimeError::UnsupportedOperator => String::from_str("Unsupported operator."),
        }
    }
}

/// The mathematical value of a float term.
pub enum FTerm {
    Literal(Seq<char>),
    FromInt(i64),
    Neg(Box<FTerm>),
    Arith(FloatOp, Box<FTerm>, Box<FTerm>),
}

/// The mathematical value of a truth value.
pub enum TruthView {
    Known(bool),
    Not(Box<TruthView>),
    Compare(CmpOp, Box<FTerm>, Box<FTerm>),
    FloatEq(Box<FTerm>, Box<FTerm>),
    Same(Box<TruthView>, Box<TruthView>),
}

/// The mathematical value of a runtime value.
pub enum Val {
    Integer(i64),
    Float(FTerm),
    Str(Seq<char>),
    Boolean(TruthView),
    Null,
}

impl FloatTerm {
    pub open spec fn term(&self) -> FTerm
        decreases self,
    {
        match self {
            FloatTerm::Literal(t) => FTerm::Literal(t@),
            FloatTerm::FromInt(i) => FTerm::FromInt(*i),
            FloatTerm::Neg(x) => FTerm::Neg(Box::new(x.term())),
            FloatTerm::Arith(op, x, y) => FTerm::Arith(*op, Box::new(x.term()), Box::new(y.term())),
        }
    }
}

impl Truth {
    pub open spec fn truth(&self) -> TruthView
        decreases self,
    {
        match self {
            Truth::Known(b) => TruthView::Known(*b),
            Truth::Not(t) => TruthView::Not(Box::new(t.truth())),
            Truth::Compare(op, x, y) => TruthView::Compare(*op, Box::new(x.term()), Box::new(y.term())),
            Truth::FloatEq(x, y) => TruthView::FloatEq(Box::new(x.term()), Box::new(y.term())),
            Truth::Same(s, t) => TruthView::Same(Box::new(s.truth()), Box::new(t.truth())),
        }
    }
}

impl RuntimeValue {
    pub open spec fn val(&self) -> Val {
        match self {
            RuntimeValue::Integer(i) => Val::Integer(*i),
            RuntimeValue::Float(t) => Val::Float(t.term()),
            RuntimeValue::String(s) => Val::Str(s@),
            RuntimeValue::Boolean(t) => Val::Boolean(t.truth()),
            RuntimeValue::Null => Val::Null,
        }
    }
}

/// The value of a literal.
pub open spec fn literal_value(l: LitView) -> Val {
    match l {
        LitView::Integer(i) => Val::Integer(i),
        LitView::Float(t) => Val::Float(FTerm::Literal(t)),
        LitView::Str(s) => Val::Str(s),
        LitView::Boolean(b) => Val::Boolean(TruthView::Known(b)),
        LitView::Null => Val::Null,
    }
}

/// Logical negation, worked out where the operand is known.
pub open spec fn negate(t: TruthView) -> TruthView {
    match t {
        TruthView::Known(b) => TruthView::Known(!b),
        _ => TruthView::Not(Box::new(t)),
    }
}

/// Truthiness: `null` and `false` are falsy, every other value is truthy.
pub open spec fn truthy(v: Val) -> TruthView {
    match v {
        Val::Null => TruthView::Known(false),
        Val::Boolean(t) => t,
        _ => TruthView::Known(true),
    }
}

/// Equality of values of the same variant; values of different variants
/// are unequal, so no integer equals a float.
pub open spec fn equal(a: Val, b: Val) -> TruthView {
    match (a, b) {
        (Val::Integer(x), Val::Integer(y)) => TruthView::Known(x == y),
        (Val::Float(x), Val::Float(y)) => TruthView::FloatEq(Box::new(x), Box::new(y)),
        (Val::Str(x), Val::Str(y)) => TruthView::Known(x == y),
        (Val::Boolean(s), Val::Boolean(t)) => match (s, t) {
            (TruthView::Known(x), TruthView::Known(y)) => TruthView::Known(x == y),
            _ => TruthView::Same(Box::new(s), Box::new(t)),
        },
        (Val::Null, Val::Null) => TruthView::Known(true),
        _ => TruthView::Known(false),
    }
}

/// Integer division truncating toward zero; `i64::MIN / -1` wraps to
/// `i64::MIN`.
pub open spec fn int_div(l: i64, r: i64) -> i64 {
    match l.checked_div(r) {
        Some(q) => q,
        None => i64::MIN,
    }
}

pub open spec fn float_op(k: TokenType) -> FloatOp {
    if k == TokenType::Plus {
        FloatOp::Add
    } else if k == TokenType::Minus {
        FloatOp::Sub
    } else if k == TokenType::Star {
        FloatOp::Mul
    } else {
        FloatOp::Div
    }
}

pub open spec fn cmp_op(k: TokenType) -> CmpOp {
    if k == TokenType::Greater {
        CmpOp::Greater
    } else if k == TokenType::GreaterEqual {
        CmpOp::GreaterEqual
    } else if k == TokenType::Less {
        CmpOp::Less
    } else {
        CmpOp::LessEqual
    }
}

/// Promotes a numeric value to a float term.
pub open spec fn as_float(v: Val) -> FTerm {
    match v {
        Val::Integer(i) => FTerm::FromInt(i),
        Val::Float(t) => t,
        _ => FTerm::FromInt(0),
    }
}

pub open spec fn is_number(v: Val) -> bool {
    v is Integer || v is Float
}

/// Unary operator `k` applied to the value `v`.
pub open spec fn unary_value(k: TokenType, v: Val) -> Result<Val, RuntimeError> {
    if k == TokenType::Minus {
        match v {
            Val::Integer(i) => Ok(Val::Integer(0i64.wrapping_sub(i))),
            Val::Float(t) => Ok(Val::Float(FTerm::Neg(Box::new(t)))),
            _ => Err(RuntimeError::TypeError(Expected::Number)),
        }
    } else if k == TokenType::Bang {
        Ok(Val::Boolean(negate(truthy(v))))
    } else {
        Err(RuntimeError::UnsupportedOperator)
    }
}

/// Binary operator `k` applied to the values `a` and `b`. Integer pairs
/// compute in 64-bit wrapping arithmetic; a pair with a float promotes the
/// integer and gives a float.
pub open spec fn binary_value(a: Val, k: TokenType, b: Val) -> Result<Val, RuntimeError> {
    if k == TokenType::Minus || k == TokenType::Star || k == TokenType::Slash || k
        == TokenType::Plus {
        match (a, b) {
            (Val::Integer(l), Val::Integer(r)) => if k == TokenType::Plus {
                Ok(Val::Integer(l.wrapping_add(r)))
            } else if k == TokenType::Minus {
                Ok(Val::Integer(l.wrapping_sub(r)))
            } else if k == TokenType::Star {
                Ok(Val::Integer(l.wrapping_mul(r)))
            } else if r == 0 {
                Err(RuntimeError::DivisionByZero)
            } else {
                Ok(Val::Integer(int_div(l, r)))
            },
            (Val::Str(l), Val::Str(r)) => if k == TokenType::Plus {
                Ok(Val::Str(l + r))
            } else {
                Err(RuntimeError::TypeError(Expected::Numbers))
            },
            _ => if is_number(a) && is_number(b) {
                Ok(Val::Float(FTerm::Arith(float_op(k), Box::new(as_float(a)), Box::new(as_float(b)))))
            } else if k == TokenType::Plus {
                Err(RuntimeError::TypeError(Expected::NumbersOrStrings))
            } else {
                Err(RuntimeError::TypeError(Expected::Numbers))
            },
        }
    } else if k == TokenType::Greater || k == TokenType::GreaterEqual || k == TokenType::Less || k
        == TokenType::LessEqual {
        match (a, b) {
            (Val::Integer(l), Val::Integer(r)) => Ok(Val::Boolean(TruthView::Known(
                if k == TokenType::Greater {
                    l > r
                } else if k == TokenType::GreaterEqual {
                    l >= r
                } else if k == TokenType::Less {
                    l < r
                } else {
                    l <= r
                },
            ))),
            _ => if is_number(a) && is_number(b) {
                Ok(Val::Boolean(TruthView::Compare(cmp_op(k), Box::new(as_float(a)), Box::new(as_float(b)))))
            } else {
                Err(RuntimeError::TypeError(Expected::Numbers))
            },
        }
    } else if k == TokenType::EqualEqual {
        Ok(Val::Boolean(equal(a, b)))
    } else if k == TokenType::BangEqual {
        Ok(Val::Boolean(negate(equal(a, b))))
    } else {
        Err(RuntimeError::UnsupportedOperator)
    }
}

/// The value of an expression: operands are reduced left before right, and
/// the first failure is the result.
pub open spec fn eval(e: ExprView) -> Result<Val, RuntimeError>
    decreases e,
{
    match e {
        ExprView::Literal(l) => Ok(literal_value(l)),
        ExprView::Grouping(x) => eval(*x),
        ExprView::Unary(op, x) => match eval(*x) {
            Err(err) => Err(err),
            Ok(v) => unary_value(op.0, v),
        },
        ExprView::Binary(l, op, r) => match eval(*l) {
            Err(err) => Err(err),
            Ok(a) => match eval(*r) {
                Err(err) => Err(err),
                Ok(b) => binary_value(a, op.0, b),
            },
        },
    }
}

pub open spec fn result_val(r: Result<RuntimeValue, RuntimeError>) -> Result<Val, RuntimeError> {
    match r {
        Ok(v) => Ok(v.val()),
        Err(e) => Err(e),
    }
}

/// The evaluator: it reduces expression trees to values.
#[derive(Debug)]
pub struct Interpreter;

impl Interpreter {
    pub fn new() -> (r: Self) {
        Interpreter
    }

    /// Reduces `expr` to a value.
    pub fn evaluate(&self, expr: &Expr) -> (r: Result<RuntimeValue, RuntimeError>)
        ensures
            result_val(r) == eval(expr.tree()),
        decreases expr,
    {
        match expr {
            Expr::Literal { value } => {
                let v = match value {
                    LiteralValue::Integer(i) => RuntimeValue::Integer(*i),
                    LiteralValue::Float(t) => RuntimeValue::Float(FloatTerm::Literal(t.clone())),
                    LiteralValue::String(s) => RuntimeValue::String(s.clone()),
                    LiteralValue::Boolean(b) => RuntimeValue::Boolean(Truth::Known(*b)),
                    LiteralValue::Null => RuntimeValue::Null,
                };
                Ok(v)
            },
            Expr::Grouping { expression } => self.evaluate(expression),
            Expr::Unary { operator, right } => {
                let r = self.evaluate(right)?;
                self.evaluate_unary(operator.token_type, r)
            },
            Expr::Binary { left, operator, right } => {
                let l = self.evaluate(left)?;
                let r = self.evaluate(right)?;
                self.evaluate_binary(l, operator.token_type, r)
            },
        }
    }

    /// Applies a unary operator to a value.
    pub fn evaluate_unary(&self, operator: TokenType, right: RuntimeValue) -> (r: Result<
        RuntimeValue,
        RuntimeError,
    >)
        ensures
            result_val(r) == unary_value(operator, right.val()),
    {
        match operator {
            TokenType::Minus => match right {
                RuntimeValue::Integer(i) => Ok(RuntimeValue::Integer(0i64.wrapping_sub(i))),
                RuntimeValue::Float(t) => Ok(RuntimeValue::Float(FloatTerm::Neg(Box::new(t)))),
                _ => Err(RuntimeError::TypeError(Expected::Number)),
            },
            TokenType::Bang => Ok(RuntimeValue::Boolean(not(self.is_truthy(right)))),
            _ => Err(RuntimeError::UnsupportedOperator),
        }
    }

    /// Applies a binary operator to two values.
    pub fn evaluate_binary(&self, left: RuntimeValue, operator: TokenType, right: RuntimeValue) -> (r:
        Result<RuntimeValue, RuntimeError>)
        ensures
            result_val(r) == binary_value(left.val(), operator, right.val()),
    {
        match operator {
            TokenType::Minus | TokenType::Star | TokenType::Slash | TokenType::Plus => {
                match (left, right) {
                    (RuntimeValue::Integer(l), RuntimeValue::Integer(r)) => match operator {
                        TokenType::Plus => Ok(RuntimeValue::Integer(l.wrapping_add(r))),
                        TokenType::Minus => Ok(RuntimeValue::Integer(l.wrapping_sub(r))),
                        TokenType::Star => Ok(RuntimeValue::Integer(l.wrapping_mul(r))),
                        _ => {
                            if r == 0 {
                                return Err(RuntimeError::DivisionByZero);
                            }
                            match l.checked_div(r) {
                                Some(q) => Ok(RuntimeValue::Integer(q)),
                                None => Ok(RuntimeValue::Integer(i64::MIN)),
                            }
                        },
                    },
                    (RuntimeValue::String(l), RuntimeValue::String(r)) => match operator {
                        TokenType::Plus => Ok(RuntimeValue::String(l.concat(r.as_str()))),
                        _ => Err(RuntimeError::TypeError(Expected::Numbers)),
                    },
                    (l, r) => {
                        let op = match operator {
                            TokenType::Plus => FloatOp::Add,
                            TokenType::Minus => FloatOp::Sub,
                            TokenType::Star => FloatOp::Mul,
                            _ => FloatOp::Div,
                        };
                        match (promote(l), promote(r)) {
                            (Some(x), Some(y)) => Ok(RuntimeValue::Float(FloatTerm::Arith(op, Box::new(x), Box::new(y)))),
                            _ => match operator {
                                TokenType::Plus => Err(RuntimeError::TypeError(Expected::NumbersOrStrings)),
                                _ => Err(RuntimeError::TypeError(Expected::Numbers)),
                            },
                        }
                    },
                }
            },
            TokenType::Greater | TokenType::GreaterEqual | TokenType::Less | TokenType::LessEqual => {
                match (left, right) {
                    (RuntimeValue::Integer(l), RuntimeValue::Integer(r)) => {
                        let b = match operator {
                            TokenType::Greater => l > r,
                            TokenType::GreaterEqual => l >= r,
                            TokenType::Less => l < r,
                            _ => l <= r,
                        };
                        Ok(RuntimeValue::Boolean(Truth::Known(b)))
                    },
                    (l, r) => {
                        let op = match operator {
                            TokenType::Greater => CmpOp::Greater,
                            TokenType::GreaterEqual => CmpOp::GreaterEqual,
                            TokenType::Less => CmpOp::Less,
                            _ => CmpOp::LessEqual,
                        };
                        match (promote(l), promote(r)) {
                            (Some(x), Some(y)) => Ok(RuntimeValue::Boolean(Truth::Compare(op, Box::new(x), Box::new(y)))),
                            _ => Err(RuntimeError::TypeError(Expected::Numbers)),
                        }
                    },
                }
            },
            TokenType::EqualEqual => Ok(RuntimeValue::Boolean(values_equal(left, right))),
            TokenType::BangEqual => Ok(RuntimeValue::Boolean(not(values_equal(left, right)))),
            _ => Err(RuntimeError::UnsupportedOperator),
        }
    }

    /// The truthiness of a value.
    pub fn is_truthy(&self, val: RuntimeValue) -> (r: Truth)
        ensures
            r.truth() == truthy(val.val()),
    {
        match val {
            RuntimeValue::Null => Truth::Known(false),
            RuntimeValue::Boolean(t) => t,
            _ => Truth::Known(true),
        }
    }
}

/// A numeric value as a float term; `None` for any other value.
fn promote(v: RuntimeValue) -> (r: Option<FloatTerm>)
    ensures
        is_number(v.val()) <==> r is Some,
        r matches Some(t) ==> t.term() == as_float(v.val()),
{
    match v {
        RuntimeValue::Integer(i) => Some(FloatTerm::FromInt(i)),
        RuntimeValue::Float(t) => Some(t),
        _ => None,
    }
}

/// Logical negation of a truth value.
fn not(t: Truth) -> (r: Truth)
    ensures
        r.truth() == negate(t.truth()),
{
    match t {
        Truth::Known(b) => Truth::Known(!b),
        _ => Truth::Not(Box::new(t)),
    }
}

/// Whether two values are equal.
fn values_equal(a: RuntimeValue, b: RuntimeValue) -> (r: Truth)
    ensures
        r.truth() == equal(a.val(), b.val()),
{
    match (a, b) {
        (RuntimeValue::Integer(x), RuntimeValue::Integer(y)) => Truth::Known(x == y),
        (RuntimeValue::Float(x), RuntimeValue::Float(y)) => Truth::FloatEq(Box::new(x), Box::new(y)),
        (RuntimeValue::String(x), RuntimeValue::String(y)) => Truth::Known(x == y),
        (RuntimeValue::Boolean(s), RuntimeValue::Boolean(t)) => match (s, t) {
            (Truth::Known(x), Truth::Known(y)) => Truth::Known(x == y),
            (s, t) => Truth::Same(Box::new(s), Box::new(t)),
        },
        (RuntimeValue::Null, RuntimeValue::Null) => Truth::Known(true),
        _ => Truth::Known(false),
    }
}

/// Whether `e` is arithmetic over numbers: integer and float literals,
/// groupings, unary `-` and the operators `+ - * /`.
pub open spec fn is_arithmetic(e: ExprView) -> bool
    decreases e,
{
    match e {
        ExprView::Literal(l) => l is Integer || l is Float,
        ExprView::Grouping(x) => is_arithmetic(*x),
        ExprView::Unary(op, x) => op.0 == TokenType::Minus && is_arithmetic(*x),
        ExprView::Binary(l, op, r) => (op.0 == TokenType::Plus || op.0 == TokenType::Minus || op.0
            == TokenType::Star || op.0 == TokenType::Slash) && is_arithmetic(*l) && is_arithmetic(*r),
    }
}

/// Whether a float literal occurs in `e`.
pub open spec fn has_float(e: ExprView) -> bool
    decreases e,
{
    match e {
        ExprView::Literal(l) => l is Float,
        ExprView::Grouping(x) => has_float(*x),
        ExprView::Unary(_, x) => has_float(*x),
        ExprView::Binary(l, _, r) => has_float(*l) || has_float(*r),
    }
}

/// Numeric promotion never demotes: an arithmetic expression reduces to an
/// integer exactly when no float literal occurs in it, and to a float
/// otherwise. The only failure it can meet is an integer division by zero.
pub proof fn lemma_numeric_promotion(e: ExprView)
    requires
        is_arithmetic(e),
    ensures
        eval(e) matches Ok(v) ==> (v is Integer <==> !has_float(e)) && (v is Float <==> has_float(e)),
        eval(e) matches Err(err) ==> err == RuntimeError::DivisionByZero,
    decreases e,
{
    match e {
        ExprView::Literal(_) => {},
        ExprView::Grouping(x) => lemma_numeric_promotion(*x),
        ExprView::Unary(_, x) => lemma_numeric_promotion(*x),
        ExprView::Binary(l, _, r) => {
            lemma_numeric_promotion(*l);
            lemma_numeric_promotion(*r);
        },
    }
}

/// Whether a value holds no float computation: neither a float nor a truth
/// value that rests on one.
pub open spec fn float_free(v: Val) -> bool {
    match v {
        Val::Float(_) => false,
        Val::Boolean(t) => t is Known,
        _ => true,
    }
}

/// `==` is reflexive on values that hold no float. (A float NaN is unequal
/// to itself.)
pub proof fn lemma_equality_reflexive(v: Val)
    requires
        float_free(v),
    ensures
        binary_value(v, TokenType::EqualEqual, v) == Ok::<Val, RuntimeError>(Val::Boolean(TruthView::Known(true))),
        binary_value(v, TokenType::BangEqual, v) == Ok::<Val, RuntimeError>(Val::Boolean(TruthView::Known(false))),
{
}

/// `==` and `!=` are symmetric on values that hold no float.
pub proof fn lemma_equality_symmetric(a: Val, b: Val)
    requires
        float_free(a),
        float_free(b),
    ensures
        binary_value(a, TokenType::EqualEqual, b) == binary_value(b, TokenType::EqualEqual, a),
        binary_value(a, TokenType::BangEqual, b) == binary_value(b, TokenType::BangEqual, a),
{
}

/// No promotion happens before equality: an integer never equals a float,
/// whatever their numeric values, in either order.
pub proof fn lemma_integer_never_equals_float(i: i64, t: FTerm)
    ensures
        binary_value(Val::Integer(i), TokenType::EqualEqual, Val::Float(t)) == Ok::<Val, RuntimeError>(
            Val::Boolean(TruthView::Known(false)),
        ),
        binary_value(Val::Float(t), TokenType::EqualEqual, Val::Integer(i)) == Ok::<Val, RuntimeError>(
            Val::Boolean(TruthView::Known(false)),
        ),
{
}

} // verus!
