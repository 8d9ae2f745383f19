use shift::errors::{had_error, Diagnostics};
use shift::interpreter::{
    CmpOp, Expected, FloatOp, FloatTerm, Interpreter, RuntimeError, RuntimeValue, Truth,
};
use shift::pipeline::{run, Outcome};
use shift::token::TokenType;

fn eval(source: &str) -> Result<RuntimeValue, RuntimeError> {
    let mut diag = Diagnostics::new();
    match run(&Interpreter::new(), source, &mut diag) {
        Outcome::Value(v) => Ok(v),
        Outcome::RuntimeError(e) => Err(e),
        Outcome::SyntaxError(e) => panic!("syntax error: {}", e.message),
    }
}

fn lit(t: &str) -> Box<FloatTerm> {
    Box::new(FloatTerm::Literal(t.to_string()))
}

fn known(b: bool) -> RuntimeValue {
    RuntimeValue::Boolean(Truth::Known(b))
}

#[test]
fn precedence_gives_seven() {
    assert_eq!(eval("1 + 2 * 3"), Ok(RuntimeValue::Integer(7)));
}

#[test]
fn grouping_gives_nine() {
    assert_eq!(eval("(1 + 2) * 3"), Ok(RuntimeValue::Integer(9)));
}

#[test]
fn subtraction_folds_left() {
    assert_eq!(eval("10 - 3 - 2"), Ok(RuntimeValue::Integer(5)));
}

#[test]
fn double_negation_of_true() {
    assert_eq!(eval("!!true"), Ok(known(true)));
}

#[test]
fn negating_twice_with_a_space() {
    assert_eq!(eval("- -5"), Ok(RuntimeValue::Integer(5)));
}

#[test]
fn double_minus_is_a_syntax_error() {
    let mut diag = Diagnostics::new();
    match run(&Interpreter::new(), "--5", &mut diag) {
        Outcome::SyntaxError(e) => assert_eq!(e.message, "Expect expression."),
        other => panic!("unexpected outcome {:?}", other),
    }
}

#[test]
fn empty_input_is_a_syntax_error() {
    let mut diag = Diagnostics::new();
    match run(&Interpreter::new(), "", &mut diag) {
        Outcome::SyntaxError(e) => {
            assert_eq!(e.message, "Expect expression.");
            assert_eq!(e.token.token_type, TokenType::Eof);
        },
        other => panic!("unexpected outcome {:?}", other),
    }
    assert!(!had_error(&diag));
}

#[test]
fn unterminated_string_in_a_run() {
    let mut diag = Diagnostics::new();
    let out = run(&Interpreter::new(), "\"open", &mut diag);
    assert!(had_error(&diag));
    assert_eq!(diag.reports[0].message, "Unterminated string.");
    assert!(matches!(out, Outcome::SyntaxError(_)));
}

#[test]
fn integer_division_by_zero_fails() {
    assert_eq!(eval("5 / 0"), Err(RuntimeError::DivisionByZero));
}

#[test]
fn float_division_by_zero_is_a_float_term() {
    assert_eq!(eval("5.0 / 0.0"), Ok(RuntimeValue::Float(FloatTerm::Arith(FloatOp::Div, lit("5.0"), lit("0.0")))));
}

#[test]
fn integer_division_truncates_toward_zero() {
    assert_eq!(eval("7 / 2"), Ok(RuntimeValue::Integer(3)));
    assert_eq!(eval("-7 / 2"), Ok(RuntimeValue::Integer(-3)));
}

#[test]
fn integer_arithmetic_wraps() {
    assert_eq!(eval("9223372036854775807 + 1"), Ok(RuntimeValue::Integer(i64::MIN)));
    assert_eq!(eval("-9223372036854775807 - 2"), Ok(RuntimeValue::Integer(i64::MAX)));
    assert_eq!(eval("4611686018427387904 * 2"), Ok(RuntimeValue::Integer(i64::MIN)));
    assert_eq!(eval("(-9223372036854775807 - 1) / -1"), Ok(RuntimeValue::Integer(i64::MIN)));
    assert_eq!(eval("-(-9223372036854775807 - 1)"), Ok(RuntimeValue::Integer(i64::MIN)));
}

#[test]
fn strings_concatenate() {
    assert_eq!(eval("\"a\" + \"b\""), Ok(RuntimeValue::String("ab".to_string())));
}

#[test]
fn string_plus_number_is_a_type_error() {
    assert_eq!(eval("\"a\" + 1"), Err(RuntimeError::TypeError(Expected::NumbersOrStrings)));
}

#[test]
fn string_minus_string_is_a_type_error() {
    assert_eq!(eval("\"a\" - \"b\""), Err(RuntimeError::TypeError(Expected::Numbers)));
}

#[test]
fn mixed_arithmetic_promotes_the_integer() {
    assert_eq!(
        eval("1 + 2.5"),
        Ok(RuntimeValue::Float(FloatTerm::Arith(FloatOp::Add, Box::new(FloatTerm::FromInt(1)), lit("2.5"))))
    );
    assert_eq!(
        eval("2.5 * 2"),
        Ok(RuntimeValue::Float(FloatTerm::Arith(FloatOp::Mul, lit("2.5"), Box::new(FloatTerm::FromInt(2)))))
    );
}

#[test]
fn promotion_never_demotes() {
    let v = eval("(1 + 2.0) - 3").unwrap();
    assert!(matches!(v, RuntimeValue::Float(_)));
    assert_eq!(eval("(1 + 2) - 3"), Ok(RuntimeValue::Integer(0)));
}

#[test]
fn negating_a_float_keeps_a_float() {
    assert_eq!(eval("-1.5"), Ok(RuntimeValue::Float(FloatTerm::Neg(lit("1.5")))));
}

#[test]
fn negating_a_string_is_a_type_error() {
    assert_eq!(eval("-\"a\""), Err(RuntimeError::TypeError(Expected::Number)));
}

#[test]
fn integer_comparisons() {
    assert_eq!(eval("1 < 2"), Ok(known(true)));
    assert_eq!(eval("2 <= 2"), Ok(known(true)));
    assert_eq!(eval("1 > 2"), Ok(known(false)));
    assert_eq!(eval("3 >= 4"), Ok(known(false)));
}

#[test]
fn float_comparison_is_a_truth_term() {
    assert_eq!(
        eval("1 < 2.0"),
        Ok(RuntimeValue::Boolean(Truth::Compare(CmpOp::Less, Box::new(FloatTerm::FromInt(1)), lit("2.0"))))
    );
}

#[test]
fn comparing_a_string_is_a_type_error() {
    assert_eq!(eval("\"a\" < 1"), Err(RuntimeError::TypeError(Expected::Numbers)));
    assert_eq!(eval("true - 1"), Err(RuntimeError::TypeError(Expected::Numbers)));
}

#[test]
fn equality_on_values() {
    assert_eq!(eval("1 == 1"), Ok(known(true)));
    assert_eq!(eval("1 != 1"), Ok(known(false)));
    assert_eq!(eval("\"a\" == \"a\""), Ok(known(true)));
    assert_eq!(eval("\"a\" == \"b\""), Ok(known(false)));
    assert_eq!(eval("true == false"), Ok(known(false)));
    assert_eq!(eval("true != \"true\""), Ok(known(true)));
}

#[test]
fn equality_is_symmetric_on_examples() {
    assert_eq!(eval("1 == 2"), eval("2 == 1"));
    assert_eq!(eval("\"x\" == 1"), eval("1 == \"x\""));
}

#[test]
fn integer_and_float_are_never_equal() {
    assert_eq!(eval("1 == 1.0"), Ok(known(false)));
    assert_eq!(eval("1.0 == 1"), Ok(known(false)));
    assert_eq!(eval("1 != 1.0"), Ok(known(true)));
}

#[test]
fn float_equality_is_a_truth_term() {
    assert_eq!(eval("1.0 == 1.0"), Ok(RuntimeValue::Boolean(Truth::FloatEq(lit("1.0"), lit("1.0")))));
}

#[test]
fn truthiness() {
    let i = Interpreter::new();
    assert_eq!(i.is_truthy(RuntimeValue::Null), Truth::Known(false));
    assert_eq!(i.is_truthy(RuntimeValue::Integer(0)), Truth::Known(true));
    assert_eq!(i.is_truthy(RuntimeValue::String(String::new())), Truth::Known(true));
    assert_eq!(eval("!0"), Ok(known(false)));
    assert_eq!(eval("!\"\""), Ok(known(false)));
    assert_eq!(eval("!false"), Ok(known(true)));
    assert_eq!(eval("!0.0"), Ok(known(false)));
}

#[test]
fn not_of_a_float_comparison_stays_a_term() {
    assert_eq!(
        eval("!(1.0 > 2.0)"),
        Ok(RuntimeValue::Boolean(Truth::Not(Box::new(Truth::Compare(CmpOp::Greater, lit("1.0"), lit("2.0"))))))
    );
}

#[test]
fn unsupported_operators_fail() {
    let i = Interpreter::new();
    assert_eq!(
        i.evaluate_binary(RuntimeValue::Integer(1), TokenType::Comma, RuntimeValue::Integer(2)),
        Err(RuntimeError::UnsupportedOperator)
    );
    assert_eq!(i.evaluate_unary(TokenType::Plus, RuntimeValue::Integer(1)), Err(RuntimeError::UnsupportedOperator));
}

#[test]
fn first_failure_wins() {
    assert_eq!(eval("(1 / 0) + \"a\""), Err(RuntimeError::DivisionByZero));
    assert_eq!(eval("(\"a\" - 1) / 0"), Err(RuntimeError::TypeError(Expected::Numbers)));
}

#[test]
fn runtime_error_messages() {
    assert_eq!(RuntimeError::DivisionByZero.to_text(), "Division by zero.");
    assert_eq!(RuntimeError::UnsupportedOperator.to_text(), "Unsupported operator.");
    assert_eq!(RuntimeError::TypeError(Expected::Number).to_text(), "Operand must be a number.");
    assert_eq!(RuntimeError::TypeError(Expected::Numbers).to_text(), "Operands must be numbers.");
    assert_eq!(
        RuntimeError::TypeError(Expected::NumbersOrStrings).to_text(),
        "Operands of '+' must be two numbers or two strings."
    );
}

#[test]
fn null_literal_evaluates_to_null() {
    assert_eq!(eval("null"), Ok(RuntimeValue::Null));
    assert_eq!(eval("null == null"), Ok(known(true)));
    assert_eq!(eval("!null"), Ok(known(true)));
    assert_eq!(eval("null == false"), Ok(known(false)));
}
