use shift::errors::Diagnostics;
use shift::expr::{Expr, LiteralValue};
use shift::parser::{Parser, ParserError};
use shift::scanner::Scanner;
use shift::token::{Token, TokenType};

fn parse(source: &str) -> Result<Expr, ParserError> {
    let mut diag = Diagnostics::new();
    let mut scanner = Scanner::new(source);
    let tokens = scanner.scan_tokens(&mut diag);
    let mut parser = Parser::new(tokens);
    parser.parse()
}

fn int_value(e: &Expr) -> i64 {
    match e {
        Expr::Literal { value: LiteralValue::Integer(i) } => *i,
        other => panic!("not an integer literal: {:?}", other),
    }
}

#[test]
fn multiplication_binds_tighter_than_addition() {
    let e = parse("1 + 2 * 3").unwrap();
    match e {
        Expr::Binary { left, operator, right } => {
            assert_eq!(operator.token_type, TokenType::Plus);
            assert_eq!(int_value(&left), 1);
            match *right {
                Expr::Binary { left, operator, right } => {
                    assert_eq!(operator.token_type, TokenType::Star);
                    assert_eq!(int_value(&left), 2);
                    assert_eq!(int_value(&right), 3);
                },
                other => panic!("unexpected right operand {:?}", other),
            }
        },
        other => panic!("unexpected tree {:?}", other),
    }
}

#[test]
fn subtraction_is_left_associative() {
    let e = parse("10 - 3 - 2").unwrap();
    match e {
        Expr::Binary { left, operator, right } => {
            assert_eq!(operator.token_type, TokenType::Minus);
            assert_eq!(int_value(&right), 2);
            match *left {
                Expr::Binary { left, right, .. } => {
                    assert_eq!(int_value(&left), 10);
                    assert_eq!(int_value(&right), 3);
                },
                other => panic!("unexpected left operand {:?}", other),
            }
        },
        other => panic!("unexpected tree {:?}", other),
    }
}

#[test]
fn parentheses_make_a_grouping() {
    let e = parse("(1 + 2) * 3").unwrap();
    match e {
        Expr::Binary { left, operator, .. } => {
            assert_eq!(operator.token_type, TokenType::Star);
            assert!(matches!(*left, Expr::Grouping { .. }));
        },
        other => panic!("unexpected tree {:?}", other),
    }
}

#[test]
fn unary_operators_nest_to_the_right() {
    let e = parse("!!true").unwrap();
    match e {
        Expr::Unary { operator, right } => {
            assert_eq!(operator.token_type, TokenType::Bang);
            match *right {
                Expr::Unary { operator, right } => {
                    assert_eq!(operator.token_type, TokenType::Bang);
                    assert!(matches!(*right, Expr::Literal { value: LiteralValue::Boolean(true) }));
                },
                other => panic!("unexpected operand {:?}", other),
            }
        },
        other => panic!("unexpected tree {:?}", other),
    }
}

#[test]
fn literals_of_each_kind() {
    assert!(matches!(parse("false").unwrap(), Expr::Literal { value: LiteralValue::Boolean(false) }));
    match parse("2.50").unwrap() {
        Expr::Literal { value: LiteralValue::Float(t) } => assert_eq!(t, "2.50"),
        other => panic!("unexpected tree {:?}", other),
    }
    match parse("\"a b\"").unwrap() {
        Expr::Literal { value: LiteralValue::String(s) } => assert_eq!(s, "a b"),
        other => panic!("unexpected tree {:?}", other),
    }
}

#[test]
fn empty_input_expects_an_expression() {
    let err = parse("").unwrap_err();
    assert_eq!(err.message, "Expect expression.");
    assert_eq!(err.token.token_type, TokenType::Eof);
    assert_eq!(err.token.line, 1);
}

#[test]
fn missing_close_paren_is_reported_at_the_next_token() {
    let err = parse("(1 + 2 3").unwrap_err();
    assert_eq!(err.message, "Expect ')' after expression");
    assert_eq!(err.token.token_type, TokenType::Integer(3));
    assert_eq!(err.token.lexeme, "3");
}

#[test]
fn double_minus_scans_as_decrement_and_is_rejected() {
    let err = parse("--5").unwrap_err();
    assert_eq!(err.message, "Expect expression.");
    assert_eq!(err.token.token_type, TokenType::Decrement);
}

#[test]
fn parse_stops_after_one_expression() {
    let mut diag = Diagnostics::new();
    let mut scanner = Scanner::new("1 2");
    let tokens = scanner.scan_tokens(&mut diag);
    let mut parser = Parser::new(tokens);
    assert_eq!(int_value(&parser.parse().unwrap()), 1);
    assert_eq!(int_value(&parser.parse().unwrap()), 2);
}

#[test]
fn recovery_skips_to_past_a_semicolon() {
    let tokens = vec![
        Token::new(TokenType::Plus, "+".to_string(), 1),
        Token::new(TokenType::Integer(1), "1".to_string(), 1),
        Token::new(TokenType::Semicolon, ";".to_string(), 1),
        Token::new(TokenType::Integer(2), "2".to_string(), 2),
        Token::new(TokenType::Eof, String::new(), 2),
    ];
    let mut parser = Parser::new(tokens);
    let err = parser.parse().unwrap_err();
    assert_eq!(err.token.token_type, TokenType::Plus);
    assert_eq!(int_value(&parser.parse().unwrap()), 2);
}

#[test]
fn recovery_stops_before_a_statement_keyword() {
    let tokens = vec![
        Token::new(TokenType::Star, "*".to_string(), 1),
        Token::new(TokenType::Integer(1), "1".to_string(), 1),
        Token::new(TokenType::Let, "let".to_string(), 1),
        Token::new(TokenType::Integer(2), "2".to_string(), 1),
        Token::new(TokenType::Eof, String::new(), 1),
    ];
    let mut parser = Parser::new(tokens);
    assert!(parser.parse().is_err());
    let err = parser.parse().unwrap_err();
    assert_eq!(err.token.token_type, TokenType::Let);
}

#[test]
fn precedence_tree_prints_in_prefix_form() {
    assert_eq!(parse("1 + 2 * 3").unwrap().to_text(), "(+ 1 (* 2 3))");
    assert_eq!(parse("(1 + 2) * 3").unwrap().to_text(), "(* (group (+ 1 2)) 3)");
    assert_eq!(parse("10 - 3 - 2").unwrap().to_text(), "(- (- 10 3) 2)");
    assert_eq!(parse("1 < 2 == !false").unwrap().to_text(), "(== (< 1 2) (! false))");
}

#[test]
fn literals_print_as_written() {
    assert_eq!(parse("\"hi\"").unwrap().to_text(), "\"hi\"");
    assert_eq!(parse("2.50").unwrap().to_text(), "2.50");
    assert_eq!(parse("- 7").unwrap().to_text(), "(- 7)");
    assert_eq!(LiteralValue::Integer(-42).to_text(), "-42");
    assert_eq!(LiteralValue::Integer(i64::MIN).to_text(), "-9223372036854775808");
    assert_eq!(LiteralValue::Integer(1234567).to_text(), "1234567");
    assert_eq!(LiteralValue::Null.to_text(), "null");
}

#[test]
fn syntax_error_text_names_line_and_lexeme() {
    let err = parse("1 +\n\n)").unwrap_err();
    assert_eq!(err.to_text(), "[Line 3] Error at ')': Expect expression.");
}

#[test]
fn parsing_stops_at_the_first_end_of_input() {
    let tokens = vec![
        Token::new(TokenType::Integer(4), "4".to_string(), 1),
        Token::new(TokenType::Eof, String::new(), 1),
        Token::new(TokenType::Integer(5), "5".to_string(), 2),
    ];
    let mut parser = Parser::new(tokens);
    assert_eq!(int_value(&parser.parse().unwrap()), 4);
    let err = parser.parse().unwrap_err();
    assert_eq!(err.token.token_type, TokenType::Eof);
    assert_eq!(err.message, "Expect expression.");
}

#[test]
fn null_is_a_literal() {
    assert!(matches!(parse("null").unwrap(), Expr::Literal { value: LiteralValue::Null }));
    assert_eq!(parse("null").unwrap().to_text(), "null");
}
