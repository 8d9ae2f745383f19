use shift::errors::{had_error, Diagnostics};
use shift::scanner::Scanner;
use shift::token::{Token, TokenType};

fn scan(source: &str) -> (Vec<Token>, Diagnostics) {
    let mut diag = Diagnostics::new();
    let mut scanner = Scanner::new(source);
    let tokens = scanner.scan_tokens(&mut diag);
    (tokens, diag)
}

fn kinds(tokens: &[Token]) -> Vec<TokenType> {
    tokens.iter().map(|t| t.token_type).collect()
}

#[test]
fn empty_source_gives_only_eof() {
    let (tokens, diag) = scan("");
    assert_eq!(tokens.len(), 1);
    assert_eq!(tokens[0].token_type, TokenType::Eof);
    assert_eq!(tokens[0].lexeme, "");
    assert_eq!(tokens[0].line, 1);
    assert!(!had_error(&diag));
}

#[test]
fn single_character_tokens() {
    let (tokens, _) = scan("(){}[],?:;*");
    assert_eq!(
        kinds(&tokens),
        vec![
            TokenType::LeftParen,
            TokenType::RightParen,
            TokenType::LeftBrace,
            TokenType::RightBrace,
            TokenType::LeftBracket,
            TokenType::RightBracket,
            TokenType::Comma,
            TokenType::Question,
            TokenType::Colon,
            TokenType::Semicolon,
            TokenType::Star,
            TokenType::Eof,
        ]
    );
}

#[test]
fn compound_operators_take_the_longest_match() {
    let (tokens, _) = scan("... .. . ++ + -- -> - != ! == => = <= < >= > && & || |");
    assert_eq!(
        kinds(&tokens),
        vec![
            TokenType::Spread,
            TokenType::Range,
            TokenType::Dot,
            TokenType::Increment,
            TokenType::Plus,
            TokenType::Decrement,
            TokenType::SimpleArrow,
            TokenType::Minus,
            TokenType::BangEqual,
            TokenType::Bang,
            TokenType::EqualEqual,
            TokenType::Arrow,
            TokenType::Equal,
            TokenType::LessEqual,
            TokenType::Less,
            TokenType::GreaterEqual,
            TokenType::Greater,
            TokenType::And,
            TokenType::BitAnd,
            TokenType::OrLogical,
            TokenType::OrBitwise,
            TokenType::Eof,
        ]
    );
    assert_eq!(tokens[0].lexeme, "...");
    assert_eq!(tokens[6].lexeme, "->");
}

#[test]
fn comments_produce_no_tokens() {
    let (tokens, _) = scan("1 // rest of line\n/* a /* nested */ comment\n */ 2");
    assert_eq!(kinds(&tokens), vec![TokenType::Integer(1), TokenType::Integer(2), TokenType::Eof]);
    assert_eq!(tokens[0].line, 1);
    assert_eq!(tokens[1].line, 3);
    assert_eq!(tokens[2].line, 3);
}

#[test]
fn unterminated_block_comment_consumes_the_rest() {
    let (tokens, diag) = scan("1 /* open /* twice */ 2");
    assert_eq!(kinds(&tokens), vec![TokenType::Integer(1), TokenType::Eof]);
    assert!(!had_error(&diag));
}

#[test]
fn newlines_advance_the_line_counter() {
    let (tokens, _) = scan("a\nb\r\n\tc");
    assert_eq!(tokens.iter().map(|t| t.line).collect::<Vec<_>>(), vec![1, 2, 3, 3]);
}

#[test]
fn string_literal_keeps_its_quotes_in_the_lexeme() {
    let (tokens, diag) = scan("\"hi\nthere\" x");
    assert_eq!(tokens[0].token_type, TokenType::String);
    assert_eq!(tokens[0].lexeme, "\"hi\nthere\"");
    assert_eq!(tokens[0].line, 2);
    assert_eq!(tokens[1].token_type, TokenType::Identifier);
    assert!(!had_error(&diag));
}

#[test]
fn unterminated_string_is_reported_and_scanning_ends() {
    let (tokens, diag) = scan("1 \"abc\ndef");
    assert_eq!(kinds(&tokens), vec![TokenType::Integer(1), TokenType::Eof]);
    assert!(had_error(&diag));
    assert_eq!(diag.reports.len(), 1);
    assert_eq!(diag.reports[0].message, "Unterminated string.");
    assert_eq!(diag.reports[0].line, 2);
    assert_eq!(tokens[1].line, 2);
}

#[test]
fn unexpected_character_is_reported_and_scanning_goes_on() {
    let (tokens, diag) = scan("1 @ 2 # 3");
    assert_eq!(
        kinds(&tokens),
        vec![TokenType::Integer(1), TokenType::Integer(2), TokenType::Integer(3), TokenType::Eof]
    );
    assert_eq!(diag.reports.len(), 2);
    assert_eq!(diag.reports[0].message, "Unexpected character.");
    assert_eq!(diag.reports[0].location, "");
    assert_eq!(diag.reports[1].line, 1);
}

#[test]
fn numbers_integer_and_float() {
    let (tokens, _) = scan("42 3.14 7.");
    assert_eq!(
        kinds(&tokens),
        vec![TokenType::Integer(42), TokenType::Float, TokenType::Integer(7), TokenType::Dot, TokenType::Eof]
    );
    assert_eq!(tokens[1].lexeme, "3.14");
    assert_eq!(tokens[2].lexeme, "7");
}

#[test]
fn integer_too_large_falls_back_to_zero() {
    let (tokens, _) = scan("9223372036854775807 9223372036854775808");
    assert_eq!(tokens[0].token_type, TokenType::Integer(i64::MAX));
    assert_eq!(tokens[1].token_type, TokenType::Integer(0));
    assert_eq!(tokens[1].lexeme, "9223372036854775808");
}

#[test]
fn keywords_and_identifiers() {
    let (tokens, _) = scan("fn function if else return true false let const loop while for enum type trait match");
    assert_eq!(
        kinds(&tokens),
        vec![
            TokenType::Fn,
            TokenType::Fn,
            TokenType::If,
            TokenType::Else,
            TokenType::Return,
            TokenType::True,
            TokenType::False,
            TokenType::Let,
            TokenType::Const,
            TokenType::Loop,
            TokenType::While,
            TokenType::For,
            TokenType::Enum,
            TokenType::Type,
            TokenType::Trait,
            TokenType::Match,
            TokenType::Eof,
        ]
    );
    let (tokens, _) = scan("server client component signal derived effect prop import export from as null");
    assert_eq!(
        kinds(&tokens),
        vec![
            TokenType::Server,
            TokenType::Client,
            TokenType::Component,
            TokenType::Signal,
            TokenType::Derived,
            TokenType::Effect,
            TokenType::Prop,
            TokenType::Import,
            TokenType::Export,
            TokenType::From,
            TokenType::As,
            TokenType::Null,
            TokenType::Eof,
        ]
    );
}

#[test]
fn identifiers_take_letters_digits_and_underscores() {
    let (tokens, diag) = scan("_foo1 Fn café x2y");
    assert_eq!(
        kinds(&tokens),
        vec![TokenType::Identifier, TokenType::Identifier, TokenType::Identifier, TokenType::Identifier, TokenType::Eof]
    );
    assert_eq!(tokens[0].lexeme, "_foo1");
    assert_eq!(tokens[2].lexeme, "café");
    assert_eq!(tokens[3].lexeme, "x2y");
    assert!(!had_error(&diag));
}

#[test]
fn non_ascii_letter_starts_an_identifier() {
    let (tokens, diag) = scan("élan");
    assert_eq!(kinds(&tokens), vec![TokenType::Identifier, TokenType::Eof]);
    assert_eq!(tokens[0].lexeme, "élan");
    assert!(!had_error(&diag));
}

#[test]
fn end_of_input_line_counts_every_newline() {
    let (tokens, _) = scan("a\n// c\n\"x\ny\"\n/* \n */ word\n");
    assert_eq!(tokens.last().unwrap().token_type, TokenType::Eof);
    assert_eq!(tokens.last().unwrap().line, 7);
    let (tokens, _) = scan("foo\nbar");
    assert_eq!(tokens.last().unwrap().line, 2);
}
