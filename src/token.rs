use vstd::prelude::*;

verus! {

/// The kind of a token. Identifier, string and float literals keep their
/// text in the token's lexeme; an integer literal carries its value.
#[derive(Clone, Copy, Debug, PartialEq, Eq, Structural)]
pub enum TokenType {
    // single-character punctuation
    LeftParen,
    RightParen,
    LeftBrace,
    RightBrace,
    LeftBracket,
    RightBracket,
    Comma,
    Question,
    Dot,
    Range,
    Spread,
    Colon,
    Semicolon,
    // arithmetic
    Minus,
    Plus,
    Slash,
    Star,
    // comparison and assignment
    Bang,
    BangEqual,
    Equal,
    EqualEqual,
    Greater,
    GreaterEqual,
    Less,
    LessEqual,
    Arrow,
    SimpleArrow,
    Increment,
    Decrement,
    // logical and bitwise
    And,
    BitAnd,
    OrLogical,
    OrBitwise,
    // literals
    Identifier,
    String,
    Integer(i64),
    Float,
    // modules
    Import,
    Export,
    From,
    As,
    // data types
    Enum,
    Type,
    Trait,
    Match,
    // control structures
    If,
    Else,
    Return,
    While,
    For,
    Loop,
    // declarations
    Fn,
    Let,
    Const,
    Struct,
    // constant values
    True,
    False,
    Null,
    // asynchronous
    Async,
    Await,
    // language-specific
    Component,
    Server,
    Client,
    Signal,
    Derived,
    Effect,
    Prop,
    Eof,
}

/// A token: its kind, the exact source text it was built from, and the line
/// on which it ended.
#[derive(Debug)]
pub struct Token {
    pub token_type: TokenType,
    pub lexeme: String,
    pub line: usize,
}

/// The mathematical value of a token: kind, lexeme characters and line.
pub type TokenView = (TokenType, Seq<char>, int);

impl View for Token {
    type V = TokenView;

    open spec fn view(&self) -> TokenView {
        (self.token_type, self.lexeme@, self.line as int)
    }
}

impl Clone for Token {
    fn clone(&self) -> (r: Self)
        ensures
            r@ == self@,
    {
        Token { token_type: self.token_type, lexeme: self.lexeme.clone(), line: self.line }
    }
}

impl Token {
    pub fn new(token_type: TokenType, lexeme: String, line: usize) -> (r: Self)
        ensures
            r.token_type == token_type,
            r.lexeme == lexeme,
            r.line == line,
    {
        Token { token_type, lexeme, line }
    }
}

} // verus!
