use vstd::prelude::*;
use vstd::string::{StrSliceExecFns, StringExecFns};

use crate::expr::{Expr, ExprView, LitView, LiteralValue};
use crate::text::{count_text, decimal};
use crate::token::{Token, TokenType, TokenView};

verus! {

/// A syntax error: the token where parsing failed and what was expected.
#[derive(Debug)]
pub struct ParserError {
    pub token: Token,
    pub message: String,
}

impl ParserError {
    /// The error as a line of text: `[Line L] Error at 'LEXEME': MESSAGE`.
    pub fn to_text(&self) -> (r: String)
        ensures
            r@ == "[Line "@ + decimal(self.token.line as int) + "] Error at '"@ + self.token.lexeme@
                + "': "@ + self.message@,
    {
        let line = count_text(self.token.line);
        String::from_str("[Line ").concat(line.as_str()).concat("] Error at '").concat(
            self.token.lexeme.as_str(),
        ).concat("': ").concat(self.message.as_str())
    }
}

/// The result of a grammar rule at some position: the tree and how many
/// tokens it took, or the position of the failing token and the message.
pub type Parsed = Result<(ExprView, nat), (int, Seq<char>)>;

/// Whether `k` is a binary operator of precedence `level`: 0 for `*` and
/// `/`, 1 for `+` and `-`, 2 for comparisons, 3 for equality.
pub open spec fn level_op(level: nat, k: TokenType) -> bool {
    if level == 0 {
        k == TokenType::Slash || k == TokenType::Star
    } else if level == 1 {
        k == TokenType::Minus || k == TokenType::Plus
    } else if level == 2 {
        k == TokenType::Greater || k == TokenType::GreaterEqual || k == TokenType::Less || k
            == TokenType::LessEqual
    } else {
        k == TokenType::BangEqual || k == TokenType::EqualEqual
    }
}

/// The text of a string literal's lexeme without its quotes.
pub open spec fn unquote(t: Seq<char>) -> Seq<char> {
    if t.len() >= 2 {
        t.subrange(1, t.len() - 1)
    } else {
        Seq::empty()
    }
}

pub open spec fn expect_expression() -> Seq<char> {
    "Expect expression."@
}

pub open spec fn expect_close() -> Seq<char> {
    "Expect ')' after expression"@
}

/// Adds `d` tokens to what a successful rule took.
pub open spec fn shift(r: Parsed, d: int) -> Parsed {
    match r {
        Ok((e, c)) => Ok((e, (c + d) as nat)),
        Err(e) => Err(e),
    }
}

/// How many tokens remain from position `p`; the measure that the grammar
/// rules decrease.
pub open spec fn remaining(ts: Seq<TokenView>, p: int) -> nat {
    if p < ts.len() {
        (ts.len() - p) as nat
    } else {
        0
    }
}

/// `expression → equality`
pub open spec fn expression(ts: Seq<TokenView>, p: int) -> Parsed
    decreases remaining(ts, p), 10int,
{
    if p < 0 || p >= ts.len() {
        Err((p, expect_expression()))
    } else {
        binary(ts, p, 3)
    }
}

/// A left-associative level: an operand, then any number of operators of
/// this level each followed by an operand.
pub open spec fn binary(ts: Seq<TokenView>, p: int, level: nat) -> Parsed
    decreases remaining(ts, p), 2 * level + 3,
{
    if p < 0 || p >= ts.len() || level > 3 {
        Err((p, expect_expression()))
    } else {
        let first = if level == 0 {
            unary(ts, p)
        } else {
            binary(ts, p, (level - 1) as nat)
        };
        match first {
            Err(e) => Err(e),
            Ok((l, c)) => shift(binary_rest(ts, l, p + c, level), c as int),
        }
    }
}

/// The operators and operands of a level that follow `left`, folded to the
/// left, from position `q`.
pub open spec fn binary_rest(ts: Seq<TokenView>, left: ExprView, q: int, level: nat) -> Parsed
    decreases remaining(ts, q), 2 * level + 2,
{
    if q < 0 || q >= ts.len() || level > 3 || !level_op(level, ts[q].0) {
        Ok((left, 0))
    } else {
        let right = if level == 0 {
            unary(ts, q + 1)
        } else {
            binary(ts, q + 1, (level - 1) as nat)
        };
        match right {
            Err(e) => Err(e),
            Ok((r, c)) => shift(
                binary_rest(ts, ExprView::Binary(Box::new(left), ts[q], Box::new(r)), q + 1 + c, level),
                1 + c as int,
            ),
        }
    }
}

/// `unary → ("!" | "-") unary | primary`
pub open spec fn unary(ts: Seq<TokenView>, p: int) -> Parsed
    decreases remaining(ts, p), 1int,
{
    if p < 0 || p >= ts.len() {
        Err((p, expect_expression()))
    } else if ts[p].0 == TokenType::Bang || ts[p].0 == TokenType::Minus {
        match unary(ts, p + 1) {
            Err(e) => Err(e),
            Ok((r, c)) => Ok((ExprView::Unary(ts[p], Box::new(r)), c + 1)),
        }
    } else {
        primary(ts, p)
    }
}

/// `primary → literal | "(" expression ")"`
pub open spec fn primary(ts: Seq<TokenView>, p: int) -> Parsed
    decreases remaining(ts, p), 0int,
{
    if p < 0 || p >= ts.len() {
        Err((p, expect_expression()))
    } else {
        match ts[p].0 {
            TokenType::False => Ok((ExprView::Literal(LitView::Boolean(false)), 1)),
            TokenType::True => Ok((ExprView::Literal(LitView::Boolean(true)), 1)),
            TokenType::Null => Ok((ExprView::Literal(LitView::Null), 1)),
            TokenType::Integer(i) => Ok((ExprView::Literal(LitView::Integer(i)), 1)),
            TokenType::Float => Ok((ExprView::Literal(LitView::Float(ts[p].1)), 1)),
            TokenType::String => Ok((ExprView::Literal(LitView::Str(unquote(ts[p].1))), 1)),
            TokenType::LeftParen => match expression(ts, p + 1) {
                Err(e) => Err(e),
                Ok((e, c)) => {
                    let q = p + 1 + c;
                    if q < ts.len() && ts[q].0 == TokenType::RightParen {
                        Ok((ExprView::Grouping(Box::new(e)), c + 2))
                    } else {
                        Err((q, expect_close()))
                    }
                },
            },
            _ => Err((p, expect_expression())),
        }
    }
}

/// The cursor after moving past the token at `p`, which stays put at the
/// end of input.
pub open spec fn advanced(ts: Seq<TokenView>, p: int) -> int {
    if ts[p].0 == TokenType::Eof {
        p
    } else {
        p + 1
    }
}

/// Whether a token starts a statement or declaration; recovery stops
/// before one.
pub open spec fn starts_statement(k: TokenType) -> bool {
    k == TokenType::Import || k == TokenType::Export || k == TokenType::Match || k == TokenType::If
        || k == TokenType::Enum || k == TokenType::Type || k == TokenType::Trait || k
        == TokenType::Else || k == TokenType::While || k == TokenType::For || k == TokenType::Loop
        || k == TokenType::Fn || k == TokenType::Let || k == TokenType::Const || k
        == TokenType::Struct || k == TokenType::Component || k == TokenType::Server || k
        == TokenType::Client
}

/// The kind of the token before position `p` (the first token at 0).
pub open spec fn previous_kind(ts: Seq<TokenView>, p: int) -> TokenType {
    if p == 0 {
        ts[0].0
    } else {
        ts[p - 1].0
    }
}

/// Recovery from position `p`: stop at the end of input, just past a
/// semicolon, or before a statement keyword.
pub open spec fn recover_from(ts: Seq<TokenView>, p: int) -> int
    decreases ts.len() - p,
{
    if p < 0 || p >= ts.len() || ts[p].0 == TokenType::Eof || previous_kind(ts, p)
        == TokenType::Semicolon || starts_statement(ts[p].0) {
        p
    } else {
        recover_from(ts, p + 1)
    }
}

/// Where panic-mode recovery after an error at `p` leaves the cursor: one
/// token is skipped unconditionally, then tokens up to a boundary.
pub open spec fn recovery_point(ts: Seq<TokenView>, p: int) -> int {
    recover_from(ts, advanced(ts, p))
}

/// Whether an executable result agrees with a rule's outcome, for a rule
/// applied at `start` that left the cursor at `end`.
pub open spec fn agrees(
    ts: Seq<TokenView>,
    start: int,
    end: int,
    r: &Result<Expr, ParserError>,
    s: Parsed,
) -> bool {
    match (r, s) {
        (Ok(x), Ok((e, c))) => x.tree() == e && end == start + c,
        (Err(x), Err((q, m))) => end == q && 0 <= q < ts.len() && x.token@ == ts[q] && x.message@ == m,
        _ => false,
    }
}

/// A parser over a token sequence that ends with the end-of-input token.
#[derive(Debug)]
pub struct Parser {
    tokens: Vec<Token>,
    current: usize,
}

impl Parser {
    /// The tokens.
    pub closed spec fn token_views(&self) -> Seq<TokenView> {
        self.tokens@.map_values(|t: Token| t@)
    }

    /// The cursor.
    pub closed spec fn position(&self) -> int {
        self.current as int
    }

    /// An end-of-input token stands at or after the cursor, so the cursor
    /// never runs past the tokens.
    pub closed spec fn wf(&self) -> bool {
        &&& self.current < self.tokens@.len()
        &&& exists|e: int|
            self.current <= e < self.tokens@.len() && (#[trigger] self.tokens@[e]).token_type
                == TokenType::Eof
    }

    /// A parser at the first of `tokens`, which must hold an end-of-input
    /// token, as the scanner's output does; parsing stops at the first one.
    pub fn new(tokens: Vec<Token>) -> (r: Self)
        requires
            exists|e: int| 0 <= e < tokens@.len() && (#[trigger] tokens@[e]).token_type == TokenType::Eof,
        ensures
            r.wf(),
            r.token_views() == tokens@.map_values(|t: Token| t@),
            r.position() == 0,
    {
        Parser { tokens, current: 0 }
    }

    /// Parses one expression. On a syntax error it returns the first error
    /// and moves the cursor past the tokens that panic-mode recovery skips.
    pub fn parse(&mut self) -> (r: Result<Expr, ParserError>)
        requires
            old(self).wf(),
        ensures
            final(self).wf(),
            final(self).token_views() == old(self).token_views(),
            match expression(old(self).token_views(), old(self).position()) {
                Ok((e, c)) => r is Ok && final(self).position() == old(self).position() + c,
                Err((q, m)) => r is Err && final(self).position() == recovery_point(
                    old(self).token_views(),
                    q,
                ),
            },
            match (r, expression(old(self).token_views(), old(self).position())) {
                (Ok(x), Ok((e, c))) => x.tree() == e,
                (Err(x), Err((q, m))) => x.token@ == old(self).token_views()[q] && x.message@ == m,
                _ => false,
            },
    {
        match self.expression() {
            Ok(e) => Ok(e),
            Err(err) => {
                self.synchronize();
                Err(err)
            },
        }
    }

    fn expression(&mut self) -> (r: Result<Expr, ParserError>)
        requires
            old(self).wf(),
        ensures
            final(self).wf(),
            final(self).token_views() == old(self).token_views(),
            agrees(
                old(self).token_views(),
                old(self).position(),
                final(self).position(),
                &r,
                expression(old(self).token_views(), old(self).position()),
            ),
        decreases old(self).tokens@.len() - old(self).current, 11int,
    {
        self.equality()
    }

    fn equality(&mut self) -> (r: Result<Expr, ParserError>)
        requires
            old(self).wf(),
        ensures
            final(self).wf(),
            final(self).token_views() == old(self).token_views(),
            agrees(
                old(self).token_views(),
                old(self).position(),
                final(self).position(),
                &r,
                binary(old(self).token_views(), old(self).position(), 3),
            ),
        decreases old(self).tokens@.len() - old(self).current, 10int,
    {
        self.binary(3)
    }

    /// One left-associative level of binary operators (see `level_op`).
    fn binary(&mut self, level: u8) -> (r: Result<Expr, ParserError>)
        requires
            old(self).wf(),
            level <= 3,
        ensures
            final(self).wf(),
            final(self).token_views() == old(self).token_views(),
            agrees(
                old(self).token_views(),
                old(self).position(),
                final(self).position(),
                &r,
                binary(old(self).token_views(), old(self).position(), level as nat),
            ),
        decreases old(self).tokens@.len() - old(self).current, 2 * level + 3,
    {
        let ghost ts = self.token_views();
        let ghost p = self.current as int;
        let ghost total = binary(ts, p, level as nat);
        let first = if level == 0 {
            self.unary()
        } else {
            self.binary(level - 1)
        };
        let mut expr = match first {
            Ok(e) => e,
            Err(e) => return Err(e),
        };
        loop
            invariant
                self.wf(),
                self.token_views() == ts,
                p == old(self).current,
                ts == old(self).token_views(),
                total == binary(ts, p, level as nat),
                p <= self.current,
                level <= 3,
                total == shift(binary_rest(ts, expr.tree(), self.current as int, level as nat), self.current - p),
            decreases self.tokens@.len() - self.current,
        {
            if !self.match_level(level) {
                return Ok(expr);
            }
            let operator = self.previous();
            let right = if level == 0 {
                self.unary()
            } else {
                self.binary(level - 1)
            };
            match right {
                Ok(r) => {
                    expr = Expr::Binary { left: Box::new(expr), operator, right: Box::new(r) };
                },
                Err(e) => return Err(e),
            }
        }
    }

    fn unary(&mut self) -> (r: Result<Expr, ParserError>)
        requires
            old(self).wf(),
        ensures
            final(self).wf(),
            final(self).token_views() == old(self).token_views(),
            agrees(
                old(self).token_views(),
                old(self).position(),
                final(self).position(),
                &r,
                unary(old(self).token_views(), old(self).position()),
            ),
        decreases old(self).tokens@.len() - old(self).current, 1int,
    {
        let k = self.peek_type();
        if matches!(k, TokenType::Bang | TokenType::Minus) {
            self.advance();
            let operator = self.previous();
            let right = self.unary()?;
            return Ok(Expr::Unary { operator, right: Box::new(right) });
        }
        self.primary()
    }

    fn primary(&mut self) -> (r: Result<Expr, ParserError>)
        requires
            old(self).wf(),
        ensures
            final(self).wf(),
            final(self).token_views() == old(self).token_views(),
            agrees(
                old(self).token_views(),
                old(self).position(),
                final(self).position(),
                &r,
                primary(old(self).token_views(), old(self).position()),
            ),
        decreases old(self).tokens@.len() - old(self).current, 0int,
    {
        let k = self.peek_type();
        match k {
            TokenType::False => {
                self.advance();
                Ok(Expr::Literal { value: LiteralValue::Boolean(false) })
            },
            TokenType::True => {
                self.advance();
                Ok(Expr::Literal { value: LiteralValue::Boolean(true) })
            },
            TokenType::Null => {
                self.advance();
                Ok(Expr::Literal { value: LiteralValue::Null })
            },
            TokenType::Integer(i) => {
                self.advance();
                Ok(Expr::Literal { value: LiteralValue::Integer(i) })
            },
            TokenType::Float => {
                let text = self.tokens[self.current].lexeme.clone();
                self.advance();
                Ok(Expr::Literal { value: LiteralValue::Float(text) })
            },
            TokenType::String => {
                let text = string_contents(&self.tokens[self.current].lexeme);
                self.advance();
                Ok(Expr::Literal { value: LiteralValue::String(text) })
            },
            TokenType::LeftParen => {
                self.advance();
                let e = self.expression()?;
                self.consume(TokenType::RightParen, "Expect ')' after expression")?;
                Ok(Expr::Grouping { expression: Box::new(e) })
            },
            _ => Err(self.error_here("Expect expression.")),
        }
    }

    fn peek_type(&self) -> (k: TokenType)
        requires
            self.wf(),
        ensures
            k == self.token_views()[self.position()].0,
    {
        self.tokens[self.current].token_type
    }

    fn is_at_end(&self) -> (r: bool)
        requires
            self.wf(),
        ensures
            r == (self.token_views()[self.position()].0 == TokenType::Eof),
    {
        matches!(self.tokens[self.current].token_type, TokenType::Eof)
    }

    /// Whether the current token is of kind `k` and not the end of input.
    fn check(&self, k: TokenType) -> (r: bool)
        requires
            self.wf(),
        ensures
            r == (self.token_views()[self.position()].0 != TokenType::Eof
                && self.token_views()[self.position()].0 == k),
    {
        if self.is_at_end() {
            return false;
        }
        self.tokens[self.current].token_type == k
    }

    /// Moves past the current token unless it is the end of input.
    fn advance(&mut self)
        requires
            old(self).wf(),
        ensures
            final(self).wf(),
            final(self).tokens == old(self).tokens,
            final(self).position() == advanced(old(self).token_views(), old(self).position()),
    {
        if !self.is_at_end() {
            assert(self.tokens@[self.current as int].token_type == self.token_views()[self.position()].0);
            let ghost e = choose|e: int|
                self.current <= e < self.tokens@.len() && (#[trigger] self.tokens@[e]).token_type
                    == TokenType::Eof;
            assert(e != self.current);
            let n = self.tokens.len();
            assert(self.current + 1 < n);
            self.current = self.current + 1;
            assert(self.tokens@[e].token_type == TokenType::Eof);
        }
    }

    /// A copy of the token before the cursor (the first token at the start).
    fn previous(&self) -> (t: Token)
        requires
            self.wf(),
        ensures
            t@ == self.token_views()[if self.current == 0 {
                0
            } else {
                self.current - 1
            }],
    {
        if self.current == 0 {
            return self.tokens[0].clone();
        }
        self.tokens[self.current - 1].clone()
    }

    /// Moves past the current token if it is an operator of `level`.
    fn match_level(&mut self, level: u8) -> (r: bool)
        requires
            old(self).wf(),
        ensures
            final(self).wf(),
            final(self).tokens == old(self).tokens,
            r == level_op(level as nat, old(self).token_views()[old(self).position()].0),
            final(self).current == old(self).current + if r {
                1usize
            } else {
                0
            },
    {
        let k = self.peek_type();
        let is_op = if level == 0 {
            matches!(k, TokenType::Slash | TokenType::Star)
        } else if level == 1 {
            matches!(k, TokenType::Minus | TokenType::Plus)
        } else if level == 2 {
            matches!(k, TokenType::Greater | TokenType::GreaterEqual | TokenType::Less | TokenType::LessEqual)
        } else {
            matches!(k, TokenType::BangEqual | TokenType::EqualEqual)
        };
        if is_op {
            self.advance();
        }
        is_op
    }

    /// A syntax error at the current token.
    fn error_here(&self, message: &str) -> (e: ParserError)
        requires
            self.wf(),
        ensures
            e.token@ == self.token_views()[self.position()],
            e.message@ == message@,
    {
        ParserError { token: self.tokens[self.current].clone(), message: String::from_str(message) }
    }

    /// Moves past a token of kind `k`, or fails with `message` at the
    /// current token.
    fn consume(&mut self, k: TokenType, message: &str) -> (r: Result<(), ParserError>)
        requires
            old(self).wf(),
        ensures
            final(self).wf(),
            final(self).tokens == old(self).tokens,
            match r {
                Ok(_) => old(self).token_views()[old(self).position()].0 != TokenType::Eof
                    && old(self).token_views()[old(self).position()].0 == k && final(self).current
                    == old(self).current + 1,
                Err(e) => !(old(self).token_views()[old(self).position()].0 != TokenType::Eof
                    && old(self).token_views()[old(self).position()].0 == k) && final(self).current
                    == old(self).current && e.token@ == old(self).token_views()[old(self).position()]
                    && e.message@ == message@,
            },
    {
        if self.check(k) {
            self.advance();
            Ok(())
        } else {
            Err(self.error_here(message))
        }
    }

    /// Panic-mode recovery: skips one token, then tokens up to just past a
    /// semicolon or up to a statement keyword or the end of input.
    fn synchronize(&mut self)
        requires
            old(self).wf(),
        ensures
            final(self).wf(),
            final(self).tokens == old(self).tokens,
            final(self).position() == recovery_point(old(self).token_views(), old(self).position()),
    {
        let ghost ts = self.token_views();
        self.advance();
        while !self.is_at_end()
            invariant
                self.wf(),
                self.tokens == old(self).tokens,
                ts == self.token_views(),
                recover_from(ts, self.current as int) == recovery_point(ts, old(self).current as int),
            decreases self.tokens@.len() - self.current,
        {
            let prev = self.previous();
            if matches!(prev.token_type, TokenType::Semicolon) {
                return;
            }
            let k = self.peek_type();
            if matches!(
                k,
                TokenType::Import | TokenType::Export | TokenType::Match | TokenType::If
                    | TokenType::Enum | TokenType::Type | TokenType::Trait | TokenType::Else
                    | TokenType::While | TokenType::For | TokenType::Loop | TokenType::Fn
                    | TokenType::Let | TokenType::Const | TokenType::Struct | TokenType::Component
                    | TokenType::Server | TokenType::Client
            ) {
                return;
            }
            self.advance();
        }
    }
}

/// The characters of a string literal's lexeme between its quotes.
fn string_contents(lexeme: &String) -> (r: String)
    ensures
        r@ == unquote(lexeme@),
{
    let s = lexeme.as_str();
    let n = s.unicode_len();
    if n >= 2 {
        String::from_str(s.substring_char(1, n - 1))
    } else {
        String::new()
    }
}

} // verus!
