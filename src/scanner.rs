use vstd::prelude::*;
use vstd::slice::slice_subrange;

use crate::errors::{error, Diagnostics};
use crate::text::{
    alphabetic, alphanumeric, chars_equal, chars_of, is_alphabetic, is_alphanumeric, string_of,
};
use crate::token::{Token, TokenType, TokenView};

verus! {

/// A report as (line, location hint, message).
pub type ReportView = (int, Seq<char>, Seq<char>);

/// The outcome of scanning one lexeme that starts at some position: where
/// it ends, the line counter after it, the kind of token it yields (if any)
/// and the error message it reports (if any).
pub type Step = (int, int, Option<TokenType>, Option<Seq<char>>);

pub open spec fn at(s: Seq<char>, i: int, c: char) -> bool {
    0 <= i < s.len() && s[i] == c
}

pub open spec fn is_digit(c: char) -> bool {
    '0' <= c && c <= '9'
}

pub open spec fn is_ident_char(c: char) -> bool {
    alphanumeric(c) || c == '_'
}

/// The end of the run of decimal digits that starts at `i`.
pub open spec fn digits_end(s: Seq<char>, i: int) -> int
    decreases s.len() - i,
{
    if 0 <= i < s.len() && is_digit(s[i]) {
        digits_end(s, i + 1)
    } else {
        i
    }
}

/// The end of the run of identifier characters that starts at `i`.
pub open spec fn ident_end(s: Seq<char>, i: int) -> int
    decreases s.len() - i,
{
    if 0 <= i < s.len() && is_ident_char(s[i]) {
        ident_end(s, i + 1)
    } else {
        i
    }
}

/// The first position at or after `i` that holds `c`, or the length.
pub open spec fn find_char(s: Seq<char>, i: int, c: char) -> int
    decreases s.len() - i,
{
    if 0 <= i < s.len() && s[i] != c {
        find_char(s, i + 1, c)
    } else {
        i
    }
}

/// The number of newlines in `s[a..b]`.
pub open spec fn newlines(s: Seq<char>, a: int, b: int) -> int
    decreases b - a,
{
    if b <= a {
        0
    } else {
        newlines(s, a, b - 1) + if s[b - 1] == '\n' { 1int } else { 0 }
    }
}

/// The end of a block comment whose body starts at `i` at nesting `depth`:
/// `/*` opens a level, `*/` closes one, and the end of input closes all.
pub open spec fn block_end(s: Seq<char>, i: int, depth: nat) -> int
    decreases s.len() - i,
{
    if depth == 0 || i < 0 || i >= s.len() {
        i
    } else if at(s, i, '/') && at(s, i + 1, '*') {
        block_end(s, i + 2, depth + 1)
    } else if at(s, i, '*') && at(s, i + 1, '/') {
        block_end(s, i + 2, (depth - 1) as nat)
    } else {
        block_end(s, i + 1, depth)
    }
}

/// The value of a run of decimal digits.
pub open spec fn digits_value(t: Seq<char>) -> nat
    decreases t.len(),
{
    if t.len() == 0 {
        0
    } else {
        digits_value(t.drop_last()) * 10 + (t.last() as nat - '0' as nat) as nat
    }
}

/// An integer literal's value; one too large for 64 bits reads as zero.
pub open spec fn integer_value(t: Seq<char>) -> i64 {
    if digits_value(t) <= i64::MAX {
        digits_value(t) as i64
    } else {
        0
    }
}

/// The token kind of a word: a keyword, or else an identifier.
pub open spec fn word_kind(t: Seq<char>) -> TokenType {
    if t == "fn"@ || t == "function"@ {
        TokenType::Fn
    } else if t == "if"@ {
        TokenType::If
    } else if t == "else"@ {
        TokenType::Else
    } else if t == "return"@ {
        TokenType::Return
    } else if t == "true"@ {
        TokenType::True
    } else if t == "false"@ {
        TokenType::False
    } else if t == "let"@ {
        TokenType::Let
    } else if t == "const"@ {
        TokenType::Const
    } else if t == "loop"@ {
        TokenType::Loop
    } else if t == "while"@ {
        TokenType::While
    } else if t == "for"@ {
        TokenType::For
    } else if t == "enum"@ {
        TokenType::Enum
    } else if t == "type"@ {
        TokenType::Type
    } else if t == "trait"@ {
        TokenType::Trait
    } else if t == "match"@ {
        TokenType::Match
    } else if t == "server"@ {
        TokenType::Server
    } else if t == "client"@ {
        TokenType::Client
    } else if t == "component"@ {
        TokenType::Component
    } else if t == "signal"@ {
        TokenType::Signal
    } else if t == "derived"@ {
        TokenType::Derived
    } else if t == "effect"@ {
        TokenType::Effect
    } else if t == "prop"@ {
        TokenType::Prop
    } else if t == "import"@ {
        TokenType::Import
    } else if t == "export"@ {
        TokenType::Export
    } else if t == "from"@ {
        TokenType::From
    } else if t == "as"@ {
        TokenType::As
    } else if t == "null"@ {
        TokenType::Null
    } else {
        TokenType::Identifier
    }
}

pub open spec fn emit(end: int, line: int, kind: TokenType) -> Step {
    (end, line, Some(kind), None)
}

pub open spec fn skip(end: int, line: int) -> Step {
    (end, line, None, None)
}

/// A number starting at `start`: digits, then a fraction only where a digit
/// follows the dot.
pub open spec fn number_step(s: Seq<char>, start: int, line: int) -> Step {
    let d = digits_end(s, start + 1);
    if at(s, d, '.') && d + 1 < s.len() && is_digit(s[d + 1]) {
        emit(digits_end(s, d + 1), line, TokenType::Float)
    } else {
        emit(d, line, TokenType::Integer(integer_value(s.subrange(start, d))))
    }
}

/// A string literal whose opening quote is at `start`.
pub open spec fn string_step(s: Seq<char>, start: int, line: int) -> Step {
    let k = find_char(s, start + 1, '"');
    let l = line + newlines(s, start + 1, k);
    if k >= s.len() {
        (k, l, None, Some("Unterminated string."@))
    } else {
        emit(k + 1, l, TokenType::String)
    }
}

/// Scanning the lexeme that starts at `start` (a valid position).
pub open spec fn step(s: Seq<char>, start: int, line: int) -> Step {
    let c = s[start];
    let n = start + 1;
    if c == '(' {
        emit(n, line, TokenType::LeftParen)
    } else if c == ')' {
        emit(n, line, TokenType::RightParen)
    } else if c == '{' {
        emit(n, line, TokenType::LeftBrace)
    } else if c == '}' {
        emit(n, line, TokenType::RightBrace)
    } else if c == '[' {
        emit(n, line, TokenType::LeftBracket)
    } else if c == ']' {
        emit(n, line, TokenType::RightBracket)
    } else if c == ',' {
        emit(n, line, TokenType::Comma)
    } else if c == '?' {
        emit(n, line, TokenType::Question)
    } else if c == ':' {
        emit(n, line, TokenType::Colon)
    } else if c == ';' {
        emit(n, line, TokenType::Semicolon)
    } else if c == '*' {
        emit(n, line, TokenType::Star)
    } else if c == '.' {
        if at(s, n, '.') {
            if at(s, n + 1, '.') {
                emit(n + 2, line, TokenType::Spread)
            } else {
                emit(n + 1, line, TokenType::Range)
            }
        } else {
            emit(n, line, TokenType::Dot)
        }
    } else if c == '+' {
        if at(s, n, '+') {
            emit(n + 1, line, TokenType::Increment)
        } else {
            emit(n, line, TokenType::Plus)
        }
    } else if c == '-' {
        if at(s, n, '-') {
            emit(n + 1, line, TokenType::Decrement)
        } else if at(s, n, '>') {
            emit(n + 1, line, TokenType::SimpleArrow)
        } else {
            emit(n, line, TokenType::Minus)
        }
    } else if c == '!' {
        if at(s, n, '=') {
            emit(n + 1, line, TokenType::BangEqual)
        } else {
            emit(n, line, TokenType::Bang)
        }
    } else if c == '=' {
        if at(s, n, '=') {
            emit(n + 1, line, TokenType::EqualEqual)
        } else if at(s, n, '>') {
            emit(n + 1, line, TokenType::Arrow)
        } else {
            emit(n, line, TokenType::Equal)
        }
    } else if c == '<' {
        if at(s, n, '=') {
            emit(n + 1, line, TokenType::LessEqual)
        } else {
            emit(n, line, TokenType::Less)
        }
    } else if c == '>' {
        if at(s, n, '=') {
            emit(n + 1, line, TokenType::GreaterEqual)
        } else {
            emit(n, line, TokenType::Greater)
        }
    } else if c == '/' {
        if at(s, n, '/') {
            skip(find_char(s, n + 1, '\n'), line)
        } else if at(s, n, '*') {
            let e = block_end(s, n + 1, 1);
            skip(e, line + newlines(s, n + 1, e))
        } else {
            emit(n, line, TokenType::Slash)
        }
    } else if c == '&' {
        if at(s, n, '&') {
            emit(n + 1, line, TokenType::And)
        } else {
            emit(n, line, TokenType::BitAnd)
        }
    } else if c == '|' {
        if at(s, n, '|') {
            emit(n + 1, line, TokenType::OrLogical)
        } else {
            emit(n, line, TokenType::OrBitwise)
        }
    } else if c == ' ' || c == '\r' || c == '\t' {
        skip(n, line)
    } else if c == '\n' {
        skip(n, line + 1)
    } else if c == '"' {
        string_step(s, start, line)
    } else if is_digit(c) {
        number_step(s, start, line)
    } else if alphabetic(c) || c == '_' {
        let e = ident_end(s, n);
        emit(e, line, word_kind(s.subrange(start, e)))
    } else {
        (n, line, None, Some("Unexpected character."@))
    }
}

/// The token that a step starting at `start` adds, if any.
pub open spec fn step_tokens(s: Seq<char>, start: int, st: Step) -> Seq<TokenView> {
    match st.2 {
        Some(k) => seq![(k, s.subrange(start, st.0), st.1)],
        None => seq![],
    }
}

/// The report that a step adds, if any.
pub open spec fn step_reports(st: Step) -> Seq<ReportView> {
    match st.3 {
        Some(m) => seq![(st.1, Seq::<char>::empty(), m)],
        None => seq![],
    }
}

/// Scanning from position `pos` with line counter `line` to the end of `s`:
/// the tokens, the reports and the final line counter.
pub open spec fn lex(s: Seq<char>, pos: int, line: int) -> (Seq<TokenView>, Seq<ReportView>, int)
    decreases s.len() - pos,
    via lex_decreases
{
    if pos < 0 || pos >= s.len() {
        (seq![], seq![], line)
    } else {
        let st = step(s, pos, line);
        let rest = lex(s, st.0, st.1);
        (step_tokens(s, pos, st) + rest.0, step_reports(st) + rest.1, rest.2)
    }
}

#[via_fn]
proof fn lex_decreases(s: Seq<char>, pos: int, line: int) {
    if 0 <= pos < s.len() {
        lemma_step_bounds(s, pos, line);
    }
}

/// The tokens of scanning `s` from `pos`, closed by the end-of-input token.
pub open spec fn scan_from(s: Seq<char>, pos: int, line: int) -> Seq<TokenView> {
    let l = lex(s, pos, line);
    l.0.push((TokenType::Eof, Seq::<char>::empty(), l.2))
}

/// The tokens of a whole source text.
pub open spec fn scan(s: Seq<char>) -> Seq<TokenView> {
    scan_from(s, 0, 1)
}

/// The errors reported while scanning a whole source text.
pub open spec fn scan_errors(s: Seq<char>) -> Seq<ReportView> {
    lex(s, 0, 1).1
}

proof fn lemma_digits_end(s: Seq<char>, i: int)
    requires
        0 <= i <= s.len(),
    ensures
        i <= digits_end(s, i) <= s.len(),
        forall|k: int| i <= k < digits_end(s, i) ==> is_digit(#[trigger] s[k]),
    decreases s.len() - i,
{
    if i < s.len() && is_digit(s[i]) {
        lemma_digits_end(s, i + 1);
    }
}

proof fn lemma_ident_end(s: Seq<char>, i: int)
    requires
        0 <= i <= s.len(),
    ensures
        i <= ident_end(s, i) <= s.len(),
        forall|k: int| i <= k < ident_end(s, i) ==> is_ident_char(#[trigger] s[k]),
    decreases s.len() - i,
{
    if i < s.len() && is_ident_char(s[i]) {
        lemma_ident_end(s, i + 1);
    }
}

proof fn lemma_find_char(s: Seq<char>, i: int, c: char)
    requires
        0 <= i <= s.len(),
    ensures
        i <= find_char(s, i, c) <= s.len(),
        find_char(s, i, c) < s.len() ==> s[find_char(s, i, c)] == c,
        forall|k: int| i <= k < find_char(s, i, c) ==> s[k] != c,
    decreases s.len() - i,
{
    if i < s.len() && s[i] != c {
        lemma_find_char(s, i + 1, c);
    }
}

proof fn lemma_block_end(s: Seq<char>, i: int, depth: nat)
    requires
        0 <= i <= s.len(),
    ensures
        i <= block_end(s, i, depth) <= s.len(),
    decreases s.len() - i,
{
    if depth == 0 || i >= s.len() {
    } else if at(s, i, '/') && at(s, i + 1, '*') {
        lemma_block_end(s, i + 2, depth + 1);
    } else if at(s, i, '*') && at(s, i + 1, '/') {
        lemma_block_end(s, i + 2, (depth - 1) as nat);
    } else {
        lemma_block_end(s, i + 1, depth);
    }
}

/// Each step consumes at least one character and stays within the text.
proof fn lemma_step_bounds(s: Seq<char>, start: int, line: int)
    requires
        0 <= start < s.len(),
    ensures
        start < step(s, start, line).0 <= s.len(),
{
    let n = start + 1;
    lemma_digits_end(s, n);
    let d = digits_end(s, n);
    if d + 1 < s.len() {
        lemma_digits_end(s, d + 1);
    }
    lemma_ident_end(s, n);
    lemma_find_char(s, n, '"');
    if n + 1 <= s.len() {
        lemma_find_char(s, n + 1, '\n');
        lemma_block_end(s, n + 1, 1);
    }
}

proof fn lemma_find_char_absent(s: Seq<char>, i: int, c: char)
    requires
        0 <= i <= s.len(),
        forall|k: int| i <= k < s.len() ==> s[k] != c,
    ensures
        find_char(s, i, c) == s.len(),
    decreases s.len() - i,
{
    if i < s.len() {
        lemma_find_char_absent(s, i + 1, c);
    }
}

/// A string literal with no closing quote: scanning from its opening quote
/// reaches the end of the text, yields no token, and reports an
/// unterminated string on the last line.
pub proof fn lemma_unterminated_string(s: Seq<char>, start: int, line: int)
    requires
        0 <= start < s.len(),
        s[start] == '"',
        forall|k: int| start < k < s.len() ==> s[k] != '"',
    ensures
        lex(s, start, line).0 == Seq::<TokenView>::empty(),
        lex(s, start, line).1 == seq![
            (line + newlines(s, start + 1, s.len() as int), Seq::<char>::empty(), "Unterminated string."@),
        ],
        lex(s, start, line).2 == line + newlines(s, start + 1, s.len() as int),
{
    lemma_find_char_absent(s, start + 1, '"');
    let st = step(s, start, line);
    assert(st.0 == s.len());
    assert(lex(s, st.0, st.1) == (Seq::<TokenView>::empty(), Seq::<ReportView>::empty(), st.1));
    assert(lex(s, start, line).0 =~= Seq::<TokenView>::empty());
    assert(lex(s, start, line).1 =~= seq![
        (line + newlines(s, start + 1, s.len() as int), Seq::<char>::empty(), "Unterminated string."@),
    ]);
}

proof fn lemma_lex_no_eof(s: Seq<char>, pos: int, line: int)
    ensures
        forall|i: int| 0 <= i < lex(s, pos, line).0.len() ==> (#[trigger] lex(s, pos, line).0[i]).0
            != TokenType::Eof,
    decreases s.len() - pos,
{
    if 0 <= pos < s.len() {
        let st = step(s, pos, line);
        lemma_step_bounds(s, pos, line);
        lemma_lex_no_eof(s, st.0, st.1);
        let rest = lex(s, st.0, st.1);
        assert(lex(s, pos, line).0 == step_tokens(s, pos, st) + rest.0);
        assert(st.2 != Some(TokenType::Eof));
    }
}

/// Scanning ends with the end-of-input token, with an empty lexeme, and
/// yields it nowhere else.
pub proof fn lemma_single_eof(s: Seq<char>)
    ensures
        scan(s).len() > 0,
        scan(s).last().0 == TokenType::Eof,
        scan(s).last().1 == Seq::<char>::empty(),
        forall|i: int| 0 <= i < scan(s).len() - 1 ==> (#[trigger] scan(s)[i]).0 != TokenType::Eof,
{
    lemma_lex_no_eof(s, 0, 1);
    assert forall|i: int| 0 <= i < scan(s).len() - 1 implies (#[trigger] scan(s)[i]).0 != TokenType::Eof by {
        assert(scan(s)[i] == lex(s, 0, 1).0[i]);
    }
}

proof fn lemma_newlines_split(s: Seq<char>, a: int, b: int, c: int)
    requires
        a <= b <= c,
    ensures
        newlines(s, a, c) == newlines(s, a, b) + newlines(s, b, c),
    decreases c - b,
{
    if c > b {
        lemma_newlines_split(s, a, b, c - 1);
    }
}

proof fn lemma_no_newlines(s: Seq<char>, a: int, b: int)
    requires
        a <= b,
        forall|k: int| a <= k < b ==> s[k] != '\n',
    ensures
        newlines(s, a, b) == 0,
    decreases b - a,
{
    if b > a {
        lemma_no_newlines(s, a, b - 1);
    }
}

/// The line counter after one step grows by the newlines the step read.
proof fn lemma_step_lines(s: Seq<char>, start: int, line: int)
    requires
        0 <= start < s.len(),
        !alphabetic('\n'),
        !alphanumeric('\n'),
    ensures
        step(s, start, line).1 == line + newlines(s, start, step(s, start, line).0),
{
    let st = step(s, start, line);
    let e = st.0;
    let c = s[start];
    let n = start + 1;
    lemma_step_bounds(s, start, line);
    if c == '\n' {
        assert(newlines(s, start, n) == newlines(s, start, start) + 1);
    } else if c == '/' && at(s, n, '*') {
        lemma_block_end(s, n + 1, 1);
        lemma_no_newlines(s, start, n + 1);
        lemma_newlines_split(s, start, n + 1, e);
    } else if c == '"' {
        let k = find_char(s, n, '"');
        lemma_find_char(s, n, '"');
        lemma_no_newlines(s, start, n);
        lemma_newlines_split(s, start, n, k);
        if k < s.len() {
            lemma_no_newlines(s, k, k + 1);
            lemma_newlines_split(s, start, k, k + 1);
        }
    } else {
        lemma_digits_end(s, n);
        let d = digits_end(s, n);
        if d + 1 < s.len() {
            lemma_digits_end(s, d + 1);
        }
        lemma_ident_end(s, n);
        if n + 1 <= s.len() {
            lemma_find_char(s, n + 1, '\n');
        }
        assert forall|k: int| start <= k < e implies s[k] != '\n' by {
            if k > start && is_digit(c) && k >= d && d + 1 < s.len() {
                assert(k == d || d + 1 <= k);
            }
        }
        lemma_no_newlines(s, start, e);
    }
}

/// The line counter after scanning to the end grows by the newlines read.
proof fn lemma_lex_lines(s: Seq<char>, pos: int, line: int)
    requires
        0 <= pos <= s.len(),
        !alphabetic('\n'),
        !alphanumeric('\n'),
    ensures
        lex(s, pos, line).2 == line + newlines(s, pos, s.len() as int),
    decreases s.len() - pos,
{
    if pos < s.len() {
        let st = step(s, pos, line);
        lemma_step_bounds(s, pos, line);
        lemma_step_lines(s, pos, line);
        lemma_lex_lines(s, st.0, st.1);
        lemma_newlines_split(s, pos, st.0, s.len() as int);
    }
}

/// A scanner over one source text. It turns the text into tokens in a
/// single forward pass.
#[derive(Debug)]
pub struct Scanner {
    source: Vec<char>,
    tokens: Vec<Token>,
    start: usize,
    current: usize,
    line: usize,
}

impl Scanner {
    /// The source text.
    pub closed spec fn text(&self) -> Seq<char> {
        self.source@
    }

    /// The position of the next character to scan.
    pub closed spec fn position(&self) -> int {
        self.current as int
    }

    /// The line counter.
    pub closed spec fn line_number(&self) -> int {
        self.line as int
    }

    /// The tokens scanned so far and not yet handed out.
    pub closed spec fn scanned(&self) -> Seq<TokenView> {
        self.tokens@.map_values(|t: Token| t@)
    }

    /// The cursor is within the text, and the line counter cannot overflow
    /// whatever the rest of the text holds.
    pub closed spec fn wf(&self) -> bool {
        &&& self.start <= self.current <= self.source@.len()
        &&& self.line >= 1
        &&& self.line + (self.source@.len() - self.current) <= usize::MAX
        &&& self.source@.len() < usize::MAX
    }

    pub fn new(source: &str) -> (r: Self)
        requires
            source@.len() < usize::MAX,
        ensures
            r.wf(),
            r.text() == source@,
            r.position() == 0,
            r.line_number() == 1,
            r.scanned() == Seq::<TokenView>::empty(),
    {
        let r = Scanner { source: chars_of(source), tokens: Vec::new(), start: 0, current: 0, line: 1 };
        assert(r.scanned() =~= Seq::<TokenView>::empty());
        r
    }

    /// Scans the rest of the text and hands out all the tokens scanned,
    /// closed by the end-of-input token; lexical errors go to `diag`.
    pub fn scan_tokens(&mut self, diag: &mut Diagnostics) -> (r: Vec<Token>)
        requires
            old(self).wf(),
        ensures
            r@.map_values(|t: Token| t@) == old(self).scanned() + scan_from(
                old(self).text(),
                old(self).position(),
                old(self).line_number(),
            ),
            final(diag).reports_view() == old(diag).reports_view() + lex(
                old(self).text(),
                old(self).position(),
                old(self).line_number(),
            ).1,
            final(diag).had_error == (old(diag).had_error || lex(
                old(self).text(),
                old(self).position(),
                old(self).line_number(),
            ).1.len() > 0),
            r@.last().line == old(self).line_number() + newlines(
                old(self).text(),
                old(self).position(),
                old(self).text().len() as int,
            ),
    {
        // The classes of '\n' tell that no word runs across a line break,
        // so the line counter counts exactly the newlines read.
        let newline_is_alphabetic = is_alphabetic('\n');
        let newline_is_alphanumeric = is_alphanumeric('\n');
        proof {
            assert(!newline_is_alphabetic && !newline_is_alphanumeric);
            lemma_lex_lines(self.source@, self.current as int, self.line as int);
        }
        let ghost s = self.source@;
        let ghost total = lex(s, self.current as int, self.line as int);
        let ghost toks0 = self.scanned();
        let ghost reps0 = diag.reports_view();
        let ghost had0 = diag.had_error;
        while self.current < self.source.len()
            invariant
                self.wf(),
                self.source@ == s,
                self.scanned() + lex(s, self.current as int, self.line as int).0 == toks0 + total.0,
                diag.reports_view() + lex(s, self.current as int, self.line as int).1 == reps0 + total.1,
                lex(s, self.current as int, self.line as int).2 == total.2,
                diag.had_error == (had0 || diag.reports_view().len() > reps0.len()),
                diag.reports_view().len() >= reps0.len(),
            decreases s.len() - self.current,
        {
            self.start = self.current;
            let ghost pos = self.current as int;
            let ghost line = self.line as int;
            let ghost st = step(s, pos, line);
            proof {
                lemma_step_bounds(s, pos, line);
            }
            self.scan_token(diag);
            proof {
                let rest = lex(s, st.0, st.1);
                assert(lex(s, pos, line) == (step_tokens(s, pos, st) + rest.0, step_reports(st) + rest.1, rest.2));
                assert(self.scanned() + rest.0 =~= toks0 + total.0);
                assert(diag.reports_view() + rest.1 =~= reps0 + total.1);
            }
        }
        assert(self.scanned() =~= toks0 + total.0);
        assert(lex(s, self.current as int, self.line as int).2 == self.line as int);
        let ghost before = self.scanned();
        let eof = Token::new(TokenType::Eof, String::new(), self.line);
        self.tokens.push(eof);
        assert(self.scanned() =~= before.push(self.tokens@.last()@));
        assert(self.scanned() =~= toks0 + total.0.push((TokenType::Eof, Seq::<char>::empty(), total.2)));
        let mut out: Vec<Token> = Vec::new();
        std::mem::swap(&mut out, &mut self.tokens);
        proof {
            assert(lex(s, self.current as int, self.line as int).0 =~= Seq::<TokenView>::empty());
            assert(lex(s, self.current as int, self.line as int).1 =~= Seq::<ReportView>::empty());
            assert(out@.map_values(|t: Token| t@) =~= toks0 + scan_from(s, old(self).current as int, old(self).line as int));
            assert(diag.reports_view() =~= reps0 + total.1);
            assert(out@.last()@ == out@.map_values(|t: Token| t@).last());
        }
        out
    }

    /// Scans one lexeme starting at the cursor.
    fn scan_token(&mut self, diag: &mut Diagnostics)
        requires
            old(self).wf(),
            old(self).start == old(self).current,
            old(self).current < old(self).source@.len(),
        ensures
            final(self).wf(),
            final(self).source@ == old(self).source@,
            final(self).current as int == step(old(self).source@, old(self).current as int, old(self).line as int).0,
            final(self).line as int == step(old(self).source@, old(self).current as int, old(self).line as int).1,
            final(self).scanned() == old(self).scanned() + step_tokens(
                old(self).source@,
                old(self).current as int,
                step(old(self).source@, old(self).current as int, old(self).line as int),
            ),
            final(diag).reports_view() == old(diag).reports_view() + step_reports(
                step(old(self).source@, old(self).current as int, old(self).line as int),
            ),
            final(diag).had_error == (old(diag).had_error || step(
                old(self).source@,
                old(self).current as int,
                old(self).line as int,
            ).3 is Some),
    {
        let ghost s = self.source@;
        let ghost st = step(s, self.current as int, self.line as int);
        let c = self.advance();
        if c == '(' {
            self.add_token(TokenType::LeftParen);
        } else if c == ')' {
            self.add_token(TokenType::RightParen);
        } else if c == '{' {
            self.add_token(TokenType::LeftBrace);
        } else if c == '}' {
            self.add_token(TokenType::RightBrace);
        } else if c == '[' {
            self.add_token(TokenType::LeftBracket);
        } else if c == ']' {
            self.add_token(TokenType::RightBracket);
        } else if c == ',' {
            self.add_token(TokenType::Comma);
        } else if c == '?' {
            self.add_token(TokenType::Question);
        } else if c == ':' {
            self.add_token(TokenType::Colon);
        } else if c == ';' {
            self.add_token(TokenType::Semicolon);
        } else if c == '*' {
            self.add_token(TokenType::Star);
        } else if c == '.' {
            if self.match_char('.') {
                if self.match_char('.') {
                    self.add_token(TokenType::Spread);
                } else {
                    self.add_token(TokenType::Range);
                }
            } else {
                self.add_token(TokenType::Dot);
            }
        } else if c == '+' {
            if self.match_char('+') {
                self.add_token(TokenType::Increment);
            } else {
                self.add_token(TokenType::Plus);
            }
        } else if c == '-' {
            if self.match_char('-') {
                self.add_token(TokenType::Decrement);
            } else if self.match_char('>') {
                self.add_token(TokenType::SimpleArrow);
            } else {
                self.add_token(TokenType::Minus);
            }
        } else if c == '!' {
            if self.match_char('=') {
                self.add_token(TokenType::BangEqual);
            } else {
                self.add_token(TokenType::Bang);
            }
        } else if c == '=' {
            if self.match_char('=') {
                self.add_token(TokenType::EqualEqual);
            } else if self.match_char('>') {
                self.add_token(TokenType::Arrow);
            } else {
                self.add_token(TokenType::Equal);
            }
        } else if c == '<' {
            if self.match_char('=') {
                self.add_token(TokenType::LessEqual);
            } else {
                self.add_token(TokenType::Less);
            }
        } else if c == '>' {
            if self.match_char('=') {
                self.add_token(TokenType::GreaterEqual);
            } else {
                self.add_token(TokenType::Greater);
            }
        } else if c == '/' {
            if self.match_char('/') {
                self.skip_line_comment();
            } else if self.match_char('*') {
                self.scan_multiline_comment();
            } else {
                self.add_token(TokenType::Slash);
            }
        } else if c == '&' {
            if self.match_char('&') {
                self.add_token(TokenType::And);
            } else {
                self.add_token(TokenType::BitAnd);
            }
        } else if c == '|' {
            if self.match_char('|') {
                self.add_token(TokenType::OrLogical);
            } else {
                self.add_token(TokenType::OrBitwise);
            }
        } else if c == ' ' || c == '\r' || c == '\t' {
        } else if c == '\n' {
            self.line = self.line + 1;
        } else if c == '"' {
            self.string(diag);
        } else if is_digit_char(c) {
            self.number();
        } else if is_alphabetic(c) || c == '_' {
            self.identifier();
        } else {
            error(diag, self.line, "Unexpected character.");
        }
        proof {
            assert(self.scanned() =~= old(self).scanned() + step_tokens(s, old(self).current as int, st));
            assert(diag.reports_view() =~= old(diag).reports_view() + step_reports(st));
        }
    }

    fn advance(&mut self) -> (c: char)
        requires
            old(self).wf(),
            old(self).current < old(self).source@.len(),
        ensures
            c == old(self).source@[old(self).current as int],
            final(self).current == old(self).current + 1,
            final(self).source == old(self).source,
            final(self).tokens == old(self).tokens,
            final(self).start == old(self).start,
            final(self).line == old(self).line,
    {
        let c = self.source[self.current];
        self.current = self.current + 1;
        c
    }

    fn match_char(&mut self, expected: char) -> (r: bool)
        ensures
            r == at(old(self).source@, old(self).current as int, expected),
            final(self).current == old(self).current + if r { 1usize } else { 0 },
            final(self).source == old(self).source,
            final(self).tokens == old(self).tokens,
            final(self).start == old(self).start,
            final(self).line == old(self).line,
    {
        if self.current >= self.source.len() {
            return false;
        }
        if self.source[self.current] != expected {
            return false;
        }
        self.current = self.current + 1;
        true
    }

    /// Adds a token of `kind` whose lexeme runs from `start` to the cursor.
    fn add_token(&mut self, kind: TokenType)
        requires
            old(self).start <= old(self).current <= old(self).source@.len(),
        ensures
            final(self).scanned() == old(self).scanned().push(
                (kind, old(self).source@.subrange(old(self).start as int, old(self).current as int), old(self).line as int),
            ),
            final(self).source == old(self).source,
            final(self).current == old(self).current,
            final(self).start == old(self).start,
            final(self).line == old(self).line,
    {
        let text = string_of(slice_subrange(self.source.as_slice(), self.start, self.current));
        self.tokens.push(Token::new(kind, text, self.line));
        assert(self.scanned() =~= old(self).scanned().push(
            (kind, old(self).source@.subrange(old(self).start as int, old(self).current as int), old(self).line as int),
        ));
    }

    /// Skips a line comment up to, not including, the end of its line.
    fn skip_line_comment(&mut self)
        requires
            old(self).wf(),
        ensures
            final(self).wf(),
            final(self).current as int == find_char(old(self).source@, old(self).current as int, '\n'),
            final(self).source == old(self).source,
            final(self).tokens == old(self).tokens,
            final(self).start == old(self).start,
            final(self).line == old(self).line,
    {
        while self.current < self.source.len() && self.source[self.current] != '\n'
            invariant
                self.wf(),
                find_char(self.source@, self.current as int, '\n') == find_char(
                    old(self).source@,
                    old(self).current as int,
                    '\n',
                ),
                self.source == old(self).source,
                self.tokens == old(self).tokens,
                self.start == old(self).start,
                self.line == old(self).line,
            decreases self.source@.len() - self.current,
        {
            self.current = self.current + 1;
        }
    }

    /// Skips a block comment whose opening `/*` is behind the cursor,
    /// following nested comments, and counts its newlines.
    fn scan_multiline_comment(&mut self)
        requires
            old(self).wf(),
        ensures
            final(self).wf(),
            final(self).current as int == block_end(old(self).source@, old(self).current as int, 1),
            final(self).line as int == old(self).line + newlines(
                old(self).source@,
                old(self).current as int,
                final(self).current as int,
            ),
            final(self).source == old(self).source,
            final(self).tokens == old(self).tokens,
            final(self).start == old(self).start,
    {
        let ghost s = self.source@;
        let ghost c0 = self.current as int;
        let mut nest_level: usize = 1;
        while nest_level > 0 && self.current < self.source.len()
            invariant
                self.wf(),
                self.source@ == s,
                0 <= c0 <= self.current,
                nest_level <= self.current - c0 + 1,
                block_end(s, self.current as int, nest_level as nat) == block_end(s, c0, 1),
                self.line == old(self).line + newlines(s, c0, self.current as int),
                self.source == old(self).source,
                self.tokens == old(self).tokens,
                self.start == old(self).start,
            decreases s.len() - self.current,
        {
            let i = self.current;
            if i + 1 < self.source.len() && self.source[i] == '/' && self.source[i + 1] == '*' {
                self.current = i + 2;
                nest_level = nest_level + 1;
                proof {
                    reveal_with_fuel(newlines, 3);
                }
            } else if i + 1 < self.source.len() && self.source[i] == '*' && self.source[i + 1] == '/' {
                self.current = i + 2;
                nest_level = nest_level - 1;
                proof {
                    reveal_with_fuel(newlines, 3);
                }
            } else {
                if self.source[i] == '\n' {
                    self.line = self.line + 1;
                }
                self.current = i + 1;
            }
        }
    }

    /// Scans a string literal whose opening quote is behind the cursor.
    fn string(&mut self, diag: &mut Diagnostics)
        requires
            old(self).wf(),
            old(self).start + 1 == old(self).current,
            old(self).source@[old(self).start as int] == '"',
        ensures
            final(self).wf(),
            final(self).source@ == old(self).source@,
            final(self).current as int == string_step(old(self).source@, old(self).start as int, old(self).line as int).0,
            final(self).line as int == string_step(old(self).source@, old(self).start as int, old(self).line as int).1,
            final(self).scanned() == old(self).scanned() + step_tokens(
                old(self).source@,
                old(self).start as int,
                string_step(old(self).source@, old(self).start as int, old(self).line as int),
            ),
            final(diag).reports_view() == old(diag).reports_view() + step_reports(
                string_step(old(self).source@, old(self).start as int, old(self).line as int),
            ),
            final(diag).had_error == (old(diag).had_error || string_step(
                old(self).source@,
                old(self).start as int,
                old(self).line as int,
            ).3 is Some),
    {
        let ghost s = self.source@;
        let ghost c0 = self.current as int;
        while self.current < self.source.len() && self.source[self.current] != '"'
            invariant
                self.wf(),
                self.source@ == s,
                c0 <= self.current,
                find_char(s, self.current as int, '"') == find_char(s, c0, '"'),
                self.line == old(self).line + newlines(s, c0, self.current as int),
                self.tokens == old(self).tokens,
                self.start == old(self).start,
            decreases s.len() - self.current,
        {
            if self.source[self.current] == '\n' {
                self.line = self.line + 1;
            }
            self.current = self.current + 1;
        }
        if self.current >= self.source.len() {
            error(diag, self.line, "Unterminated string.");
            assert(diag.reports_view() =~= old(diag).reports_view() + step_reports(
                string_step(s, old(self).start as int, old(self).line as int),
            ));
            assert(self.scanned() =~= old(self).scanned() + Seq::<TokenView>::empty());
            return;
        }
        self.current = self.current + 1;
        self.add_token(TokenType::String);
        assert(diag.reports_view() =~= old(diag).reports_view() + Seq::<ReportView>::empty());
    }

    /// Scans a number whose first digit is behind the cursor.
    fn number(&mut self)
        requires
            old(self).wf(),
            old(self).start + 1 == old(self).current,
            is_digit(old(self).source@[old(self).start as int]),
        ensures
            final(self).wf(),
            final(self).source@ == old(self).source@,
            final(self).line == old(self).line,
            final(self).current as int == number_step(old(self).source@, old(self).start as int, old(self).line as int).0,
            final(self).scanned() == old(self).scanned() + step_tokens(
                old(self).source@,
                old(self).start as int,
                number_step(old(self).source@, old(self).start as int, old(self).line as int),
            ),
    {
        let ghost s = self.source@;
        self.skip_digits();
        let d = self.current;
        proof {
            lemma_digits_end(s, self.start + 1);
        }
        let mut is_float = false;
        if d + 1 < self.source.len() && self.source[d] == '.' && is_digit_char(self.source[d + 1]) {
            self.current = d + 1;
            self.skip_digits();
            is_float = true;
        }
        if is_float {
            self.add_token(TokenType::Float);
        } else {
            let digits = slice_subrange(self.source.as_slice(), self.start, self.current);
            assert forall|i: int| 0 <= i < digits@.len() implies is_digit(#[trigger] digits@[i]) by {
                assert(digits@[i] == s[self.start + i]);
            }
            let value = integer_of_digits(digits);
            self.add_token(TokenType::Integer(value));
        }
        assert(self.scanned() =~= old(self).scanned() + step_tokens(
            s,
            old(self).start as int,
            number_step(s, old(self).start as int, old(self).line as int),
        ));
    }

    /// Moves the cursor past a run of decimal digits.
    fn skip_digits(&mut self)
        requires
            old(self).wf(),
        ensures
            final(self).wf(),
            final(self).current as int == digits_end(old(self).source@, old(self).current as int),
            final(self).source == old(self).source,
            final(self).tokens == old(self).tokens,
            final(self).start == old(self).start,
            final(self).line == old(self).line,
    {
        while self.current < self.source.len() && is_digit_char(self.source[self.current])
            invariant
                self.wf(),
                digits_end(self.source@, self.current as int) == digits_end(
                    old(self).source@,
                    old(self).current as int,
                ),
                self.source == old(self).source,
                self.tokens == old(self).tokens,
                self.start == old(self).start,
                self.line == old(self).line,
            decreases self.source@.len() - self.current,
        {
            self.current = self.current + 1;
        }
    }

    /// Scans an identifier or keyword whose first character is behind the
    /// cursor.
    fn identifier(&mut self)
        requires
            old(self).wf(),
            old(self).start + 1 == old(self).current,
        ensures
            final(self).wf(),
            final(self).source@ == old(self).source@,
            final(self).line == old(self).line,
            final(self).current as int == ident_end(old(self).source@, old(self).current as int),
            final(self).scanned() == old(self).scanned().push(
                (
                    word_kind(old(self).source@.subrange(old(self).start as int, final(self).current as int)),
                    old(self).source@.subrange(old(self).start as int, final(self).current as int),
                    old(self).line as int,
                ),
            ),
    {
        while self.current < self.source.len() && (is_alphanumeric(self.source[self.current])
            || self.source[self.current] == '_')
            invariant
                self.wf(),
                ident_end(self.source@, self.current as int) == ident_end(
                    old(self).source@,
                    old(self).current as int,
                ),
                self.source == old(self).source,
                self.tokens == old(self).tokens,
                self.start == old(self).start,
                self.line == old(self).line,
            decreases self.source@.len() - self.current,
        {
            self.current = self.current + 1;
        }
        let text = slice_subrange(self.source.as_slice(), self.start, self.current);
        let kind = word_kind_of(text);
        self.add_token(kind);
    }
}

fn is_digit_char(c: char) -> (r: bool)
    ensures
        r == is_digit(c),
{
    '0' <= c && c <= '9'
}

/// The value of an integer literal's digits; zero where it exceeds 64 bits.
fn integer_of_digits(t: &[char]) -> (r: i64)
    requires
        forall|i: int| 0 <= i < t@.len() ==> is_digit(#[trigger] t@[i]),
    ensures
        r == integer_value(t@),
{
    let mut acc: i64 = 0;
    let mut fits = true;
    let mut i: usize = 0;
    while i < t.len()
        invariant
            i <= t@.len(),
            forall|j: int| 0 <= j < t@.len() ==> is_digit(#[trigger] t@[j]),
            fits ==> acc as int == digits_value(t@.subrange(0, i as int)),
            !fits ==> digits_value(t@.subrange(0, i as int)) > i64::MAX,
        decreases t@.len() - i,
    {
        let ghost prev = t@.subrange(0, i as int);
        let d = (t[i] as u32 - '0' as u32) as i64;
        proof {
            assert(t@.subrange(0, i + 1).drop_last() =~= prev);
        }
        if fits {
            if acc > (i64::MAX - d) / 10 {
                fits = false;
            } else {
                acc = acc * 10 + d;
            }
        }
        i = i + 1;
    }
    assert(t@.subrange(0, t@.len() as int) =~= t@);
    if fits {
        acc
    } else {
        0
    }
}

/// The kind of a scanned word, by the keyword table.
fn word_kind_of(t: &[char]) -> (r: TokenType)
    ensures
        r == word_kind(t@),
{
    if chars_equal(t, "fn") || chars_equal(t, "function") {
        TokenType::Fn
    } else if chars_equal(t, "if") {
        TokenType::If
    } else if chars_equal(t, "else") {
        TokenType::Else
    } else if chars_equal(t, "return") {
        TokenType::Return
    } else if chars_equal(t, "true") {
        TokenType::True
    } else if chars_equal(t, "false") {
        TokenType::False
    } else if chars_equal(t, "let") {
        TokenType::Let
    } else if chars_equal(t, "const") {
        TokenType::Const
    } else if chars_equal(t, "loop") {
        TokenType::Loop
    } else if chars_equal(t, "while") {
        TokenType::While
    } else if chars_equal(t, "for") {
        TokenType::For
    } else if chars_equal(t, "enum") {
        TokenType::Enum
    } else if chars_equal(t, "type") {
        TokenType::Type
    } else if chars_equal(t, "trait") {
        TokenType::Trait
    } else if chars_equal(t, "match") {
        TokenType::Match
    } else if chars_equal(t, "server") {
        TokenType::Server
    } else if chars_equal(t, "client") {
        TokenType::Client
    } else if chars_equal(t, "component") {
        TokenType::Component
    } else if chars_equal(t, "signal") {
        TokenType::Signal
    } else if chars_equal(t, "derived") {
        TokenType::Derived
    } else if chars_equal(t, "effect") {
        TokenType::Effect
    } else if chars_equal(t, "prop") {
        TokenType::Prop
    } else if chars_equal(t, "import") {
        TokenType::Import
    } else if chars_equal(t, "export") {
        TokenType::Export
    } else if chars_equal(t, "from") {
        TokenType::From
    } else if chars_equal(t, "as") {
        TokenType::As
    } else if chars_equal(t, "null") {
        TokenType::Null
    } else {
        TokenType::Identifier
    }
}

} // verus!
