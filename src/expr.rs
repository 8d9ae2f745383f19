use vstd::prelude::*;
use vstd::string::StringExecFns;

use crate::text::{decimal, integer_text};
use crate::token::{Token, TokenView};

verus! {

/// The value of a literal in the source. A float literal keeps its decimal
/// text; a string literal holds the characters between its quotes.
#[derive(Debug)]
pub enum LiteralValue {
    Integer(i64),
    Float(String),
    String(String),
    Boolean(bool),
    Null,
}

/// The mathematical value of a literal.
pub enum LitView {
    Integer(i64),
    Float(Seq<char>),
    Str(Seq<char>),
    Boolean(bool),
    Null,
}

impl View for LiteralValue {
    type V = LitView;

    open spec fn view(&self) -> LitView {
        match self {
            LiteralValue::Integer(i) => LitView::Integer(*i),
            LiteralValue::Float(t) => LitView::Float(t@),
            LiteralValue::String(s) => LitView::Str(s@),
            LiteralValue::Boolean(b) => LitView::Boolean(*b),
            LiteralValue::Null => LitView::Null,
        }
    }
}

/// An expression tree. Each node owns its children.
#[derive(Debug)]
pub enum Expr {
    Binary { left: Box<Expr>, operator: Token, right: Box<Expr> },
    Grouping { expression: Box<Expr> },
    Literal { value: LiteralValue },
    Unary { operator: Token, right: Box<Expr> },
}

/// The mathematical value of an expression tree.
pub enum ExprView {
    Binary(Box<ExprView>, TokenView, Box<ExprView>),
    Grouping(Box<ExprView>),
    Literal(LitView),
    Unary(TokenView, Box<ExprView>),
}

impl Expr {
    /// The mathematical value of this tree.
    pub open spec fn tree(&self) -> ExprView
        decreases self,
    {
        match self {
            Expr::Binary { left, operator, right } => ExprView::Binary(
                Box::new(left.tree()),
                operator@,
                Box::new(right.tree()),
            ),
            Expr::Grouping { expression } => ExprView::Grouping(Box::new(expression.tree())),
            Expr::Literal { value } => ExprView::Literal(value@),
            Expr::Unary { operator, right } => ExprView::Unary(operator@, Box::new(right.tree())),
        }
    }
}

/// How a literal is written in a printed tree: strings in quotes, floats as
/// written in the source.
pub open spec fn literal_text(l: LitView) -> Seq<char> {
    match l {
        LitView::Integer(i) => decimal(i as int),
        LitView::Float(t) => t,
        LitView::Str(s) => "\""@ + s + "\""@,
        LitView::Boolean(b) => if b {
            "true"@
        } else {
            "false"@
        },
        LitView::Null => "null"@,
    }
}

/// A tree printed in prefix form: `(op left right)`, `(op right)`,
/// `(group inner)`.
pub open spec fn expr_text(e: ExprView) -> Seq<char>
    decreases e,
{
    match e {
        ExprView::Binary(l, op, r) => "("@ + op.1 + " "@ + expr_text(*l) + " "@ + expr_text(*r) + ")"@,
        ExprView::Grouping(x) => "(group "@ + expr_text(*x) + ")"@,
        ExprView::Literal(v) => literal_text(v),
        ExprView::Unary(op, x) => "("@ + op.1 + " "@ + expr_text(*x) + ")"@,
    }
}

impl LiteralValue {
    /// The literal as it appears in a printed tree.
    pub fn to_text(&self) -> (r: String)
        ensures
            r@ == literal_text(self@),
    {
        match self {
            LiteralValue::Integer(i) => integer_text(*i),
            LiteralValue::Float(t) => t.clone(),
            LiteralValue::String(s) => String::from_str("\"").concat(s.as_str()).concat("\""),
            LiteralValue::Boolean(b) => if *b {
                String::from_str("true")
            } else {
                String::from_str("false")
            },
            LiteralValue::Null => String::from_str("null"),
        }
    }
}

impl Expr {
    /// The tree printed in prefix form.
    pub fn to_text(&self) -> (r: String)
        ensures
            r@ == expr_text(self.tree()),
        decreases self,
    {
        match self {
            Expr::Binary { left, operator, right } => {
                let l = left.to_text();
                let r = right.to_text();
                String::from_str("(").concat(operator.lexeme.as_str()).concat(" ").concat(
                    l.as_str(),
                ).concat(" ").concat(r.as_str()).concat(")")
            },
            Expr::Grouping { expression } => {
                let x = expression.to_text();
                String::from_str("(group ").concat(x.as_str()).concat(")")
            },
            Expr::Literal { value } => value.to_text(),
            Expr::Unary { operator, right } => {
                let x = right.to_text();
                String::from_str("(").concat(operator.lexeme.as_str()).concat(" ").concat(
                    x.as_str(),
                ).concat(")")
            },
        }
    }
}

} // verus!
