//! Expressions: the tree that parsing builds, and the precedence-climbing
//! parser that builds it.

use crate::block::{lines_view, Block, LineView};
use crate::grammar::{atom, expression, expression_at, precedence};
use crate::lexing::Item;
use crate::messages::{
    new_block_without_value, new_expression_at_end, new_not_a_binary_operator,
    new_not_an_operand,
};
use crate::number::Decimal;
use crate::parser::{Parsable, Parser};
use crate::stream::{yields, Parsed};
use crate::tokenizer::Token;
use vstd::prelude::*;

verus! {

/// An expression, as a value of mathematics.
pub enum ExprView {
    /// A number literal, by its digits.
    Literal(Seq<char>),
    /// A reference to a variable, by its name.
    Variable(Seq<char>),
    /// A block that yields a value, by its lines.
    Block(Seq<LineView>),
    Add(Box<ExprView>, Box<ExprView>),
    Sub(Box<ExprView>, Box<ExprView>),
    Mul(Box<ExprView>, Box<ExprView>),
    Div(Box<ExprView>, Box<ExprView>),
}

/// An expression. Each operator node owns its two operands.
#[derive(Debug)]
pub enum Expression {
    Literal(Decimal),
    Variable(String),
    Block(Block),
    Add(Box<Expression>, Box<Expression>),
    Sub(Box<Expression>, Box<Expression>),
    Mul(Box<Expression>, Box<Expression>),
    Div(Box<Expression>, Box<Expression>),
}

/// What `e` is, as a value of mathematics.
pub open spec fn expr_view(e: Expression) -> ExprView
    decreases e,
{
    match e {
        Expression::Literal(d) => ExprView::Literal(d@),
        Expression::Variable(name) => ExprView::Variable(name@),
        Expression::Block(b) => ExprView::Block(lines_view(b.lines@)),
        Expression::Add(l, r) => ExprView::Add(Box::new(expr_view(*l)), Box::new(expr_view(*r))),
        Expression::Sub(l, r) => ExprView::Sub(Box::new(expr_view(*l)), Box::new(expr_view(*r))),
        Expression::Mul(l, r) => ExprView::Mul(Box::new(expr_view(*l)), Box::new(expr_view(*r))),
        Expression::Div(l, r) => ExprView::Div(Box::new(expr_view(*l)), Box::new(expr_view(*r))),
    }
}

impl View for Expression {
    type V = ExprView;

    open spec fn view(&self) -> ExprView {
        expr_view(*self)
    }
}

impl Expression {
    /// A copy of the expression, operands and blocks included.
    pub(crate) fn duplicate(&self) -> (r: Expression)
        ensures
            r@ == self@,
        decreases self,
    {
        match self {
            Expression::Literal(d) => Expression::Literal(d.clone()),
            Expression::Variable(name) => Expression::Variable(name.clone()),
            Expression::Block(b) => Expression::Block(b.duplicate()),
            Expression::Add(l, r) => Expression::Add(
                Box::new(l.duplicate()),
                Box::new(r.duplicate()),
            ),
            Expression::Sub(l, r) => Expression::Sub(
                Box::new(l.duplicate()),
                Box::new(r.duplicate()),
            ),
            Expression::Mul(l, r) => Expression::Mul(
                Box::new(l.duplicate()),
                Box::new(r.duplicate()),
            ),
            Expression::Div(l, r) => Expression::Div(
                Box::new(l.duplicate()),
                Box::new(r.duplicate()),
            ),
        }
    }

    /// The level from which on the operator `c` is taken: 1 for `*` and
    /// `/`, 2 for `+` and `-`, 100 for every other character.
    pub fn precedence(c: char) -> (level: i8)
        ensures
            level == precedence(c),
    {
        if c == '*' || c == '/' {
            1
        } else if c == '+' || c == '-' {
            2
        } else {
            100
        }
    }

    /// Parses an operand: a block that yields a value, a number, a variable,
    /// or an expression in parentheses.
    fn parse_atom(parser: &mut Parser) -> (r: Result<Expression, String>)
        ensures
            yields(r, atom(old(parser)@).value),
            final(parser)@ == atom(old(parser)@).rest,
            final(parser)@.len() <= old(parser)@.len(),
        decreases old(parser)@.len(), 1int,
    {
        let at_block = match parser.tokens.peek() {
            Some(Ok(Token::Operator(c))) => *c == '{',
            _ => false,
        };
        if at_block {
            let block = match Block::parse_block(parser) {
                Ok(block) => block,
                Err(e) => {
                    return Err(e);
                },
            };
            if !block.has_value() {
                return Err(new_block_without_value());
            }
            Ok(Expression::Block(block))
        } else {
            match parser.tokens.next() {
                None => Err(new_expression_at_end()),
                Some(Err(e)) => Err(e),
                Some(Ok(Token::Number(n))) => match Decimal::parse(n) {
                    Ok(d) => Ok(Expression::Literal(d)),
                    Err(e) => Err(e),
                },
                Some(Ok(Token::Symbol(s))) => Ok(Expression::Variable(s)),
                Some(Ok(Token::Operator(c))) => {
                    if c == '(' {
                        let inside = match Expression::parse_prec(parser, 3) {
                            Ok(inside) => inside,
                            Err(e) => {
                                return Err(e);
                            },
                        };
                        match parser.tokens.expect_operator_of(')') {
                            Ok(()) => Ok(inside),
                            Err(e) => Err(e),
                        }
                    } else {
                        Err(new_not_an_operand(Token::Operator(c).to_string().as_str()))
                    }
                },
            }
        }
    }

    /// Parses an expression at the level `prec`: a left operand of the level
    /// below, and, where an operator of a level no higher than `prec`
    /// follows, that operator and a right operand at `prec` again.
    pub fn parse_prec(parser: &mut Parser, prec: i8) -> (r: Result<Expression, String>)
        requires
            prec >= 0,
        ensures
            yields(r, expression_at(old(parser)@, prec as nat).value),
            final(parser)@ == expression_at(old(parser)@, prec as nat).rest,
            final(parser)@.len() <= old(parser)@.len(),
        decreases old(parser)@.len(), prec + 2,
    {
        let parsed = if prec == 0 {
            Expression::parse_atom(parser)
        } else {
            Expression::parse_prec(parser, prec - 1)
        };
        let left = match parsed {
            Ok(left) => left,
            Err(e) => {
                return Err(e);
            },
        };
        let operator = match parser.tokens.peek() {
            None => {
                return Ok(left);
            },
            Some(Err(e)) => {
                return Err(e.clone());
            },
            Some(Ok(Token::Operator(c))) => {
                if Expression::precedence(*c) <= prec {
                    *c
                } else {
                    return Ok(left);
                }
            },
            Some(Ok(_)) => {
                return Ok(left);
            },
        };
        let _ = parser.tokens.next();
        let right = match Expression::parse_prec(parser, prec) {
            Ok(right) => right,
            Err(e) => {
                return Err(e);
            },
        };
        if operator == '*' {
            Ok(Expression::Mul(Box::new(left), Box::new(right)))
        } else if operator == '/' {
            Ok(Expression::Div(Box::new(left), Box::new(right)))
        } else if operator == '+' {
            Ok(Expression::Add(Box::new(left), Box::new(right)))
        } else if operator == '-' {
            Ok(Expression::Sub(Box::new(left), Box::new(right)))
        } else {
            Err(new_not_a_binary_operator(operator))
        }
    }
}

impl Clone for Expression {
    fn clone(&self) -> (r: Self)
        ensures
            r@ == self@,
    {
        self.duplicate()
    }
}

impl Parsable for Expression {
    open spec fn grammar(items: Seq<Item>) -> Parsed<ExprView> {
        expression(items)
    }

    /// Parses a whole expression.
    fn parse(parser: &mut Parser) -> (r: Result<Self, String>) {
        Expression::parse_prec(parser, 3)
    }
}

} // verus!
