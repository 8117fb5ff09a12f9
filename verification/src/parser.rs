//! The parser shell: a tokenizer, and the top-level units read off it one
//! after the other.

use crate::expression::{ExprView, Expression};
use crate::grammar::expression;
use crate::lexing::{tokenize, Item};
use crate::stream::{yields, Parsed};
use crate::tokenizer::{joined, Tokenizer};
use vstd::prelude::*;

verus! {

/// A parser over a source. Its view is the items that the source still
/// yields.
pub struct Parser {
    pub tokens: Tokenizer,
}

impl View for Parser {
    type V = Seq<Item>;

    open spec fn view(&self) -> Seq<Item> {
        self.tokens@
    }
}

/// What can be parsed off a parser: a type with a grammar of its own.
pub trait Parsable: Sized + View {
    /// What a stream of items parses to as a value of this type, and what it
    /// leaves.
    spec fn grammar(items: Seq<Item>) -> Parsed<Self::V>;

    /// Parses one value off `parser`. The first error ends the parse.
    fn parse(parser: &mut Parser) -> (r: Result<Self, String>)
        ensures
            yields(r, Self::grammar(old(parser)@).value),
            final(parser)@ == Self::grammar(old(parser)@).rest,
    ;
}

/// A top-level unit, as a value of mathematics.
pub enum AstView {
    Expression(ExprView),
}

/// A top-level unit of a source.
#[derive(Debug)]
pub enum Ast {
    Expression(Expression),
}

impl View for Ast {
    type V = AstView;

    open spec fn view(&self) -> AstView {
        match self {
            Ast::Expression(e) => AstView::Expression(e@),
        }
    }
}

/// The top-level unit at the start of `items`: one whole expression.
pub open spec fn unit(items: Seq<Item>) -> Parsed<AstView> {
    let e = expression(items);
    Parsed {
        value: match e.value {
            Ok(v) => Ok(AstView::Expression(v)),
            Err(m) => Err(m),
        },
        rest: e.rest,
    }
}

impl Parser {
    /// A parser over the characters of `data`.
    pub fn try_from(data: &str) -> (r: Result<Parser, std::io::Error>)
        ensures
            r matches Ok(p) && p@ == tokenize(data@),
    {
        match Tokenizer::try_from(data) {
            Ok(tokens) => Ok(Parser { tokens }),
            Err(e) => Err(e),
        }
    }

    /// A parser over the characters of `lines`, one line after the other
    /// with nothing between them.
    pub fn from_lines(lines: &Vec<String>) -> (r: Parser)
        ensures
            r@ == tokenize(joined(lines@)),
    {
        Parser { tokens: Tokenizer::from_lines(lines) }
    }

    /// Parses one value of type `T` off the parser.
    pub fn next_of<T: Parsable>(&mut self) -> (r: Result<T, String>)
        ensures
            yields(r, T::grammar(old(self)@).value),
            final(self)@ == T::grammar(old(self)@).rest,
    {
        T::parse(self)
    }

    /// Parses the next top-level unit, if any item is left: one whole
    /// expression. Units follow each other with nothing between them.
    pub fn next(&mut self) -> (r: Option<Result<Ast, String>>)
        ensures
            match r {
                Some(result) => old(self)@.len() > 0 && yields(result, unit(old(self)@).value)
                    && final(self)@ == unit(old(self)@).rest,
                None => old(self)@.len() == 0 && final(self)@ == old(self)@,
            },
    {
        if self.tokens.peek().is_none() {
            return None;
        }
        match self.next_of::<Expression>() {
            Ok(e) => Some(Ok(Ast::Expression(e))),
            Err(e) => Some(Err(e)),
        }
    }
}

} // verus!
