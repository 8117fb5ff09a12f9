//! Blocks: sequences of lines between braces, and their parser.

use crate::expression::{expr_view, ExprView, Expression};
use crate::grammar::{block, let_line, line, lines, return_line};
use crate::lexing::Item;
use crate::messages::{
    new_expression_at_end, new_let_without_type_or_value, new_line_at_end, new_line_not_ended,
    new_statement_before_brace,
};
use crate::parser::{Parsable, Parser};
use crate::stream::{yields, Parsed};
use crate::tokenizer::Token;
use vstd::prelude::*;
use vstd::string::StringExecFns;

verus! {

/// A line of a block, as a value of mathematics.
pub enum LineView {
    Expression(ExprView),
    LetStatement { name: Seq<char>, value: ExprView, type_: Option<Seq<char>> },
    ReturnStatement(ExprView),
}

/// A line of a block.
#[derive(Debug)]
pub enum Line {
    /// An expression that stands for itself.
    Expression(Expression),
    /// A binding of a name to a value, with the name of a type or without.
    LetStatement { name: String, value: Expression, type_: Option<String> },
    /// The value that the block yields.
    ReturnStatement(Expression),
}

/// A block: its lines, in order. Its view is the sequence of the views of
/// its lines.
#[derive(Debug)]
pub struct Block {
    pub lines: Vec<Line>,
}

/// What `l` is, as a value of mathematics.
pub open spec fn line_view(l: Line) -> LineView
    decreases l,
{
    match l {
        Line::Expression(e) => LineView::Expression(expr_view(e)),
        Line::LetStatement { name, value, type_ } => LineView::LetStatement {
            name: name@,
            value: expr_view(value),
            type_: match type_ {
                Some(t) => Some(t@),
                None => None,
            },
        },
        Line::ReturnStatement(e) => LineView::ReturnStatement(expr_view(e)),
    }
}

/// What `lines` are, as values of mathematics.
pub open spec fn lines_view(lines: Seq<Line>) -> Seq<LineView>
    decreases lines,
{
    Seq::new(
        lines.len(),
        |i: int|
            if 0 <= i < lines.len() {
                line_view(lines[i])
            } else {
                arbitrary()
            },
    )
}

impl View for Line {
    type V = LineView;

    open spec fn view(&self) -> LineView {
        line_view(*self)
    }
}

impl View for Block {
    type V = Seq<LineView>;

    open spec fn view(&self) -> Seq<LineView> {
        lines_view(self.lines@)
    }
}

/// Whether a block of these lines yields a value: it does where its last
/// line is a return statement. A block without lines yields none.
pub open spec fn has_value(lines: Seq<LineView>) -> bool {
    lines.len() > 0 && lines.last() is ReturnStatement
}

impl Block {
    /// Whether the block yields a value.
    pub fn has_value(&self) -> (b: bool)
        ensures
            b == has_value(self@),
    {
        let n = self.lines.len();
        if n == 0 {
            false
        } else {
            match &self.lines[n - 1] {
                Line::ReturnStatement(_) => true,
                _ => false,
            }
        }
    }
}

/// The view of lines with one more line is the view of the lines with the
/// view of that line after it.
pub proof fn lemma_lines_view_push(done: Seq<Line>, l: Line)
    ensures
        lines_view(done.push(l)) == lines_view(done).push(line_view(l)),
{
    assert(lines_view(done.push(l)) =~= lines_view(done).push(line_view(l)));
}

/// No lines have no views.
pub proof fn lemma_lines_view_empty()
    ensures
        lines_view(Seq::<Line>::empty()) == Seq::<LineView>::empty(),
{
    assert(lines_view(Seq::<Line>::empty()) =~= Seq::<LineView>::empty());
}

/// What stands where a line of a block could start.
enum LineStart {
    Close,
    Let,
    Return,
    Expression,
}

fn is_text(s: &String, text: &str) -> (b: bool)
    ensures
        b == (s@ == text@),
{
    *s == String::from_str(text)
}

impl Line {
    /// A copy of the line.
    pub(crate) fn duplicate(&self) -> (r: Line)
        ensures
            r@ == self@,
        decreases self,
    {
        match self {
            Line::Expression(e) => Line::Expression(e.duplicate()),
            Line::LetStatement { name, value, type_ } => Line::LetStatement {
                name: name.clone(),
                value: value.duplicate(),
                type_: match type_ {
                    Some(t) => Some(t.clone()),
                    None => None,
                },
            },
            Line::ReturnStatement(e) => Line::ReturnStatement(e.duplicate()),
        }
    }
}

impl Clone for Line {
    fn clone(&self) -> (r: Self)
        ensures
            r@ == self@,
    {
        self.duplicate()
    }
}

impl Clone for Block {
    fn clone(&self) -> (r: Self)
        ensures
            r@ == self@,
    {
        self.duplicate()
    }
}

impl Block {
    /// A copy of the block, line by line.
    pub(crate) fn duplicate(&self) -> (r: Block)
        ensures
            r@ == self@,
        decreases self,
    {
        let mut lines: Vec<Line> = Vec::new();
        for i in 0..self.lines.len()
            invariant
                lines@.len() == i,
                forall|k: int| 0 <= k < i ==> line_view(#[trigger] lines@[k]) == line_view(self.lines@[k]),
        {
            lines.push(self.lines[i].duplicate());
        }
        let r = Block { lines };
        assert(r@ =~= self@);
        r
    }

    /// Parses a `let` line, its keyword included: `let name : type = value`
    /// or `let name := value`. The first item is taken for the keyword
    /// unseen.
    pub fn parse_let(parser: &mut Parser) -> (r: Result<Line, String>)
        ensures
            yields(r, let_line(old(parser)@).value),
            final(parser)@ == let_line(old(parser)@).rest,
            final(parser)@.len() <= old(parser)@.len(),
        decreases old(parser)@.len(), 0int,
    {
        let _ = parser.tokens.next();
        let name = match parser.tokens.expect_symbol() {
            Ok(name) => name,
            Err(e) => {
                return Err(e);
            },
        };
        match parser.tokens.expect_operator_of(':') {
            Ok(()) => {},
            Err(e) => {
                return Err(e);
            },
        }
        let type_ = match parser.tokens.next() {
            Some(Ok(Token::Symbol(t))) => Some(t),
            Some(Ok(Token::Operator(c))) => {
                if c == '=' {
                    None
                } else {
                    return Err(new_let_without_type_or_value(name.as_str()));
                }
            },
            Some(Err(e)) => {
                return Err(e);
            },
            _ => {
                return Err(new_let_without_type_or_value(name.as_str()));
            },
        };
        if type_.is_some() {
            match parser.tokens.expect_operator_of('=') {
                Ok(()) => {},
                Err(e) => {
                    return Err(e);
                },
            }
        }
        match Expression::parse_prec(parser, 3) {
            Ok(value) => Ok(Line::LetStatement { name, value, type_ }),
            Err(e) => Err(e),
        }
    }

    /// Parses a `return` line, its keyword included. The first item is taken
    /// for the keyword unseen.
    pub fn parse_return(parser: &mut Parser) -> (r: Result<Line, String>)
        ensures
            yields(r, return_line(old(parser)@).value),
            final(parser)@ == return_line(old(parser)@).rest,
            final(parser)@.len() <= old(parser)@.len(),
        decreases old(parser)@.len(), 0int,
    {
        if parser.tokens.next().is_none() {
            return Err(new_expression_at_end());
        }
        match Expression::parse_prec(parser, 3) {
            Ok(value) => Ok(Line::ReturnStatement(value)),
            Err(e) => Err(e),
        }
    }

    /// Parses a block: `{`, lines with `;` after each, and the `}` that
    /// closes it. The line in front of the `}` needs no `;`; where it is an
    /// expression without one, it becomes the value that the block yields.
    pub fn parse_block(parser: &mut Parser) -> (r: Result<Block, String>)
        ensures
            yields(r, block(old(parser)@).value),
            final(parser)@ == block(old(parser)@).rest,
            final(parser)@.len() <= old(parser)@.len(),
        decreases old(parser)@.len(), 0int,
    {
        let mut done: Vec<Line> = Vec::new();
        match parser.tokens.expect_operator_of('{') {
            Ok(()) => {},
            Err(e) => {
                return Err(e);
            },
        }
        proof {
            lemma_lines_view_empty();
        }
        loop
            invariant
                parser@.len() < old(parser)@.len(),
                lines(parser@, lines_view(done@)) == block(old(parser)@),
            decreases parser@.len(),
        {
            let ghost items = parser@;
            let start = match parser.tokens.peek() {
                None => {
                    return Err(new_expression_at_end());
                },
                Some(Err(e)) => {
                    return Err(e.clone());
                },
                Some(Ok(Token::Symbol(s))) => {
                    if is_text(s, "let") {
                        LineStart::Let
                    } else if is_text(s, "return") {
                        LineStart::Return
                    } else {
                        LineStart::Expression
                    }
                },
                Some(Ok(Token::Operator(c))) => {
                    if *c == '}' {
                        LineStart::Close
                    } else {
                        LineStart::Expression
                    }
                },
                Some(Ok(Token::Number(_))) => LineStart::Expression,
            };
            let parsed = match start {
                LineStart::Close => {
                    let _ = parser.tokens.next();
                    return Ok(Block { lines: done });
                },
                LineStart::Let => Block::parse_let(parser),
                LineStart::Return => Block::parse_return(parser),
                LineStart::Expression => match Expression::parse_prec(parser, 3) {
                    Ok(value) => Ok(Line::Expression(value)),
                    Err(e) => Err(e),
                },
            };
            assert(yields(parsed, line(items).value) && parser@ == line(items).rest);
            let line = match parsed {
                Ok(line) => line,
                Err(e) => {
                    return Err(e);
                },
            };
            proof {
                lemma_lines_view_push(done@, line);
            }
            match parser.tokens.next() {
                None => {
                    return Err(new_line_at_end());
                },
                Some(Err(e)) => {
                    return Err(e);
                },
                Some(Ok(Token::Operator(c))) => {
                    if c == ';' {
                        done.push(line);
                    } else if c == '}' {
                        match line {
                            Line::Expression(value) => {
                                let last = Line::ReturnStatement(value);
                                proof {
                                    lemma_lines_view_push(done@, last);
                                }
                                done.push(last);
                                return Ok(Block { lines: done });
                            },
                            _ => {
                                return Err(new_statement_before_brace());
                            },
                        }
                    } else {
                        return Err(
                            new_line_not_ended(Token::Operator(c).to_string().as_str()),
                        );
                    }
                },
                Some(Ok(token)) => {
                    return Err(new_line_not_ended(token.to_string().as_str()));
                },
            }
        }
    }
}

impl Parsable for Block {
    open spec fn grammar(items: Seq<Item>) -> Parsed<Seq<LineView>> {
        block(items)
    }

    /// Parses a block.
    fn parse(parser: &mut Parser) -> (r: Result<Self, String>) {
        Block::parse_block(parser)
    }
}

} // verus!
