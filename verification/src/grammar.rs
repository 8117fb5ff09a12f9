//! The grammar: what a stream of items parses to.
//!
//! Each function takes the items to read and gives the value read, or the
//! text of the first error met, together with the items that are left. The
//! parsers of [`crate::expression`] and [`crate::block`] are proved against
//! these functions.
//!
//! Binary operators are parsed by precedence climbing over levels: level 0 is
//! an operand, level 1 adds `*` and `/`, level 2 adds `+` and `-`. The right
//! operand of an operator is parsed at the level of the operator's own
//! caller, so operators chain to the right: `1 * 2 + 3` is `(1 * 2) + 3`,
//! and `1 + 2 * 3 * 4 + 5` is `1 + ((2 * (3 * 4)) + 5)`.

use crate::block::{has_value, LineView};
use crate::expression::ExprView;
use crate::lexing::{token_text, Item, TokenView};
use crate::messages::{
    block_without_value, expression_at_end, let_without_type_or_value, line_at_end,
    line_not_ended, not_a_binary_operator, not_an_operand, statement_before_brace,
};
use crate::number::{is_decimal, number_error};
use crate::stream::{advance, expect_operator_of, expect_symbol, Parsed};
use vstd::prelude::*;

verus! {

/// The outcome that is the error `e`, with `rest` left.
pub open spec fn failed<T>(e: Seq<char>, rest: Seq<Item>) -> Parsed<T> {
    Parsed { value: Err(e), rest }
}

/// The level from which on the operator `c` is taken: 1 for `*` and `/`, 2
/// for `+` and `-`. Every other character has level 100, above every level
/// that parsing an expression reaches.
pub open spec fn precedence(c: char) -> int {
    if c == '*' || c == '/' {
        1
    } else if c == '+' || c == '-' {
        2
    } else {
        100
    }
}

/// The level at which a whole expression is parsed: one above the loosest
/// operator.
pub open spec fn top_level() -> nat {
    3
}

/// The node that joins `left` and `right` by the operator `op`.
pub open spec fn binary(op: char, left: ExprView, right: ExprView) -> Result<ExprView, Seq<char>> {
    if op == '*' {
        Ok(ExprView::Mul(Box::new(left), Box::new(right)))
    } else if op == '/' {
        Ok(ExprView::Div(Box::new(left), Box::new(right)))
    } else if op == '+' {
        Ok(ExprView::Add(Box::new(left), Box::new(right)))
    } else if op == '-' {
        Ok(ExprView::Sub(Box::new(left), Box::new(right)))
    } else {
        Err(not_a_binary_operator(op))
    }
}

/// The literal that the text of a number token stands for.
pub open spec fn literal(text: Seq<char>) -> Result<ExprView, Seq<char>> {
    if is_decimal(text) {
        Ok(ExprView::Literal(text))
    } else {
        Err(number_error(text))
    }
}

/// The item that is the operator `c`.
pub open spec fn operator(c: char) -> Item {
    Ok(TokenView::Operator(c))
}

/// The item that is the symbol `s`.
pub open spec fn symbol(s: Seq<char>) -> Item {
    Ok(TokenView::Symbol(s))
}

/// An operand: a block that yields a value, a number, a variable, or an
/// expression in parentheses.
pub open spec fn atom(items: Seq<Item>) -> Parsed<ExprView>
    decreases items.len(), 1int,
{
    if items.len() == 0 {
        failed(expression_at_end(), items)
    } else if items[0] == operator('{') {
        let b = block(items);
        Parsed {
            value: match b.value {
                Ok(lines) => if has_value(lines) {
                    Ok(ExprView::Block(lines))
                } else {
                    Err(block_without_value())
                },
                Err(e) => Err(e),
            },
            rest: b.rest,
        }
    } else {
        let rest = items.skip(1);
        match items[0] {
            Ok(TokenView::Number(n)) => Parsed { value: literal(n), rest },
            Ok(TokenView::Symbol(s)) => Parsed { value: Ok(ExprView::Variable(s)), rest },
            Ok(TokenView::Operator(c)) => if c == '(' {
                let inside = expression_at(rest, top_level());
                match inside.value {
                    Ok(e) => {
                        let close = expect_operator_of(inside.rest, ')');
                        Parsed {
                            value: match close.value {
                                Ok(_) => Ok(e),
                                Err(m) => Err(m),
                            },
                            rest: close.rest,
                        }
                    },
                    Err(_) => inside,
                }
            } else {
                failed(not_an_operand(token_text(TokenView::Operator(c))), rest)
            },
            Err(e) => failed(e, rest),
        }
    }
}

/// An expression at `level`: a left operand of the level below, and, where
/// an operator of a level no higher than `level` follows, that operator and
/// a right operand at `level` again. An error that stands where the operator
/// is looked for is reported and left in the stream.
pub open spec fn expression_at(items: Seq<Item>, level: nat) -> Parsed<ExprView>
    decreases items.len(), level + 2,
{
    let left = if level == 0 {
        atom(items)
    } else {
        expression_at(items, (level - 1) as nat)
    };
    match left.value {
        Err(_) => left,
        Ok(l) => if left.rest.len() == 0 {
            left
        } else {
            match left.rest[0] {
                Err(e) => failed(e, left.rest),
                Ok(TokenView::Operator(c)) => if precedence(c) <= level {
                    // Always so: an operand leaves no more items than it was given
                    // (`laws::lemma_atom_rest`, `laws::lemma_expression_at_rest`).
                    if left.rest.len() <= items.len() {
                        let right = expression_at(left.rest.skip(1), level);
                        match right.value {
                            Ok(r) => Parsed { value: binary(c, l, r), rest: right.rest },
                            Err(_) => right,
                        }
                    } else {
                        arbitrary()
                    }
                } else {
                    left
                },
                Ok(_) => left,
            }
        },
    }
}

/// A whole expression.
pub open spec fn expression(items: Seq<Item>) -> Parsed<ExprView>
    decreases items.len(), 6int,
{
    expression_at(items, top_level())
}

/// A block: `{`, then lines, then `}`.
pub open spec fn block(items: Seq<Item>) -> Parsed<Seq<LineView>>
    decreases items.len(), 0int,
{
    let open = expect_operator_of(items, '{');
    match open.value {
        Ok(_) => lines(open.rest, Seq::empty()),
        Err(e) => failed(e, open.rest),
    }
}

/// A `let` line, its keyword included: `let name : type = value` or
/// `let name := value`. The first item is taken for the keyword unseen.
pub open spec fn let_line(items: Seq<Item>) -> Parsed<LineView>
    decreases items.len(), 0int,
{
    let name = expect_symbol(advance(items));
    match name.value {
        Err(e) => failed(e, name.rest),
        Ok(n) => {
            let colon = expect_operator_of(name.rest, ':');
            match colon.value {
                Err(e) => failed(e, colon.rest),
                Ok(_) => if colon.rest.len() == 0 {
                    failed(let_without_type_or_value(n), colon.rest)
                } else {
                    let rest = colon.rest.skip(1);
                    match colon.rest[0] {
                        Ok(TokenView::Symbol(t)) => {
                            let equals = expect_operator_of(rest, '=');
                            match equals.value {
                                Ok(_) => let_value(n, Some(t), expression(equals.rest)),
                                Err(e) => failed(e, equals.rest),
                            }
                        },
                        Ok(TokenView::Operator(c)) => if c == '=' {
                            let_value(n, None, expression(rest))
                        } else {
                            failed(let_without_type_or_value(n), rest)
                        },
                        Ok(TokenView::Number(_)) => failed(let_without_type_or_value(n), rest),
                        Err(e) => failed(e, rest),
                    }
                },
            }
        },
    }
}

/// The `let` line of `name` and `type_` with the value parsed as `value`.
pub open spec fn let_value(
    name: Seq<char>,
    type_: Option<Seq<char>>,
    value: Parsed<ExprView>,
) -> Parsed<LineView> {
    Parsed {
        value: match value.value {
            Ok(v) => Ok(LineView::LetStatement { name, value: v, type_ }),
            Err(e) => Err(e),
        },
        rest: value.rest,
    }
}

/// A `return` line, its keyword included. The first item is taken for the
/// keyword unseen.
pub open spec fn return_line(items: Seq<Item>) -> Parsed<LineView>
    decreases items.len(), 0int,
{
    if items.len() == 0 {
        failed(expression_at_end(), items)
    } else {
        let value = expression(items.skip(1));
        Parsed {
            value: match value.value {
                Ok(v) => Ok(LineView::ReturnStatement(v)),
                Err(e) => Err(e),
            },
            rest: value.rest,
        }
    }
}

/// One line: a `let` line, a `return` line, or an expression.
pub open spec fn line(items: Seq<Item>) -> Parsed<LineView>
    decreases items.len(), 7int,
{
    if items.len() > 0 && items[0] == symbol("let"@) {
        let_line(items)
    } else if items.len() > 0 && items[0] == symbol("return"@) {
        return_line(items)
    } else {
        let value = expression(items);
        Parsed {
            value: match value.value {
                Ok(v) => Ok(LineView::Expression(v)),
                Err(e) => Err(e),
            },
            rest: value.rest,
        }
    }
}

/// The lines of a block after the lines `done`, up to the `}` that closes
/// the block, which is taken.
///
/// Where a line could start, `}` closes the block; the end of the input is
/// the error of a missing expression; an error item is reported and left in
/// the stream. After a line comes `;` or `}`: `;` goes on to where the next
/// line could start; `}` closes the block after an expression, which becomes
/// the value that the block yields, and is an error after a `let` or
/// `return` line.
pub open spec fn lines(items: Seq<Item>, done: Seq<LineView>) -> Parsed<Seq<LineView>>
    decreases items.len(), 8int,
{
    if items.len() == 0 {
        failed(expression_at_end(), items)
    } else if items[0] == operator('}') {
        Parsed { value: Ok(done), rest: items.skip(1) }
    } else if items[0] is Err {
        failed(items[0]->Err_0, items)
    } else {
        let read = line(items);
        match read.value {
            Err(e) => failed(e, read.rest),
            Ok(l) => if read.rest.len() == 0 {
                failed(line_at_end(), read.rest)
            } else {
                let rest = read.rest.skip(1);
                match read.rest[0] {
                    Err(e) => failed(e, rest),
                    Ok(TokenView::Operator(c)) => if c == ';' {
                        if read.rest.len() <= items.len() {
                            lines(rest, done.push(l))
                        } else {
                            // Never reached: a line leaves no more items than it was
                            // given (`laws::lemma_line_rest`).
                            arbitrary()
                        }
                    } else if c == '}' {
                        match l {
                            LineView::Expression(e) => Parsed {
                                value: Ok(done.push(LineView::ReturnStatement(e))),
                                rest,
                            },
                            _ => failed(statement_before_brace(), rest),
                        }
                    } else {
                        failed(line_not_ended(token_text(TokenView::Operator(c))), rest)
                    },
                    Ok(t) => failed(line_not_ended(token_text(t)), rest),
                }
            },
        }
    }
}

} // verus!
