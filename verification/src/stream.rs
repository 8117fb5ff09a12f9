//! Reading one item off a stream of items and asking it to be of a given
//! kind. These are the specifications of the `expect` operations of
//! [`crate::tokenizer::Tokenizer`].

use crate::lexing::{Item, TokenView};
use crate::messages::{
    operator_at_end, operator_but_number, operator_but_symbol, other_operator, other_symbol,
    symbol_at_end, symbol_but_number, symbol_but_operator,
};
use vstd::prelude::*;

verus! {

/// The outcome of reading something off a stream of items: a value or the
/// text of an error, and the items that are left.
pub struct Parsed<T> {
    pub value: Result<T, Seq<char>>,
    pub rest: Seq<Item>,
}

/// Whether the result `r` of an operation is `value`, taken by its view.
pub open spec fn yields<T: View>(r: Result<T, String>, value: Result<T::V, Seq<char>>) -> bool {
    match r {
        Ok(x) => value == Ok::<T::V, Seq<char>>(x@),
        Err(e) => value == Err::<T::V, Seq<char>>(e@),
    }
}

/// `items` without its first item; where there is none, `items` itself.
pub open spec fn advance(items: Seq<Item>) -> Seq<Item> {
    if items.len() > 0 {
        items.skip(1)
    } else {
        items
    }
}

/// Takes the next item, which has to be a symbol. The item is consumed
/// whatever it is.
pub open spec fn expect_symbol(items: Seq<Item>) -> Parsed<Seq<char>> {
    Parsed {
        value: if items.len() == 0 {
            Err(symbol_at_end())
        } else {
            match items[0] {
                Ok(TokenView::Symbol(s)) => Ok(s),
                Ok(TokenView::Number(n)) => Err(symbol_but_number(n)),
                Ok(TokenView::Operator(c)) => Err(symbol_but_operator(c)),
                Err(e) => Err(e),
            }
        },
        rest: advance(items),
    }
}

/// Takes the next item, which has to be an operator. The item is consumed
/// whatever it is.
pub open spec fn expect_operator(items: Seq<Item>) -> Parsed<char> {
    Parsed {
        value: if items.len() == 0 {
            Err(operator_at_end())
        } else {
            match items[0] {
                Ok(TokenView::Operator(c)) => Ok(c),
                Ok(TokenView::Number(n)) => Err(operator_but_number(n)),
                Ok(TokenView::Symbol(s)) => Err(operator_but_symbol(s)),
                Err(e) => Err(e),
            }
        },
        rest: advance(items),
    }
}

/// Takes the next item, which has to be the symbol `expected`.
pub open spec fn expect_symbol_of(items: Seq<Item>, expected: Seq<char>) -> Parsed<()> {
    let read = expect_symbol(items);
    Parsed {
        value: match read.value {
            Ok(s) => if s == expected {
                Ok(())
            } else {
                Err(other_symbol(expected, s))
            },
            Err(e) => Err(e),
        },
        rest: read.rest,
    }
}

/// Takes the next item, which has to be the operator `expected`.
pub open spec fn expect_operator_of(items: Seq<Item>, expected: char) -> Parsed<()> {
    let read = expect_operator(items);
    Parsed {
        value: match read.value {
            Ok(c) => if c == expected {
                Ok(())
            } else {
                Err(other_operator(expected, c))
            },
            Err(e) => Err(e),
        },
        rest: read.rest,
    }
}

} // verus!
