//! What holds of the grammar whatever the input.

use crate::block::{has_value, LineView};
use crate::grammar::{
    atom, block, expression, expression_at, let_line, line, lines, operator, return_line,
};
use crate::lexing::Item;
use crate::messages::block_without_value;
use crate::stream::{advance, expect_operator_of, expect_symbol};
use vstd::prelude::*;

verus! {

/// Whether `rest` is what is left of `items` after some of its first items
/// were taken.
pub open spec fn is_rest_of(rest: Seq<Item>, items: Seq<Item>) -> bool {
    rest.len() <= items.len() && rest == items.skip(items.len() - rest.len())
}

/// What is left of what is left of `c` is left of `c`.
pub proof fn lemma_rest_of_rest(a: Seq<Item>, b: Seq<Item>, c: Seq<Item>)
    requires
        is_rest_of(a, b),
        is_rest_of(b, c),
    ensures
        is_rest_of(a, c),
{
    assert(c.skip(c.len() - b.len()).skip(b.len() - a.len()) =~= c.skip(c.len() - a.len()));
}

/// Taking one item, or none, leaves a rest.
pub proof fn lemma_rest_of_step(items: Seq<Item>)
    ensures
        is_rest_of(items, items),
        is_rest_of(advance(items), items),
        items.len() > 0 ==> is_rest_of(items.skip(1), items),
{
    assert(items.skip(0) =~= items);
}

/// Parsing an operand reads the items in order: what it leaves is the
/// input without some of its first items.
pub proof fn lemma_atom_rest(items: Seq<Item>)
    ensures
        is_rest_of(atom(items).rest, items),
    decreases items.len(), 1int,
{
    lemma_rest_of_step(items);
    if items.len() == 0 {
    } else if items[0] == operator('{') {
        lemma_block_rest(items);
    } else {
        let rest = items.skip(1);
        let inside = expression(rest);
        lemma_expression_at_rest(rest, 3);
        lemma_rest_of_step(inside.rest);
        lemma_rest_of_rest(advance(inside.rest), inside.rest, rest);
        lemma_rest_of_rest(inside.rest, rest, items);
        lemma_rest_of_rest(advance(inside.rest), rest, items);
    }
}

/// Parsing an expression reads the items in order: what it leaves is the
/// input without some of its first items.
pub proof fn lemma_expression_at_rest(items: Seq<Item>, level: nat)
    ensures
        is_rest_of(expression_at(items, level).rest, items),
    decreases items.len(), level + 2,
{
    let left = if level == 0 {
        atom(items)
    } else {
        expression_at(items, (level - 1) as nat)
    };
    if level == 0 {
        lemma_atom_rest(items);
    } else {
        lemma_expression_at_rest(items, (level - 1) as nat);
    }
    if left.value is Ok && left.rest.len() > 0 {
        let after = left.rest.skip(1);
        lemma_rest_of_step(left.rest);
        lemma_rest_of_rest(after, left.rest, items);
        lemma_expression_at_rest(after, level);
        lemma_rest_of_rest(expression_at(after, level).rest, after, items);
    }
}

/// Parsing a block reads the items in order.
pub proof fn lemma_block_rest(items: Seq<Item>)
    ensures
        is_rest_of(block(items).rest, items),
    decreases items.len(), 0int,
{
    lemma_rest_of_step(items);
    let open = expect_operator_of(items, '{');
    if open.value is Ok {
        lemma_lines_rest(open.rest, Seq::empty());
        lemma_rest_of_rest(lines(open.rest, Seq::empty()).rest, open.rest, items);
    }
}

/// Parsing a `let` line reads the items in order.
pub proof fn lemma_let_line_rest(items: Seq<Item>)
    ensures
        is_rest_of(let_line(items).rest, items),
    decreases items.len(), 0int,
{
    let first = advance(items);
    let name = expect_symbol(first);
    let colon = expect_operator_of(name.rest, ':');
    lemma_rest_of_step(items);
    lemma_rest_of_step(first);
    lemma_rest_of_step(name.rest);
    lemma_rest_of_rest(name.rest, first, items);
    lemma_rest_of_rest(colon.rest, name.rest, items);
    if name.value is Ok && colon.value is Ok && colon.rest.len() > 0 {
        let rest = colon.rest.skip(1);
        let equals = expect_operator_of(rest, '=');
        lemma_rest_of_step(colon.rest);
        lemma_rest_of_rest(rest, colon.rest, items);
        lemma_rest_of_step(rest);
        lemma_rest_of_rest(equals.rest, rest, items);
        lemma_expression_at_rest(rest, 3);
        lemma_rest_of_rest(expression(rest).rest, rest, items);
        if rest.len() > 0 {
            lemma_expression_at_rest(equals.rest, 3);
            lemma_rest_of_rest(expression(equals.rest).rest, equals.rest, items);
        }
    }
}

/// Parsing a `return` line reads the items in order.
pub proof fn lemma_return_line_rest(items: Seq<Item>)
    ensures
        is_rest_of(return_line(items).rest, items),
    decreases items.len(), 0int,
{
    lemma_rest_of_step(items);
    if items.len() > 0 {
        lemma_expression_at_rest(items.skip(1), 3);
        lemma_rest_of_rest(expression(items.skip(1)).rest, items.skip(1), items);
    }
}

/// Parsing a line reads the items in order.
pub proof fn lemma_line_rest(items: Seq<Item>)
    ensures
        is_rest_of(line(items).rest, items),
    decreases items.len(), 7int,
{
    lemma_let_line_rest(items);
    lemma_return_line_rest(items);
    lemma_expression_at_rest(items, 3);
}

/// Parsing the lines of a block reads the items in order.
pub proof fn lemma_lines_rest(items: Seq<Item>, done: Seq<LineView>)
    ensures
        is_rest_of(lines(items, done).rest, items),
    decreases items.len(), 8int,
{
    lemma_rest_of_step(items);
    if items.len() == 0 || items[0] == operator('}') || items[0] is Err {
    } else {
        let read = line(items);
        lemma_line_rest(items);
        if read.value is Ok && read.rest.len() > 0 {
            let rest = read.rest.skip(1);
            lemma_rest_of_step(read.rest);
            lemma_rest_of_rest(rest, read.rest, items);
            let l = read.value->Ok_0;
            lemma_lines_rest(rest, done.push(l));
            lemma_rest_of_rest(lines(rest, done.push(l)).rest, rest, items);
        }
    }
}

/// A block is closed by its `}`: where parsing a block succeeds, the item in
/// front of what is left is a `}`. A block that the input ends in is an
/// error.
pub proof fn lemma_block_is_closed(items: Seq<Item>)
    requires
        block(items).value is Ok,
    ensures
        block(items).rest.len() < items.len(),
        items[items.len() - block(items).rest.len() - 1] == operator('}'),
{
    let open = expect_operator_of(items, '{');
    lemma_rest_of_step(items);
    lemma_lines_are_closed(open.rest, Seq::empty());
    let rest = lines(open.rest, Seq::empty()).rest;
    assert(open.rest[open.rest.len() - rest.len() - 1] == items[items.len() - rest.len() - 1]);
}

/// The lines of a block end with the `}` that closes it.
pub proof fn lemma_lines_are_closed(items: Seq<Item>, done: Seq<LineView>)
    requires
        lines(items, done).value is Ok,
    ensures
        lines(items, done).rest.len() < items.len(),
        items[items.len() - lines(items, done).rest.len() - 1] == operator('}'),
    decreases items.len(),
{
    if items[0] == operator('}') {
    } else {
        let read = line(items);
        lemma_line_rest(items);
        let rest = read.rest.skip(1);
        let k = items.len() - read.rest.len();
        assert(read.rest[0] == items[k]);
        if read.rest[0] == operator(';') {
            let l = read.value->Ok_0;
            lemma_lines_are_closed(rest, done.push(l));
            let left = lines(rest, done.push(l)).rest;
            assert(rest[rest.len() - left.len() - 1] == read.rest[read.rest.len() - left.len() - 1]);
            assert(read.rest[read.rest.len() - left.len() - 1] == items[items.len() - left.len() - 1]);
        }
    }
}

/// A block that yields no value cannot stand where an operand is needed:
/// an expression that starts with such a block is an error at every level.
pub proof fn lemma_block_without_value(items: Seq<Item>, level: nat)
    requires
        items.len() > 0,
        items[0] == operator('{'),
        block(items).value matches Ok(lines) && !has_value(lines),
    ensures
        atom(items).value == Err::<crate::expression::ExprView, Seq<char>>(block_without_value()),
        expression_at(items, level).value == atom(items).value,
        expression_at(items, level).rest == block(items).rest,
    decreases level,
{
    if level > 0 {
        lemma_block_without_value(items, (level - 1) as nat);
    }
}

} // verus!
