//! The texts of the errors that tokenizing and parsing report.
//!
//! Each message is a spec function, so that a contract can say which error
//! comes back, and beside it stands the function that builds the text.

use vstd::prelude::*;
use vstd::string::StringExecFns;

verus! {

/// A number token ran into a letter.
pub open spec fn number_then_letter() -> Seq<char> {
    "Number cannot be followed by a letter"@
}

/// An operator was asked for where the input ends.
pub open spec fn operator_at_end() -> Seq<char> {
    "Expected operator but found end of input"@
}

/// A symbol was asked for where the input ends.
pub open spec fn symbol_at_end() -> Seq<char> {
    "Expected symbol but found end of input"@
}

/// A symbol was asked for and the number `n` found.
pub open spec fn symbol_but_number(n: Seq<char>) -> Seq<char> {
    "Expected symbol but found number: "@ + n
}

/// A symbol was asked for and the operator `c` found.
pub open spec fn symbol_but_operator(c: char) -> Seq<char> {
    "Expected symbol but found operator: "@.push(c)
}

/// An operator was asked for and the number `n` found.
pub open spec fn operator_but_number(n: Seq<char>) -> Seq<char> {
    "Expected operator but found number: "@ + n
}

/// An operator was asked for and the symbol `s` found.
pub open spec fn operator_but_symbol(s: Seq<char>) -> Seq<char> {
    "Expected operator but found symbol: "@ + s
}

/// The symbol `expected` was asked for and the symbol `found` found.
pub open spec fn other_symbol(expected: Seq<char>, found: Seq<char>) -> Seq<char> {
    "Expected symbol '"@ + expected + "' but found '"@ + found + "'"@
}

/// The operator `expected` was asked for and the operator `found` found.
pub open spec fn other_operator(expected: char, found: char) -> Seq<char> {
    "Expected operator '"@.push(expected) + "' but found '"@.push(found) + "'"@
}

/// A block stands where a value is needed and yields none.
pub open spec fn block_without_value() -> Seq<char> {
    "Expected block with return value"@
}

/// An expression was asked for where the input ends.
pub open spec fn expression_at_end() -> Seq<char> {
    "Expected expression but found end of input"@
}

/// The text of a number token is empty.
pub open spec fn empty_number() -> Seq<char> {
    "Failed to parse number: cannot parse float from empty string"@
}

/// The text of a number token is not a decimal number.
pub open spec fn invalid_number() -> Seq<char> {
    "Failed to parse number: invalid float literal"@
}

/// An expression cannot start with the token whose text is `token`.
pub open spec fn not_an_operand(token: Seq<char>) -> Seq<char> {
    "Expected number or symbol but found "@ + token
}

/// The operator `c` joins no two operands.
pub open spec fn not_a_binary_operator(c: char) -> Seq<char> {
    "Expected valid operator but found "@.push(c)
}

/// Neither a type nor `=` follows `let name :`.
pub open spec fn let_without_type_or_value(name: Seq<char>) -> Seq<char> {
    "Expected type or '=' after let "@ + name + ":"@
}

/// A `let` or `return` line is closed by `}` without a `;` before it.
pub open spec fn statement_before_brace() -> Seq<char> {
    "Expected expression before '}' or ';' operator"@
}

/// A line is followed by the token whose text is `token` and not by `;`.
pub open spec fn line_not_ended(token: Seq<char>) -> Seq<char> {
    "Expected ';' but found '"@ + token + "'"@
}

/// The input ends after a line.
pub open spec fn line_at_end() -> Seq<char> {
    "Expected ';' but found end of input"@
}

pub fn new_number_then_letter() -> (r: String)
    ensures
        r@ == number_then_letter(),
{
    String::from_str("Number cannot be followed by a letter")
}

pub fn new_operator_at_end() -> (r: String)
    ensures
        r@ == operator_at_end(),
{
    String::from_str("Expected operator but found end of input")
}

pub fn new_symbol_at_end() -> (r: String)
    ensures
        r@ == symbol_at_end(),
{
    String::from_str("Expected symbol but found end of input")
}

pub fn new_symbol_but_number(n: &str) -> (r: String)
    ensures
        r@ == symbol_but_number(n@),
{
    String::from_str("Expected symbol but found number: ").concat(n)
}

pub fn new_symbol_but_operator(c: char) -> (r: String)
    ensures
        r@ == symbol_but_operator(c),
{
    let mut r = String::from_str("Expected symbol but found operator: ");
    r.push(c);
    r
}

pub fn new_operator_but_number(n: &str) -> (r: String)
    ensures
        r@ == operator_but_number(n@),
{
    String::from_str("Expected operator but found number: ").concat(n)
}

pub fn new_operator_but_symbol(s: &str) -> (r: String)
    ensures
        r@ == operator_but_symbol(s@),
{
    String::from_str("Expected operator but found symbol: ").concat(s)
}

pub fn new_other_symbol(expected: &str, found: &str) -> (r: String)
    ensures
        r@ == other_symbol(expected@, found@),
{
    String::from_str("Expected symbol '").concat(expected).concat("' but found '").concat(
        found,
    ).concat("'")
}

pub fn new_other_operator(expected: char, found: char) -> (r: String)
    ensures
        r@ == other_operator(expected, found),
{
    let mut r = String::from_str("Expected operator '");
    r.push(expected);
    r.append("' but found '");
    r.push(found);
    r.append("'");
    r
}

pub fn new_block_without_value() -> (r: String)
    ensures
        r@ == block_without_value(),
{
    String::from_str("Expected block with return value")
}

pub fn new_expression_at_end() -> (r: String)
    ensures
        r@ == expression_at_end(),
{
    String::from_str("Expected expression but found end of input")
}

pub fn new_empty_number() -> (r: String)
    ensures
        r@ == empty_number(),
{
    String::from_str("Failed to parse number: cannot parse float from empty string")
}

pub fn new_invalid_number() -> (r: String)
    ensures
        r@ == invalid_number(),
{
    String::from_str("Failed to parse number: invalid float literal")
}

pub fn new_not_an_operand(token: &str) -> (r: String)
    ensures
        r@ == not_an_operand(token@),
{
    String::from_str("Expected number or symbol but found ").concat(token)
}

pub fn new_not_a_binary_operator(c: char) -> (r: String)
    ensures
        r@ == not_a_binary_operator(c),
{
    let mut r = String::from_str("Expected valid operator but found ");
    r.push(c);
    r
}

pub fn new_let_without_type_or_value(name: &str) -> (r: String)
    ensures
        r@ == let_without_type_or_value(name@),
{
    String::from_str("Expected type or '=' after let ").concat(name).concat(":")
}

pub fn new_statement_before_brace() -> (r: String)
    ensures
        r@ == statement_before_brace(),
{
    String::from_str("Expected expression before '}' or ';' operator")
}

pub fn new_line_not_ended(token: &str) -> (r: String)
    ensures
        r@ == line_not_ended(token@),
{
    String::from_str("Expected ';' but found '").concat(token).concat("'")
}

pub fn new_line_at_end() -> (r: String)
    ensures
        r@ == line_at_end(),
{
    String::from_str("Expected ';' but found end of input")
}

} // verus!
