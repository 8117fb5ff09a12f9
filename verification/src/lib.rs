//! Front end of a small expression language: a tokenizer and a
//! precedence-climbing parser that turn source text into a syntax tree.
//!
//! Every function states what it returns over mathematical models: the
//! characters left in a source ([`tokenizer::TokenizerInner`]), the items a
//! source still yields ([`tokenizer::Tokenizer`], [`parser::Parser`]), and the
//! views of the syntax tree ([`expression::ExprView`], [`block::LineView`]).
//! The grammar itself is the set of spec functions in [`grammar`].

pub mod chars;
pub mod messages;
pub mod lexing;
pub mod stream;
pub mod tokenizer;
pub mod number;
pub mod expression;
pub mod block;
pub mod grammar;
pub mod parser;
pub mod laws;
