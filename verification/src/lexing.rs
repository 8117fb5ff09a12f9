//! What tokenizing means: how a sequence of characters splits into tokens.
//!
//! The functions here are specifications only. The tokenizer of
//! [`crate::tokenizer`] is proved against them.

use crate::chars::{
    alphabetic, alphanumeric, ascii_digit, ascii_punctuation, lemma_run_len_bound,
    lemma_run_len_chars, lemma_run_len_is, run_len, CharClass,
};
use crate::messages::{number_then_letter, operator_at_end};
use vstd::prelude::*;

verus! {

/// A token, as a value of mathematics.
pub enum TokenView {
    /// A run of digits, not yet read as a number.
    Number(Seq<char>),
    /// One punctuation character.
    Operator(char),
    /// A run of alphanumeric characters: an identifier or a keyword.
    Symbol(Seq<char>),
}

/// What the tokenizer yields at one step: a token or the text of a lexical
/// error.
pub type Item = Result<TokenView, Seq<char>>;

/// One step of tokenizing: the item read and the characters after it.
pub struct Lexed {
    pub item: Item,
    pub rest: Seq<char>,
}

/// The text that a token is shown as in messages.
pub open spec fn token_text(token: TokenView) -> Seq<char> {
    match token {
        TokenView::Number(n) => "Number("@ + n + ")"@,
        TokenView::Operator(c) => "Operator("@.push(c) + ")"@,
        TokenView::Symbol(s) => "Symbol("@ + s + ")"@,
    }
}

/// Reads a number at the start of `s`: the longest run of digits. A letter
/// directly after the run is an error.
pub open spec fn lex_number(s: Seq<char>) -> Lexed {
    let n = run_len(s, CharClass::Digit) as int;
    let rest = s.skip(n);
    if rest.len() > 0 && alphabetic(rest[0]) {
        Lexed { item: Err(number_then_letter()), rest }
    } else {
        Lexed { item: Ok(TokenView::Number(s.take(n))), rest }
    }
}

/// Reads an operator at the start of `s`: its first character, whatever it
/// is.
pub open spec fn lex_operator(s: Seq<char>) -> Lexed {
    if s.len() == 0 {
        Lexed { item: Err(operator_at_end()), rest: s }
    } else {
        Lexed { item: Ok(TokenView::Operator(s[0])), rest: s.skip(1) }
    }
}

/// Reads a symbol at the start of `s`: the longest run of alphanumeric
/// characters.
pub open spec fn lex_symbol(s: Seq<char>) -> Lexed {
    let n = run_len(s, CharClass::Alphanumeric) as int;
    Lexed { item: Ok(TokenView::Symbol(s.take(n))), rest: s.skip(n) }
}

/// `s` without the white space at its start.
pub open spec fn after_whitespace(s: Seq<char>) -> Seq<char> {
    s.skip(run_len(s, CharClass::Whitespace) as int)
}

/// The next item of `s`, if there is one. White space before it is skipped;
/// then the first character decides: a digit starts a number, a
/// punctuation character of ASCII is an operator, an alphanumeric character
/// starts a symbol. At the end of `s`, and at any other character, there is no item.
pub open spec fn lex_next(s: Seq<char>) -> Option<Lexed> {
    let t = after_whitespace(s);
    if t.len() == 0 {
        None
    } else if ascii_digit(t[0]) {
        Some(lex_number(t))
    } else if ascii_punctuation(t[0]) {
        Some(lex_operator(t))
    } else if alphanumeric(t[0]) {
        Some(lex_symbol(t))
    } else {
        None
    }
}

/// All the items of `s`, in order.
pub open spec fn tokenize(s: Seq<char>) -> Seq<Item>
    decreases s.len(),
{
    match lex_next(s) {
        Some(l) => {
            proof {
                lemma_lex_next_consumes(s);
            }
            seq![l.item] + tokenize(l.rest)
        },
        None => Seq::empty(),
    }
}

/// Skipping white space leaves a suffix that does not start with white
/// space.
pub proof fn lemma_after_whitespace(s: Seq<char>)
    ensures
        after_whitespace(s).len() <= s.len(),
        after_whitespace(after_whitespace(s)) == after_whitespace(s),
{
    lemma_run_len_chars(s, CharClass::Whitespace);
    let t = after_whitespace(s);
    if t.len() > 0 {
        assert(t[0] == s[run_len(s, CharClass::Whitespace) as int]);
    }
    assert(run_len(t, CharClass::Whitespace) == 0);
    assert(t.skip(0) =~= t);
}

/// An item takes at least one character.
pub proof fn lemma_lex_next_consumes(s: Seq<char>)
    ensures
        lex_next(s) matches Some(l) ==> l.rest.len() < s.len(),
{
    let t = after_whitespace(s);
    lemma_run_len_bound(s, CharClass::Whitespace);
    lemma_run_len_bound(t, CharClass::Digit);
    lemma_run_len_bound(t, CharClass::Alphanumeric);
}

/// The items of `s` are its next item followed by the items of what is left
/// after it. Where there is no next item, there are no items, and none
/// after the white space either: tokenizing has come to its end.
pub proof fn lemma_tokenize_step(s: Seq<char>)
    ensures
        match lex_next(s) {
            Some(l) => {
                &&& tokenize(s) == seq![l.item] + tokenize(l.rest)
                &&& tokenize(s).len() > 0
                &&& tokenize(s)[0] == l.item
                &&& tokenize(s).skip(1) == tokenize(l.rest)
            },
            None => {
                &&& tokenize(s) == Seq::<Item>::empty()
                &&& tokenize(after_whitespace(s)) == Seq::<Item>::empty()
            },
        },
{
    match lex_next(s) {
        Some(l) => {
            assert(tokenize(s).skip(1) =~= tokenize(l.rest));
        },
        None => {
            lemma_after_whitespace(s);
        },
    }
}

/// A run of digits with a letter directly after it is a lexical error,
/// whatever white space stands in front of the run: the item read is that
/// error and no token, and the run is consumed. The run is the `n` digits
/// in front of the letter, so the letter is no digit itself.
pub proof fn lemma_number_then_letter(s: Seq<char>, n: int)
    requires
        0 < n < after_whitespace(s).len(),
        forall|i: int| 0 <= i < n ==> ascii_digit(#[trigger] after_whitespace(s)[i]),
        !ascii_digit(after_whitespace(s)[n]),
        alphabetic(after_whitespace(s)[n]),
    ensures
        lex_next(s) == Some(
            Lexed { item: Err(number_then_letter()), rest: after_whitespace(s).skip(n) },
        ),
        tokenize(s).len() > 0,
        tokenize(s)[0] == Err::<TokenView, Seq<char>>(number_then_letter()),
{
    let t = after_whitespace(s);
    assert(ascii_digit(t[0]));
    lemma_run_len_is(t, CharClass::Digit, n);
    assert(t.skip(n)[0] == t[n]);
    lemma_tokenize_step(s);
}

/// The shape of a token: a number is a run of digits, not empty, with no
/// digit and no letter directly after it; an operator is a punctuation
/// character of ASCII; a symbol is a run of alphanumeric characters, not
/// empty, with no alphanumeric character directly after it.
pub proof fn lemma_token_shape(s: Seq<char>)
    ensures
        lex_next(s) matches Some(l) ==> match l.item {
            Ok(TokenView::Number(n)) => {
                &&& n.len() > 0
                &&& forall|i: int| 0 <= i < n.len() ==> ascii_digit(#[trigger] n[i])
                &&& l.rest.len() > 0 ==> !ascii_digit(l.rest[0]) && !alphabetic(l.rest[0])
            },
            Ok(TokenView::Operator(c)) => ascii_punctuation(c),
            Ok(TokenView::Symbol(t)) => {
                &&& t.len() > 0
                &&& forall|i: int| 0 <= i < t.len() ==> alphanumeric(#[trigger] t[i])
                &&& l.rest.len() > 0 ==> !alphanumeric(l.rest[0])
            },
            Err(e) => e == number_then_letter(),
        },
{
    let t = after_whitespace(s);
    lemma_run_len_chars(t, CharClass::Digit);
    lemma_run_len_chars(t, CharClass::Alphanumeric);
    if lex_next(s) is Some {
        let n = run_len(t, CharClass::Digit) as int;
        let m = run_len(t, CharClass::Alphanumeric) as int;
        if n < t.len() {
            assert(t.skip(n)[0] == t[n]);
        }
        if m < t.len() {
            assert(t.skip(m)[0] == t[m]);
        }
    }
}

/// Every item of a source has the shape of a token or is the one lexical
/// error: a number among them is a run of digits and not empty, an operator
/// a punctuation character of ASCII, a symbol a run of alphanumeric
/// characters and not empty.
pub proof fn lemma_tokenize_shapes(s: Seq<char>, k: int)
    requires
        0 <= k < tokenize(s).len(),
    ensures
        match tokenize(s)[k] {
            Ok(TokenView::Number(n)) => n.len() > 0 && forall|i: int|
                0 <= i < n.len() ==> ascii_digit(#[trigger] n[i]),
            Ok(TokenView::Operator(c)) => ascii_punctuation(c),
            Ok(TokenView::Symbol(t)) => t.len() > 0 && forall|i: int|
                0 <= i < t.len() ==> alphanumeric(#[trigger] t[i]),
            Err(e) => e == number_then_letter(),
        },
    decreases s.len(),
{
    lemma_tokenize_step(s);
    lemma_lex_next_consumes(s);
    lemma_token_shape(s);
    let l = lex_next(s)->Some_0;
    if k > 0 {
        assert(tokenize(s)[k] == tokenize(l.rest)[k - 1]);
        lemma_tokenize_shapes(l.rest, k - 1);
    }
}

} // verus!
