//! The tokenizer: from characters to tokens, one at a time, with a look at
//! the next one.

use crate::chars::{
    ascii_digit, in_class, is_ascii_digit, is_ascii_punctuation, lemma_run_len_chars,
    lemma_run_len_is, run_len, CharClass,
};
use crate::lexing::{
    after_whitespace, lemma_tokenize_step, lex_next, lex_number, lex_operator, lex_symbol,
    token_text, tokenize, Item, TokenView,
};
use crate::messages::{
    new_number_then_letter, new_operator_at_end, new_operator_but_number,
    new_operator_but_symbol, new_other_operator, new_other_symbol, new_symbol_at_end,
    new_symbol_but_number, new_symbol_but_operator,
};
use crate::stream::{
    expect_operator, expect_operator_of, expect_symbol, expect_symbol_of, yields,
};
use vstd::prelude::*;
use vstd::string::StringExecFns;

verus! {

/// `std::io::Error` of std, the error type of the constructors that read a
/// source. Nothing is claimed of a value of it: the library carries none.
#[verifier::external_type_specification]
#[verifier::external_body]
pub struct ExIoError(std::io::Error);

/// The indivisible lexical unit.
#[derive(Debug, PartialEq)]
pub enum Token {
    /// A run of digits, not yet read as a number.
    Number(String),
    /// One punctuation character.
    Operator(char),
    /// A run of alphanumeric characters: an identifier or a keyword.
    Symbol(String),
}

impl View for Token {
    type V = TokenView;

    open spec fn view(&self) -> TokenView {
        match self {
            Token::Number(n) => TokenView::Number(n@),
            Token::Operator(c) => TokenView::Operator(*c),
            Token::Symbol(s) => TokenView::Symbol(s@),
        }
    }
}

/// What an item of the tokenizer is, as a value of mathematics.
pub open spec fn item_view(item: Result<Token, String>) -> Item {
    match item {
        Ok(token) => Ok(token@),
        Err(e) => Err(e@),
    }
}

impl Token {
    /// The token as messages show it: its kind, and its text in brackets.
    pub fn to_string(&self) -> (r: String)
        ensures
            r@ == token_text(self@),
    {
        match self {
            Token::Number(n) => String::from_str("Number(").concat(n.as_str()).concat(")"),
            Token::Operator(c) => {
                let mut r = String::from_str("Operator(");
                r.push(*c);
                r.append(")");
                r
            },
            Token::Symbol(s) => String::from_str("Symbol(").concat(s.as_str()).concat(")"),
        }
    }
}

/// The characters of a source and how far they have been read. Its view is
/// the characters not yet read.
pub struct TokenizerInner {
    chars: Vec<char>,
    pos: usize,
}

impl View for TokenizerInner {
    type V = Seq<char>;

    closed spec fn view(&self) -> Seq<char> {
        self.chars@.skip(self.pos as int)
    }
}

/// The lines of a source one after the other, with nothing between them.
pub open spec fn joined(lines: Seq<String>) -> Seq<char>
    decreases lines.len(),
{
    if lines.len() == 0 {
        Seq::empty()
    } else {
        joined(lines.drop_last()) + lines.last()@
    }
}

fn has_class(c: char, class: &CharClass) -> (b: bool)
    ensures
        b == in_class(*class, c),
{
    match class {
        CharClass::Whitespace => c.is_whitespace(),
        CharClass::Digit => is_ascii_digit(c),
        CharClass::Alphanumeric => c.is_alphanumeric(),
    }
}

impl TokenizerInner {
    #[verifier::type_invariant]
    spec fn well_formed(&self) -> bool {
        self.pos <= self.chars@.len()
    }

    /// A tokenizer that reads the characters of `data`.
    pub fn try_from(data: &str) -> (r: Result<TokenizerInner, std::io::Error>)
        ensures
            r matches Ok(t) && t@ == data@,
    {
        let mut chars: Vec<char> = Vec::new();
        for c in it: data.chars()
            invariant
                chars@ == data@.take(it.index() as int),
                it.seq() == data@,
        {
            chars.push(c);
        }
        let t = TokenizerInner { chars, pos: 0 };
        assert(t@ =~= data@);
        Ok(t)
    }

    /// A tokenizer that reads the characters of `lines`, one line after the
    /// other. Whatever ended a line in the source is not among them, so a
    /// token may run from the end of one line into the next.
    pub fn from_lines(lines: &Vec<String>) -> (r: TokenizerInner)
        ensures
            r@ == joined(lines@),
    {
        let mut chars: Vec<char> = Vec::new();
        for i in 0..lines.len()
            invariant
                chars@ == joined(lines@.take(i as int)),
        {
            let line = lines[i].as_str();
            let ghost before = chars@;
            for c in it: line.chars()
                invariant
                    chars@ == before + line@.take(it.index() as int),
                    it.seq() == line@,
            {
                chars.push(c);
            }
            proof {
                let next = lines@.take(i + 1);
                assert(next.drop_last() =~= lines@.take(i as int));
                assert(next.last() == lines@[i as int]);
                assert(line@.take(line@.len() as int) =~= line@);
            }
        }
        let t = TokenizerInner { chars, pos: 0 };
        assert(lines@.take(lines@.len() as int) =~= lines@);
        assert(t@ =~= joined(lines@));
        t
    }

    /// The index at which the run of `class` that starts at the read
    /// position ends.
    fn run_end(&self, class: CharClass) -> (end: usize)
        ensures
            self.pos <= end <= self.chars@.len(),
            end - self.pos == run_len(self@, class),
    {
        proof {
            use_type_invariant(self);
        }
        let mut end = self.pos;
        while end < self.chars.len() && has_class(self.chars[end], &class)
            invariant
                self.pos <= end <= self.chars@.len(),
                forall|i: int| self.pos <= i < end ==> in_class(class, #[trigger] self.chars@[i]),
            decreases self.chars@.len() - end,
        {
            end = end + 1;
        }
        proof {
            let s = self@;
            assert forall|i: int| 0 <= i < end - self.pos implies in_class(
                class,
                #[trigger] s[i],
            ) by {
                assert(s[i] == self.chars@[self.pos + i]);
            }
            lemma_run_len_is(s, class, end - self.pos);
        }
        end
    }

    /// Reads on to `end` and returns the characters passed.
    fn take_to(&mut self, end: usize) -> (text: String)
        requires
            old(self).pos <= end <= old(self).chars@.len(),
        ensures
            text@ == old(self)@.take(end - old(self).pos),
            final(self)@ == old(self)@.skip(end - old(self).pos),
            final(self).chars == old(self).chars,
            final(self).pos == end,
    {
        let mut text = String::new();
        let ghost start = self.pos;
        let ghost all = self.chars@;
        while self.pos < end
            invariant
                start <= self.pos <= end <= all.len(),
                self.chars == old(self).chars,
                all == self.chars@,
                text@ == all.subrange(start as int, self.pos as int),
            decreases end - self.pos,
        {
            text.push(self.chars[self.pos]);
            self.pos = self.pos + 1;
        }
        assert(text@ =~= old(self)@.take(end - start));
        assert(self@ =~= old(self)@.skip(end - start));
        text
    }

    /// Reads a number: the longest run of digits at the read position, which
    /// is empty where no digit stands there. A letter directly after the run
    /// is an error, and the run is consumed all the same.
    pub fn next_number(&mut self) -> (r: Result<Token, String>)
        ensures
            item_view(r) == lex_number(old(self)@).item,
            final(self)@ == lex_number(old(self)@).rest,
            r matches Ok(token) ==> token matches Token::Number(text) && (forall|i: int|
                0 <= i < text@.len() ==> ascii_digit(#[trigger] text@[i])) && (old(self)@.len() > 0
                && ascii_digit(old(self)@[0]) ==> text@.len() > 0),
    {
        proof {
            lemma_run_len_chars(self@, CharClass::Digit);
        }
        let end = self.run_end(CharClass::Digit);
        let text = self.take_to(end);
        if self.pos < self.chars.len() && self.chars[self.pos].is_alphabetic() {
            Err(new_number_then_letter())
        } else {
            Ok(Token::Number(text))
        }
    }

    /// Reads an operator: the character at the read position, whatever it
    /// is.
    pub fn next_operator(&mut self) -> (r: Result<Token, String>)
        ensures
            item_view(r) == lex_operator(old(self)@).item,
            final(self)@ == lex_operator(old(self)@).rest,
    {
        proof {
            use_type_invariant(&*self);
        }
        if self.pos < self.chars.len() {
            let c = self.chars[self.pos];
            self.pos = self.pos + 1;
            assert(self@ =~= old(self)@.skip(1));
            Ok(Token::Operator(c))
        } else {
            Err(new_operator_at_end())
        }
    }

    /// Reads a symbol: the longest run of alphanumeric characters at the
    /// read position.
    pub fn next_symbol(&mut self) -> (r: Result<Token, String>)
        ensures
            item_view(r) == lex_symbol(old(self)@).item,
            final(self)@ == lex_symbol(old(self)@).rest,
    {
        let end = self.run_end(CharClass::Alphanumeric);
        let text = self.take_to(end);
        Ok(Token::Symbol(text))
    }

    /// The next item, if there is one. White space before it is consumed in
    /// either case.
    pub fn next(&mut self) -> (r: Option<Result<Token, String>>)
        ensures
            match lex_next(old(self)@) {
                Some(l) => r matches Some(item) && item_view(item) == l.item && final(self)@
                    == l.rest,
                None => r is None && final(self)@ == after_whitespace(old(self)@),
            },
    {
        let end = self.run_end(CharClass::Whitespace);
        self.pos = end;
        assert(self@ =~= after_whitespace(old(self)@));
        if self.pos >= self.chars.len() {
            return None;
        }
        let c = self.chars[self.pos];
        assert(c == self@[0]);
        if is_ascii_digit(c) {
            Some(self.next_number())
        } else if is_ascii_punctuation(c) {
            Some(self.next_operator())
        } else if c.is_alphanumeric() {
            Some(self.next_symbol())
        } else {
            None
        }
    }
}

/// A tokenizer with a look at the next item. Its view is the items that it
/// still yields, in order; looking at the next one does not change it.
pub struct Tokenizer {
    inner: TokenizerInner,
    peeked: Option<Result<Token, String>>,
}

impl View for Tokenizer {
    type V = Seq<Item>;

    closed spec fn view(&self) -> Seq<Item> {
        match self.peeked {
            Some(item) => seq![item_view(item)] + tokenize(self.inner@),
            None => tokenize(self.inner@),
        }
    }
}

impl Tokenizer {
    /// A tokenizer over the characters of `data`.
    pub fn try_from(data: &str) -> (r: Result<Tokenizer, std::io::Error>)
        ensures
            r matches Ok(t) && t@ == tokenize(data@),
    {
        match TokenizerInner::try_from(data) {
            Ok(inner) => Ok(Tokenizer { inner, peeked: None }),
            Err(e) => Err(e),
        }
    }

    /// A tokenizer over the characters of `lines`, one line after the other
    /// with nothing between them.
    pub fn from_lines(lines: &Vec<String>) -> (r: Tokenizer)
        ensures
            r@ == tokenize(joined(lines@)),
    {
        Tokenizer { inner: TokenizerInner::from_lines(lines), peeked: None }
    }

    /// Takes the next item off the stream, if there is one.
    pub fn next(&mut self) -> (r: Option<Result<Token, String>>)
        ensures
            match r {
                Some(item) => old(self)@.len() > 0 && item_view(item) == old(self)@[0]
                    && final(self)@ == old(self)@.skip(1),
                None => old(self)@.len() == 0 && final(self)@ == old(self)@,
            },
    {
        match self.peeked.take() {
            Some(item) => {
                assert(self@ =~= old(self)@.skip(1));
                Some(item)
            },
            None => {
                proof {
                    lemma_tokenize_step(self.inner@);
                }
                self.inner.next()
            },
        }
    }

    /// The next item, if there is one, without taking it off the stream.
    pub fn peek(&mut self) -> (r: Option<&Result<Token, String>>)
        ensures
            final(self)@ == old(self)@,
            match r {
                Some(item) => old(self)@.len() > 0 && item_view(*item) == old(self)@[0],
                None => old(self)@.len() == 0,
            },
    {
        if self.peeked.is_none() {
            proof {
                lemma_tokenize_step(self.inner@);
            }
            self.peeked = self.inner.next();
        }
        self.peeked.as_ref()
    }

    /// Takes the next item, which has to be a symbol, and returns its text.
    /// The item is consumed whatever it is.
    pub fn expect_symbol(&mut self) -> (r: Result<String, String>)
        ensures
            yields(r, expect_symbol(old(self)@).value),
            final(self)@ == expect_symbol(old(self)@).rest,
    {
        match self.next() {
            Some(Ok(Token::Symbol(s))) => Ok(s),
            Some(Ok(Token::Number(n))) => Err(new_symbol_but_number(n.as_str())),
            Some(Ok(Token::Operator(c))) => Err(new_symbol_but_operator(c)),
            Some(Err(e)) => Err(e),
            None => Err(new_symbol_at_end()),
        }
    }

    /// Takes the next item, which has to be an operator, and returns its
    /// character. The item is consumed whatever it is.
    pub fn expect_operator(&mut self) -> (r: Result<char, String>)
        ensures
            yields(r, expect_operator(old(self)@).value),
            final(self)@ == expect_operator(old(self)@).rest,
    {
        match self.next() {
            Some(Ok(Token::Operator(c))) => Ok(c),
            Some(Ok(Token::Number(n))) => Err(new_operator_but_number(n.as_str())),
            Some(Ok(Token::Symbol(s))) => Err(new_operator_but_symbol(s.as_str())),
            Some(Err(e)) => Err(e),
            None => Err(new_operator_at_end()),
        }
    }

    /// Takes the next item, which has to be the symbol `expected`.
    pub fn expect_symbol_of(&mut self, expected: &str) -> (r: Result<(), String>)
        ensures
            yields(r, expect_symbol_of(old(self)@, expected@).value),
            final(self)@ == expect_symbol_of(old(self)@, expected@).rest,
    {
        match self.expect_symbol() {
            Ok(s) => {
                if s == String::from_str(expected) {
                    Ok(())
                } else {
                    Err(new_other_symbol(expected, s.as_str()))
                }
            },
            Err(e) => Err(e),
        }
    }

    /// Takes the next item, which has to be the operator `expected`.
    pub fn expect_operator_of(&mut self, expected: char) -> (r: Result<(), String>)
        ensures
            yields(r, expect_operator_of(old(self)@, expected).value),
            final(self)@ == expect_operator_of(old(self)@, expected).rest,
    {
        match self.expect_operator() {
            Ok(c) => {
                if c == expected {
                    Ok(())
                } else {
                    Err(new_other_operator(expected, c))
                }
            },
            Err(e) => Err(e),
        }
    }
}

} // verus!
