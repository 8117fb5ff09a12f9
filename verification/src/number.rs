//! Number literals: unsigned decimal numbers of any length, kept by their
//! digits.

use crate::chars::{ascii_digit, is_ascii_digit};
use crate::messages::{empty_number, invalid_number, new_empty_number, new_invalid_number};
use vstd::prelude::*;

verus! {

/// Whether `s` writes a decimal number: at least one character, and digits
/// of ASCII only.
pub open spec fn is_decimal(s: Seq<char>) -> bool {
    &&& s.len() > 0
    &&& forall|i: int| 0 <= i < s.len() ==> ascii_digit(#[trigger] s[i])
}

/// The error that reading `s` as a number gives, where `s` is not a decimal
/// number.
pub open spec fn number_error(s: Seq<char>) -> Seq<char> {
    if s.len() == 0 {
        empty_number()
    } else {
        invalid_number()
    }
}

/// A number literal. Its view is its digits, which always write a decimal
/// number.
#[derive(Debug)]
pub struct Decimal {
    digits: String,
}

impl View for Decimal {
    type V = Seq<char>;

    closed spec fn view(&self) -> Seq<char> {
        self.digits@
    }
}

impl Clone for Decimal {
    fn clone(&self) -> (r: Self)
        ensures
            r@ == self@,
    {
        proof {
            use_type_invariant(self);
        }
        Decimal { digits: self.digits.clone() }
    }
}

impl Decimal {
    #[verifier::type_invariant]
    spec fn well_formed(&self) -> bool {
        is_decimal(self.digits@)
    }

    /// Reads a text as a number. The text has to be a run of digits, and not
    /// empty.
    pub fn parse(text: String) -> (r: Result<Decimal, String>)
        ensures
            match r {
                Ok(d) => is_decimal(text@) && d@ == text@,
                Err(e) => !is_decimal(text@) && e@ == number_error(text@),
            },
    {
        if text.as_str().is_empty() {
            return Err(new_empty_number());
        }
        for c in it: text.as_str().chars()
            invariant
                it.seq() == text@,
                forall|i: int| 0 <= i < it.index() ==> ascii_digit(#[trigger] text@[i]),
        {
            if !is_ascii_digit(c) {
                assert(!ascii_digit(text@[it.index() as int]));
                return Err(new_invalid_number());
            }
        }
        Ok(Decimal { digits: text })
    }

    /// The digits of the literal.
    pub fn digits(&self) -> (r: &str)
        ensures
            r@ == self@,
            is_decimal(r@),
    {
        proof {
            use_type_invariant(self);
        }
        self.digits.as_str()
    }
}

} // verus!
