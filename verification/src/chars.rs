//! The character classes by which the tokenizer splits its input, and runs of
//! characters of one class.

use vstd::prelude::*;

verus! {

/// Whether `c` is white space in the sense of the Unicode `White_Space`
/// property.
pub uninterp spec fn whitespace(c: char) -> bool;

/// Whether `c` is a letter: a character with the Unicode `Alphabetic`
/// property.
pub uninterp spec fn alphabetic(c: char) -> bool;

/// Whether `c` is alphabetic or numeric in the sense of Unicode.
pub uninterp spec fn alphanumeric(c: char) -> bool;

/// Whether `c` is one of the ten digits `0` to `9`.
pub open spec fn ascii_digit(c: char) -> bool {
    '0' <= c <= '9'
}

/// Whether `c` is one of the 32 punctuation characters of ASCII.
pub open spec fn ascii_punctuation(c: char) -> bool {
    ||| '!' <= c <= '/'
    ||| ':' <= c <= '@'
    ||| '[' <= c <= '`'
    ||| '{' <= c <= '~'
}

/// `char::is_whitespace` of std is not verified here. Its answer is a fixed
/// property of the character and goes by the name [`whitespace`]; nothing is
/// claimed about which characters have it.
pub assume_specification[ char::is_whitespace ](c: char) -> (b: bool)
    ensures
        b == whitespace(c),
;

/// `char::is_alphabetic` of std is not verified here. Its answer is a fixed
/// property of the character and goes by the name [`alphabetic`]; nothing is
/// claimed about which characters have it.
pub assume_specification[ char::is_alphabetic ](c: char) -> (b: bool)
    ensures
        b == alphabetic(c),
;

/// `char::is_alphanumeric` of std is not verified here. Its answer is a fixed
/// property of the character and goes by the name [`alphanumeric`]; nothing
/// is claimed about which characters have it.
pub assume_specification[ char::is_alphanumeric ](c: char) -> (b: bool)
    ensures
        b == alphanumeric(c),
;

/// Whether `c` is one of the ten digits `0` to `9`.
pub fn is_ascii_digit(c: char) -> (b: bool)
    ensures
        b == ascii_digit(c),
{
    '0' <= c && c <= '9'
}

/// Whether `c` is one of the 32 punctuation characters of ASCII.
pub fn is_ascii_punctuation(c: char) -> (b: bool)
    ensures
        b == ascii_punctuation(c),
{
    ('!' <= c && c <= '/') || (':' <= c && c <= '@') || ('[' <= c && c <= '`') || ('{' <= c
        && c <= '~')
}

/// `String::push` of std is not verified here. Its documentation says that it
/// appends the given character to the end of the string, which is what the
/// contract states over the views.
pub assume_specification[ String::push ](s: &mut String, ch: char)
    ensures
        final(s)@ == old(s)@.push(ch),
;

/// A class of characters that the tokenizer consumes as a run.
pub enum CharClass {
    Whitespace,
    Digit,
    Alphanumeric,
}

/// Whether `c` belongs to `class`.
pub open spec fn in_class(class: CharClass, c: char) -> bool {
    match class {
        CharClass::Whitespace => whitespace(c),
        CharClass::Digit => ascii_digit(c),
        CharClass::Alphanumeric => alphanumeric(c),
    }
}

/// The length of the longest prefix of `s` made of characters of `class`.
pub open spec fn run_len(s: Seq<char>, class: CharClass) -> nat
    decreases s.len(),
{
    if s.len() > 0 && in_class(class, s[0]) {
        1 + run_len(s.skip(1), class)
    } else {
        0
    }
}

/// A run never extends past the end of the sequence.
pub proof fn lemma_run_len_bound(s: Seq<char>, class: CharClass)
    ensures
        run_len(s, class) <= s.len(),
    decreases s.len(),
{
    if s.len() > 0 && in_class(class, s[0]) {
        lemma_run_len_bound(s.skip(1), class);
    }
}

/// The run of `class` at the start of `s` has length `n` exactly when the
/// first `n` characters are of that class and the one after them, if there is
/// one, is not.
pub proof fn lemma_run_len_is(s: Seq<char>, class: CharClass, n: int)
    requires
        0 <= n <= s.len(),
        forall|i: int| 0 <= i < n ==> in_class(class, #[trigger] s[i]),
        n < s.len() ==> !in_class(class, s[n]),
    ensures
        run_len(s, class) == n,
    decreases n,
{
    if n > 0 {
        let t = s.skip(1);
        assert forall|i: int| 0 <= i < n - 1 implies in_class(class, #[trigger] t[i]) by {
            assert(t[i] == s[i + 1]);
        }
        lemma_run_len_is(t, class, n - 1);
    }
}

/// Every character of a run is of its class, and the run is maximal.
pub proof fn lemma_run_len_chars(s: Seq<char>, class: CharClass)
    ensures
        run_len(s, class) <= s.len(),
        forall|i: int| 0 <= i < run_len(s, class) ==> in_class(class, #[trigger] s[i]),
        run_len(s, class) < s.len() ==> !in_class(class, s[run_len(s, class) as int]),
    decreases s.len(),
{
    if s.len() > 0 && in_class(class, s[0]) {
        let t = s.skip(1);
        lemma_run_len_chars(t, class);
        assert forall|i: int| 0 <= i < run_len(s, class) implies in_class(
            class,
            #[trigger] s[i],
        ) by {
            if i > 0 {
                assert(s[i] == t[i - 1]);
            }
        }
        if run_len(s, class) < s.len() {
            assert(s[run_len(s, class) as int] == t[run_len(t, class) as int]);
        }
    }
}

} // verus!
