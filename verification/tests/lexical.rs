use exprlang::number::Decimal;
use exprlang::tokenizer::{Token, Tokenizer, TokenizerInner};

fn number(text: &str) -> Option<Result<Token, String>> {
    Some(Ok(Token::Number(text.to_string())))
}

fn symbol(text: &str) -> Option<Result<Token, String>> {
    Some(Ok(Token::Symbol(text.to_string())))
}

fn operator(c: char) -> Option<Result<Token, String>> {
    Some(Ok(Token::Operator(c)))
}

#[test]
fn tokens_of_a_dense_expression() {
    let mut tokenizer = TokenizerInner::try_from("3+5*2-8/4").unwrap();
    assert_eq!(tokenizer.next(), number("3"));
    assert_eq!(tokenizer.next(), operator('+'));
    assert_eq!(tokenizer.next(), number("5"));
    assert_eq!(tokenizer.next(), operator('*'));
    assert_eq!(tokenizer.next(), number("2"));
    assert_eq!(tokenizer.next(), operator('-'));
    assert_eq!(tokenizer.next(), number("8"));
    assert_eq!(tokenizer.next(), operator('/'));
    assert_eq!(tokenizer.next(), number("4"));
    assert_eq!(tokenizer.next(), None);
    assert_eq!(tokenizer.next(), None);
}

#[test]
fn number_followed_by_letter_is_an_error() {
    let mut tokenizer = TokenizerInner::try_from("456var").unwrap();
    assert_eq!(
        tokenizer.next(),
        Some(Err("Number cannot be followed by a letter".to_string()))
    );
    // The digits are consumed, the letters are not.
    assert_eq!(tokenizer.next(), symbol("var"));
    assert_eq!(tokenizer.next(), None);
}

#[test]
fn number_followed_by_letter_after_white_space() {
    let mut tokenizer = Tokenizer::try_from("  \t7x").unwrap();
    assert_eq!(
        tokenizer.next(),
        Some(Err("Number cannot be followed by a letter".to_string()))
    );
}

#[test]
fn number_followed_by_operator_or_space_is_fine() {
    let mut tokenizer = TokenizerInner::try_from("12) 34 ").unwrap();
    assert_eq!(tokenizer.next(), number("12"));
    assert_eq!(tokenizer.next(), operator(')'));
    assert_eq!(tokenizer.next(), number("34"));
    assert_eq!(tokenizer.next(), None);
}

#[test]
fn next_number_reads_the_digit_run() {
    let mut tokenizer = TokenizerInner::try_from("2024+1").unwrap();
    assert_eq!(tokenizer.next_number(), Ok(Token::Number("2024".to_string())));
    assert_eq!(tokenizer.next(), operator('+'));
}

#[test]
fn next_number_without_digits_is_an_empty_number() {
    let mut tokenizer = TokenizerInner::try_from("+1").unwrap();
    assert_eq!(tokenizer.next_number(), Ok(Token::Number(String::new())));
    assert_eq!(tokenizer.next(), operator('+'));
}

#[test]
fn next_operator_takes_any_character() {
    let mut tokenizer = TokenizerInner::try_from("ab").unwrap();
    assert_eq!(tokenizer.next_operator(), Ok(Token::Operator('a')));
    assert_eq!(tokenizer.next_operator(), Ok(Token::Operator('b')));
    assert_eq!(
        tokenizer.next_operator(),
        Err("Expected operator but found end of input".to_string())
    );
}

#[test]
fn next_symbol_reads_letters_and_digits() {
    let mut tokenizer = TokenizerInner::try_from("x1y2 z").unwrap();
    assert_eq!(tokenizer.next_symbol(), Ok(Token::Symbol("x1y2".to_string())));
    assert_eq!(tokenizer.next_symbol(), Ok(Token::Symbol(String::new())));
    assert_eq!(tokenizer.next(), symbol("z"));
}

#[test]
fn every_ascii_punctuation_character_is_an_operator() {
    let all = "!\"#$%&'()*+,-./:;<=>?@[\\]^_`{|}~";
    assert_eq!(all.chars().count(), 32);
    let mut tokenizer = TokenizerInner::try_from(all).unwrap();
    for c in all.chars() {
        assert_eq!(tokenizer.next(), operator(c));
    }
    assert_eq!(tokenizer.next(), None);
}

#[test]
fn colon_and_equals_are_two_operators() {
    let mut tokenizer = TokenizerInner::try_from(":=").unwrap();
    assert_eq!(tokenizer.next(), operator(':'));
    assert_eq!(tokenizer.next(), operator('='));
    assert_eq!(tokenizer.next(), None);
}

#[test]
fn unicode_white_space_is_skipped() {
    let mut tokenizer = TokenizerInner::try_from("\u{a0}a\u{2003}\n\tb\r\n").unwrap();
    assert_eq!(tokenizer.next(), symbol("a"));
    assert_eq!(tokenizer.next(), symbol("b"));
    assert_eq!(tokenizer.next(), None);
}

#[test]
fn unicode_letters_make_symbols() {
    let mut tokenizer = TokenizerInner::try_from("été + 越").unwrap();
    assert_eq!(tokenizer.next(), symbol("été"));
    assert_eq!(tokenizer.next(), operator('+'));
    assert_eq!(tokenizer.next(), symbol("越"));
    assert_eq!(tokenizer.next(), None);
}

#[test]
fn only_digits_make_numbers() {
    // Numeric characters that are no digits fall under the symbol rule.
    let mut tokenizer = TokenizerInner::try_from("\u{be} ٣٤ ½ 7").unwrap();
    assert_eq!(tokenizer.next(), symbol("\u{be}"));
    assert_eq!(tokenizer.next(), symbol("٣٤"));
    assert_eq!(tokenizer.next(), symbol("½"));
    assert_eq!(tokenizer.next(), number("7"));
    assert_eq!(tokenizer.next(), None);
}

#[test]
fn digit_run_ends_at_what_is_no_digit() {
    // A numeric character that is neither digit nor letter ends the run
    // without an error and starts a symbol.
    let mut tokenizer = TokenizerInner::try_from("12½ 34٣").unwrap();
    assert_eq!(tokenizer.next(), number("12"));
    assert_eq!(tokenizer.next(), symbol("½"));
    assert_eq!(tokenizer.next(), number("34"));
    assert_eq!(tokenizer.next(), symbol("٣"));
    assert_eq!(tokenizer.next(), None);
}

#[test]
fn letters_of_any_script_after_digits_are_an_error() {
    let message = Some(Err("Number cannot be followed by a letter".to_string()));
    assert_eq!(TokenizerInner::try_from("1é").unwrap().next(), message);
    assert_eq!(TokenizerInner::try_from("20越").unwrap().next(), message);
}

#[test]
fn next_number_takes_digits_only() {
    let mut tokenizer = TokenizerInner::try_from("12٣").unwrap();
    assert_eq!(tokenizer.next_number(), Ok(Token::Number("12".to_string())));
    assert_eq!(tokenizer.next_number(), Ok(Token::Number(String::new())));
    assert_eq!(tokenizer.next(), symbol("٣"));
}

#[test]
fn other_characters_end_the_input() {
    // A control character is no white space, digit, punctuation or letter.
    let mut tokenizer = TokenizerInner::try_from("a \u{1} b").unwrap();
    assert_eq!(tokenizer.next(), symbol("a"));
    assert_eq!(tokenizer.next(), None);
    assert_eq!(tokenizer.next(), None);
}

#[test]
fn non_ascii_punctuation_ends_the_input() {
    let mut tokenizer = Tokenizer::try_from("1 × 2").unwrap();
    assert_eq!(tokenizer.next(), number("1"));
    assert_eq!(tokenizer.peek(), None);
    assert_eq!(tokenizer.next(), None);
}

#[test]
fn lines_are_joined_without_separator() {
    let lines = vec!["12".to_string(), "34 a".to_string(), "b".to_string(), String::new()];
    let mut tokenizer = TokenizerInner::from_lines(&lines);
    assert_eq!(tokenizer.next(), number("1234"));
    assert_eq!(tokenizer.next(), symbol("ab"));
    assert_eq!(tokenizer.next(), None);
}

#[test]
fn no_lines_no_tokens() {
    let mut tokenizer = Tokenizer::from_lines(&Vec::new());
    assert_eq!(tokenizer.peek(), None);
    assert_eq!(tokenizer.next(), None);
}

#[test]
fn peek_does_not_consume() {
    let mut tokenizer = Tokenizer::try_from("a + 1").unwrap();
    assert_eq!(tokenizer.peek(), Some(&Ok(Token::Symbol("a".to_string()))));
    assert_eq!(tokenizer.peek(), Some(&Ok(Token::Symbol("a".to_string()))));
    assert_eq!(tokenizer.next(), symbol("a"));
    assert_eq!(tokenizer.peek(), Some(&Ok(Token::Operator('+'))));
    assert_eq!(tokenizer.next(), operator('+'));
    assert_eq!(tokenizer.next(), number("1"));
    assert_eq!(tokenizer.peek(), None);
    assert_eq!(tokenizer.next(), None);
    assert_eq!(tokenizer.peek(), None);
}

#[test]
fn peek_shows_an_error_and_next_takes_it() {
    let mut tokenizer = Tokenizer::try_from("1a").unwrap();
    let message = "Number cannot be followed by a letter".to_string();
    assert_eq!(tokenizer.peek(), Some(&Err(message.clone())));
    assert_eq!(tokenizer.next(), Some(Err(message)));
    assert_eq!(tokenizer.next(), symbol("a"));
}

#[test]
fn expect_symbol_returns_the_text() {
    let mut tokenizer = Tokenizer::try_from("name rest").unwrap();
    assert_eq!(tokenizer.expect_symbol(), Ok("name".to_string()));
    assert_eq!(tokenizer.next(), symbol("rest"));
}

#[test]
fn expect_symbol_errors() {
    let mut tokenizer = Tokenizer::try_from("12 + 3z").unwrap();
    assert_eq!(
        tokenizer.expect_symbol(),
        Err("Expected symbol but found number: 12".to_string())
    );
    assert_eq!(
        tokenizer.expect_symbol(),
        Err("Expected symbol but found operator: +".to_string())
    );
    assert_eq!(
        tokenizer.expect_symbol(),
        Err("Number cannot be followed by a letter".to_string())
    );
    assert_eq!(tokenizer.expect_symbol(), Ok("z".to_string()));
    assert_eq!(
        tokenizer.expect_symbol(),
        Err("Expected symbol but found end of input".to_string())
    );
}

#[test]
fn expect_operator_returns_the_character() {
    let mut tokenizer = Tokenizer::try_from("; x").unwrap();
    assert_eq!(tokenizer.expect_operator(), Ok(';'));
    assert_eq!(tokenizer.next(), symbol("x"));
}

#[test]
fn expect_operator_errors() {
    let mut tokenizer = Tokenizer::try_from("12 abc 3z").unwrap();
    assert_eq!(
        tokenizer.expect_operator(),
        Err("Expected operator but found number: 12".to_string())
    );
    assert_eq!(
        tokenizer.expect_operator(),
        Err("Expected operator but found symbol: abc".to_string())
    );
    assert_eq!(
        tokenizer.expect_operator(),
        Err("Number cannot be followed by a letter".to_string())
    );
    assert_eq!(tokenizer.next(), symbol("z"));
    assert_eq!(
        tokenizer.expect_operator(),
        Err("Expected operator but found end of input".to_string())
    );
}

#[test]
fn expect_symbol_of_compares_the_text() {
    let mut tokenizer = Tokenizer::try_from("let lets 5").unwrap();
    assert_eq!(tokenizer.expect_symbol_of("let"), Ok(()));
    assert_eq!(
        tokenizer.expect_symbol_of("let"),
        Err("Expected symbol 'let' but found 'lets'".to_string())
    );
    assert_eq!(
        tokenizer.expect_symbol_of("let"),
        Err("Expected symbol but found number: 5".to_string())
    );
    assert_eq!(
        tokenizer.expect_symbol_of("let"),
        Err("Expected symbol but found end of input".to_string())
    );
}

#[test]
fn expect_operator_of_compares_the_character() {
    let mut tokenizer = Tokenizer::try_from(") ( x").unwrap();
    assert_eq!(tokenizer.expect_operator_of(')'), Ok(()));
    assert_eq!(
        tokenizer.expect_operator_of(')'),
        Err("Expected operator ')' but found '('".to_string())
    );
    assert_eq!(
        tokenizer.expect_operator_of(')'),
        Err("Expected operator but found symbol: x".to_string())
    );
    assert_eq!(
        tokenizer.expect_operator_of(')'),
        Err("Expected operator but found end of input".to_string())
    );
}

#[test]
fn expect_consumes_after_a_peek() {
    let mut tokenizer = Tokenizer::try_from("a b").unwrap();
    assert!(tokenizer.peek().is_some());
    assert_eq!(tokenizer.expect_symbol(), Ok("a".to_string()));
    assert_eq!(tokenizer.expect_symbol(), Ok("b".to_string()));
}

#[test]
fn tokens_are_shown_by_kind_and_text() {
    assert_eq!(Token::Number("42".to_string()).to_string(), "Number(42)");
    assert_eq!(Token::Operator('+').to_string(), "Operator(+)");
    assert_eq!(Token::Symbol("x1".to_string()).to_string(), "Symbol(x1)");
    assert_eq!(Token::Symbol(String::new()).to_string(), "Symbol()");
}

#[test]
fn decimal_keeps_its_digits() {
    let d = Decimal::parse("0042".to_string()).unwrap();
    assert_eq!(d.digits(), "0042");
    assert_eq!(d.digits().parse::<f64>(), Ok(42.));
    assert_eq!(d.clone().digits(), "0042");
}

#[test]
fn decimal_of_any_length() {
    let text = "123456789012345678901234567890";
    let d = Decimal::parse(text.to_string()).unwrap();
    assert_eq!(d.digits(), text);
    assert_eq!(d.digits().parse::<f64>(), Ok(123456789012345678901234567890.));
}

#[test]
fn decimal_rejects_what_is_no_digit_run() {
    let invalid = Err("Failed to parse number: invalid float literal".to_string());
    assert_eq!(Decimal::parse("12a".to_string()).map(|d| d.digits().to_string()), invalid);
    assert_eq!(Decimal::parse("٣".to_string()).map(|d| d.digits().to_string()), invalid);
    assert_eq!(Decimal::parse("1.5".to_string()).map(|d| d.digits().to_string()), invalid);
    assert_eq!(Decimal::parse("-1".to_string()).map(|d| d.digits().to_string()), invalid);
    assert_eq!(
        Decimal::parse(String::new()).map(|d| d.digits().to_string()),
        Err("Failed to parse number: cannot parse float from empty string".to_string())
    );
}
