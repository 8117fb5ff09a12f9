use exprlang::tokenizer::{Token, TokenizerInner};

#[test]
fn test_tokenizer_mixed_input() {
    let data = "3+5 *2-8 /4";
    let mut tokenizer = TokenizerInner::try_from(data).unwrap();
    assert_eq!(tokenizer.next(), Some(Ok(Token::Number("3".to_string()))));
    assert_eq!(tokenizer.next(), Some(Ok(Token::Operator('+'))));
    assert_eq!(tokenizer.next(), Some(Ok(Token::Number("5".to_string()))));
    assert_eq!(tokenizer.next(), Some(Ok(Token::Operator('*'))));
    assert_eq!(tokenizer.next(), Some(Ok(Token::Number("2".to_string()))));
    assert_eq!(tokenizer.next(), Some(Ok(Token::Operator('-'))));
    assert_eq!(tokenizer.next(), Some(Ok(Token::Number("8".to_string()))));
    assert_eq!(tokenizer.next(), Some(Ok(Token::Operator('/'))));
    assert_eq!(tokenizer.next(), Some(Ok(Token::Number("4".to_string()))));
    assert_eq!(tokenizer.next(), None);
}

#[test]
fn test_tokenizer_empty_input() {
    let data = "";
    let mut tokenizer = TokenizerInner::try_from(data).unwrap();
    assert_eq!(tokenizer.next(), None);
}

#[test]
fn test_tokenizer_variable() {
    let data = "abc";
    let mut tokenizer = TokenizerInner::try_from(data).unwrap();
    assert_eq!(tokenizer.next(), Some(Ok(Token::Symbol("abc".to_string()))));
    assert_eq!(tokenizer.next(), None);
}

#[test]
fn test_tokenizer_number() {
    let data = "42";
    let mut tokenizer = TokenizerInner::try_from(data).unwrap();
    assert_eq!(tokenizer.next(), Some(Ok(Token::Number("42".to_string()))));
    assert_eq!(tokenizer.next(), None);
}

#[test]
fn test_tokenizer_mixed_symbols() {
    let data = "var1 + var2";
    let mut tokenizer = TokenizerInner::try_from(data).unwrap();
    assert_eq!(tokenizer.next(), Some(Ok(Token::Symbol("var1".to_string()))));
    assert_eq!(tokenizer.next(), Some(Ok(Token::Operator('+'))));
    assert_eq!(tokenizer.next(), Some(Ok(Token::Symbol("var2".to_string()))));
    assert_eq!(tokenizer.next(), None);
}

#[test]
fn test_tokenizer_symbols_with_numbers() {
    let data = "var123 + 456var";
    let mut tokenizer = TokenizerInner::try_from(data).unwrap();
    assert_eq!(tokenizer.next(), Some(Ok(Token::Symbol("var123".to_string()))));
    assert_eq!(tokenizer.next(), Some(Ok(Token::Operator('+'))));
    let x = tokenizer.next();
    assert!(x.is_some());
    assert!(x.unwrap().is_err());
}
