use exprlang::block::{Block, Line};
use exprlang::expression::Expression;
use exprlang::parser::{Parsable, Parser};

fn parse_block(input: &'static str) -> Result<Block, String> {
    let mut parser = Parser::try_from(input as &'static str).map_err(|e| e.to_string())?;
    Block::parse(&mut parser)
}

fn literal_value(e: &Expression) -> Option<f64> {
    match e {
        Expression::Literal(d) => d.digits().parse::<f64>().ok(),
        _ => None,
    }
}

#[test]
fn test_empty_block() {
    let input = "{}";
    let result = parse_block(input);
    assert!(result.is_ok());
    let block = result.unwrap();
    assert!(block.lines.is_empty());
}

#[test]
fn test_single_expression() {
    let input = "{ 42; }";
    let result = parse_block(input);
    assert!(result.is_ok());
    let block = result.unwrap();
    assert_eq!(block.lines.len(), 1);
    match &block.lines[0] {
        Line::Expression(_) => (),
        _ => panic!("Expected an expression"),
    }
}

#[test]
fn test_let_statement() {
    let input = "{ let x: i32 = 42; }";
    let result = parse_block(input);
    assert!(result.is_ok());
    let block = result.unwrap();
    assert_eq!(block.lines.len(), 1);
    match &block.lines[0] {
        Line::LetStatement { name, value, type_ } => {
            assert_eq!(name, "x");
            assert!(type_.is_some());
            assert_eq!(type_.as_ref().unwrap(), "i32");
            match literal_value(value) {
                Some(literal) => assert_eq!(literal, 42.),
                None => panic!("Expected a literal expression with value 42"),
            }
        },
        _ => panic!("Expected a let statement"),
    }
}

#[test]
fn test_let_statement2() {
    let input = "{ let x := 42; }";
    let result = parse_block(input);
    assert!(result.is_ok());
    let block = result.unwrap();
    assert_eq!(block.lines.len(), 1);
    match &block.lines[0] {
        Line::LetStatement { name, value, type_ } => {
            assert_eq!(name, "x");
            assert!(type_.is_none());
            match literal_value(value) {
                Some(literal) => assert_eq!(literal, 42.),
                None => panic!("Expected a literal expression with value 42"),
            }
        },
        _ => panic!("Expected a let statement"),
    }
}

#[test]
fn test_return_statement() {
    let input = "{ return 42; }";
    let result = parse_block(input);
    assert!(result.is_ok());
    let block = result.unwrap();
    assert_eq!(block.lines.len(), 1);
    match &block.lines[0] {
        Line::ReturnStatement(_) => (),
        _ => panic!("Expected a return statement"),
    }
}

#[test]
fn test_multiple_lines() {
    let input = "{ let x: i32 = 42; return x; }";
    let result = parse_block(input);
    assert!(result.is_ok());
    let block = result.unwrap();
    assert_eq!(block.lines.len(), 2);
    match &block.lines[0] {
        Line::LetStatement { name, value, type_ } => {
            assert_eq!(name, "x");
            assert!(type_.is_some());
            assert_eq!(type_.as_ref().unwrap(), "i32");
            match literal_value(value) {
                Some(literal) => assert_eq!(literal, 42.),
                None => panic!("Expected a literal expression with value 42"),
            }
        },
        _ => panic!("Expected a let statement"),
    }
    match &block.lines[1] {
        Line::ReturnStatement(_) => (),
        _ => panic!("Expected a return statement"),
    }
}

#[test]
fn test_implicit_return() {
    let input = "{ 42 }";
    let result = parse_block(input);
    assert!(result.is_ok());
    let block = result.unwrap();
    assert_eq!(block.lines.len(), 1);
    match &block.lines[0] {
        Line::ReturnStatement(value) if literal_value(value) == Some(42.) => (),
        _ => panic!("Expected a return statement"),
    }
}
