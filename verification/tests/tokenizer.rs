use math_lib::{tokenize, MathError, Number, Operator, Token};

fn operand(text: &str) -> Token<Number> {
    Token::Operand(Number::new(text).unwrap())
}

fn end() -> Token<Number> {
    Token::Operator(Operator::EndOfInput)
}

#[test]
fn number_with_decimal() {
    assert_eq!(Ok(vec![operand("1.5"), end()]), tokenize("1.5"));
}

#[test]
fn number_with_comma() {
    assert_eq!(Ok(vec![operand("1.5"), end()]), tokenize("1,5"));
}

#[test]
fn with_multiple_decimals() {
    assert_eq!(
        Err("Failed to parse number".to_string()),
        tokenize("1.5.5").map_err(|error| error.message())
    );
    assert_eq!(Err(MathError::MalformedNumber), tokenize("1.5.5"));
}

#[test]
fn invalid_character() {
    assert_eq!(
        Err("Invalid character in input: $".to_string()),
        tokenize("1$").map_err(|error| error.message())
    );
}

#[test]
fn white_space_is_passed_over() {
    assert_eq!(
        Ok(vec![operand("1"), Token::Operator(Operator::Plus), operand("2"), end()]),
        tokenize(" 1 +\t2\n")
    );
    assert_eq!(Ok(vec![operand("1"), operand("2"), end()]), tokenize("1 2"));
    assert_eq!(Ok(vec![end()]), tokenize(""));
    assert_eq!(Ok(vec![end()]), tokenize(" \u{a0} "));
}

#[test]
fn every_operator_has_its_token() {
    assert_eq!(
        Ok(vec![
            Token::Operator(Operator::Plus),
            Token::Operator(Operator::Minus),
            Token::Operator(Operator::Multiply),
            Token::Operator(Operator::Divide),
            Token::Operator(Operator::Percent),
            Token::Operator(Operator::Power),
            Token::Operator(Operator::Root),
            Token::Operator(Operator::OpenParen),
            Token::Operator(Operator::CloseParen),
            Token::Operator(Operator::Factorial),
            operand("1"),
            end(),
        ]),
        tokenize("+-*/%^√()!")
    );
}

#[test]
fn a_number_runs_as_far_as_its_characters() {
    assert_eq!(
        Ok(vec![operand("12.5"), Token::Operator(Operator::Minus), operand(".5"), end()]),
        tokenize("12,5-.5")
    );
    assert_eq!(Ok(vec![operand("5."), end()]), tokenize("5."));
    assert_eq!(Err(MathError::MalformedNumber), tokenize("."));
    assert_eq!(Err(MathError::MalformedNumber), tokenize("1+,"));
    assert_eq!(Err(MathError::MalformedNumber), tokenize("1.2,3"));
}

#[test]
fn the_first_failure_from_the_left_is_reported() {
    assert_eq!(Err(MathError::MalformedNumber), tokenize("1.5.5$"));
    assert_eq!(
        Err(MathError::InvalidCharacter { character: '$', position: 0 }),
        tokenize("$1.5.5")
    );
    assert_eq!(
        Err(MathError::InvalidCharacter { character: 'x', position: 4 }),
        tokenize("√2 +x$")
    );
    assert_eq!(
        Err(MathError::InvalidCharacter { character: 'R', position: 1 }),
        tokenize("2R16")
    );
}
