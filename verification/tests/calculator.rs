use math_lib::{
    parse, to_postfix, tokenize, Binary64, Evaluator, MathError, Number, Operation, Operator,
    Primitive, Step, Token,
};

fn value(number: f64) -> Binary64 {
    Binary64::from_bits(number.to_bits())
}

fn number(value: Binary64) -> f64 {
    f64::from_bits(value.to_bits())
}

fn apply(operation: Operation) -> Binary64 {
    let left = number(operation.left);
    let right = number(operation.right);
    value(match operation.primitive {
        Primitive::Add => left + right,
        Primitive::Subtract => left - right,
        Primitive::Multiply => left * right,
        Primitive::Divide => left / right,
        Primitive::Power => left.powf(right),
    })
}

fn run(tokens: Vec<Token<Binary64>>) -> Result<f64, MathError> {
    let mut evaluator = Evaluator::new(tokens);
    loop {
        match evaluator.advance() {
            Step::Compute(operation) => evaluator.supply(apply(operation)),
            Step::Finished(Ok(result)) => return Ok(number(result)),
            Step::Finished(Err(error)) => return Err(error),
        }
    }
}

fn evaluate_expression(tokens: Vec<Token<f64>>) -> Result<f64, String> {
    let tokens = tokens
        .into_iter()
        .map(|token| match token {
            Token::Operand(number) => Token::Operand(value(number)),
            Token::Operator(operator) => Token::Operator(operator),
        })
        .collect();
    run(tokens).map_err(|error| error.message())
}

fn read(tokens: Vec<Token<Number>>) -> Vec<Token<Binary64>> {
    tokens
        .into_iter()
        .map(|token| match token {
            Token::Operand(number) => Token::Operand(value(number.text().parse::<f64>().unwrap())),
            Token::Operator(operator) => Token::Operator(operator),
        })
        .collect()
}

fn kind(input: &str) -> Result<f64, MathError> {
    run(read(parse(input)?))
}

fn calculate(input: &str) -> Result<f64, String> {
    kind(input).map_err(|error| error.message())
}

fn written(number: f64) -> Token<Number> {
    Token::Operand(Number::new(&number.to_string()).unwrap())
}

fn token_eoi<N>() -> Token<N> {
    Token::Operator(Operator::EndOfInput)
}

#[test]
fn parser_single_number() {
    assert_eq!(Ok(vec![written(1.), token_eoi()]), tokenize("1"));
    assert_eq!(Ok(vec![Token::Operand(1.)]), to_postfix(vec![Token::Operand(1.), token_eoi()]));
}

#[test]
fn parser_large_composite_equation() {
    assert_eq!(
        Ok(vec![
            Token::Operator(Operator::OpenParen),
            written(3.),
            Token::Operator(Operator::Minus),
            written(1.),
            Token::Operator(Operator::CloseParen),
            Token::Operator(Operator::Multiply),
            written(2.),
            Token::Operator(Operator::Plus),
            Token::Operator(Operator::OpenParen),
            written(3.),
            Token::Operator(Operator::Factorial),
            written(1.), // Implicit operand for factorial
            Token::Operator(Operator::CloseParen),
            Token::Operator(Operator::Minus),
            written(5.),
            Token::Operator(Operator::Root),
            Token::Operator(Operator::OpenParen),
            written(8.),
            Token::Operator(Operator::Power),
            written(5.),
            Token::Operator(Operator::CloseParen),
            token_eoi()
        ]),
        tokenize("(3-1)*2+(3!)-5√(8^5)"),
    );
    // (3-1)*2+(3!)-5√(8^5)
    assert_eq!(
        Ok(vec![
            Token::Operand(3.),
            Token::Operand(1.),
            Token::Operator(Operator::Minus),
            Token::Operand(2.),
            Token::Operator(Operator::Multiply),
            Token::Operand(3.),
            Token::Operand(1.), // Implicit operand for factorial
            Token::Operator(Operator::Factorial),
            Token::Operator(Operator::Plus),
            Token::Operand(5.),
            Token::Operand(8.),
            Token::Operand(5.),
            Token::Operator(Operator::Power),
            Token::Operator(Operator::Root),
            Token::Operator(Operator::Minus),
        ]),
        to_postfix(vec![
            Token::Operator(Operator::OpenParen),
            Token::Operand(3.),
            Token::Operator(Operator::Minus),
            Token::Operand(1.),
            Token::Operator(Operator::CloseParen),
            Token::Operator(Operator::Multiply),
            Token::Operand(2.),
            Token::Operator(Operator::Plus),
            Token::Operator(Operator::OpenParen),
            Token::Operand(3.),
            Token::Operator(Operator::Factorial),
            Token::Operand(1.), // Implicit operand for factorial
            Token::Operator(Operator::CloseParen),
            Token::Operator(Operator::Minus),
            Token::Operand(5.),
            Token::Operator(Operator::Root),
            Token::Operator(Operator::OpenParen),
            Token::Operand(8.),
            Token::Operator(Operator::Power),
            Token::Operand(5.),
            Token::Operator(Operator::CloseParen),
            token_eoi(),
        ])
    );
    assert!((2. - evaluate_expression(vec![
        Token::Operand(3.),
        Token::Operand(1.),
        Token::Operator(Operator::Minus),
        Token::Operand(2.),
        Token::Operator(Operator::Multiply),
        Token::Operand(3.),
        Token::Operand(1.), // Implicit operand for factorial
        Token::Operator(Operator::Factorial),
        Token::Operator(Operator::Plus),
        Token::Operand(5.),
        Token::Operand(8.),
        Token::Operand(5.),
        Token::Operator(Operator::Power),
        Token::Operator(Operator::Root),
        Token::Operator(Operator::Minus),
    ]).unwrap()).abs() < 0.00000001);
    assert!((2. - calculate("(3-1)*2+(3!)-5√(8^5)").unwrap()).abs() < 0.00000001);
}

#[test]
fn parser_factorial() {
    assert_eq!(
        Ok(vec![
            written(5.),
            Token::Operator(Operator::Factorial),
            written(1.), // Implicit operand for factorial
            token_eoi(),
        ]),
        tokenize("5!")
    );
    assert_eq!(Ok(120.), calculate("5!"));
}

#[test]
fn simple_addition() {
    assert_eq!(
        Ok(vec![Token::Operand(1.), Token::Operand(2.), Token::Operator(Operator::Plus)]),
        to_postfix(vec![
            Token::Operand(1.),
            Token::Operator(Operator::Plus),
            Token::Operand(2.),
            token_eoi()
        ])
    );
}

#[test]
fn parser_invalid_expression() {
    assert_eq!(
        Err("Invalid expression".to_string()),
        to_postfix(vec![Token::Operand(1.), Token::Operator(Operator::OpenParen), token_eoi()])
            .map_err(|error| error.message())
    );
    assert_eq!(
        Err("Invalid expression".to_string()),
        evaluate_expression(vec![Token::Operand(1.), Token::Operator(Operator::Plus)])
    );
}

#[test]
fn parser_add_two_values() {
    assert_eq!(
        Ok(2.),
        evaluate_expression(vec![
            Token::Operand(1.),
            Token::Operand(1.),
            Token::Operator(Operator::Plus)
        ])
    );
    assert_eq!(Ok(2.), calculate("1+1"));
}

#[test]
fn parser_add_multiple_values() {
    assert_eq!(
        Ok(6.),
        evaluate_expression(vec![
            Token::Operand(1.),
            Token::Operand(2.),
            Token::Operand(3.),
            Token::Operator(Operator::Plus),
            Token::Operator(Operator::Plus),
        ])
    );
    assert_eq!(Ok(6.), calculate("1+2+3"));
}

#[test]
fn parser_divide_by_zero() {
    assert_eq!(
        Err("Cannot divide by zero".to_string()),
        evaluate_expression(vec![
            Token::Operand(1.),
            Token::Operand(0.),
            Token::Operator(Operator::Divide)
        ])
    );
    assert_eq!(Err("Cannot divide by zero".to_string()), calculate("1/0"));
    assert_eq!(Err(MathError::DivideByZero), kind("1/0"));
}

#[test]
fn invalid_operator() {
    assert_eq!(
        Err("Invalid expression".to_string()),
        evaluate_expression(vec![
            Token::Operand(1.),
            Token::Operand(1.),
            Token::Operator(Operator::OpenParen)
        ])
    );
}

#[test]
fn negative_factorial() {
    // A factorial is written between its operand and the operand one.
    assert_eq!(
        Err("Cannot take factorial of a negative number".to_string()),
        evaluate_expression(vec![
            Token::Operand(-1.),
            Token::Operand(1.),
            Token::Operator(Operator::Factorial)
        ])
    );
    // With one operand it finds too few values.
    assert_eq!(
        Err("Invalid expression".to_string()),
        evaluate_expression(vec![Token::Operand(-1.), Token::Operator(Operator::Factorial)])
    );
}

#[test]
fn parser_negative_sqrt() {
    // The radicand is the right operand, the degree the left one.
    assert_eq!(
        Err("Cannot take the root of a negative number".to_string()),
        evaluate_expression(vec![
            Token::Operand(16.),
            Token::Operand(-2.),
            Token::Operator(Operator::Root)
        ])
    );
    assert_eq!(
        Ok(0.25),
        evaluate_expression(vec![
            Token::Operand(-2.),
            Token::Operand(16.),
            Token::Operator(Operator::Root)
        ])
    );
    assert_eq!(
        Err("Cannot take the root of a negative number".to_string()),
        calculate("2√(0-16)")
    );
    // A minus sign at the start is an operator without its left operand.
    assert_eq!(Err("Invalid expression".to_string()), calculate("-16√2"));
}

#[test]
fn parser_subtract_two_values() {
    assert_eq!(Ok(0.), calculate("1-1"));
}

#[test]
fn parser_multiply_two_values() {
    assert_eq!(Ok(8.), calculate("4*2"));
}

#[test]
fn parser_divide_two_values() {
    assert_eq!(Ok(2.), calculate("4/2"));
}

#[test]
fn parser_power_of_two_values() {
    assert_eq!(Ok(16.), calculate("4^2"));
}

#[test]
fn sqrt() {
    assert_eq!(Ok(4.), calculate("2√16"));
}

#[test]
fn zero_factorial() {
    assert_eq!(Ok(1.), calculate("0!"));
}

#[test]
fn parser_invalid_negative_factorial() {
    assert_eq!(
        Err("Cannot take factorial of a negative number".to_string()),
        calculate("(0-1)!")
    );
    assert_eq!(Err(MathError::NegativeFactorial), kind("(0-1)!"));
    // A minus sign at the start is an operator without its left operand.
    assert_eq!(Err("Invalid expression".to_string()), calculate("-1!"));
}

#[test]
fn parser_invalid_operation() {
    assert_eq!(Err("Invalid expression".to_string()), calculate("(1+"));
}

#[test]
fn missing_paren() {
    assert_eq!(Err("Invalid expression".to_string()), calculate("(1+2"));
    assert_eq!(Err(MathError::InvalidExpression), kind("(1+2"));
}

#[test]
fn invalid_character_is_named() {
    assert_eq!(
        Err(MathError::InvalidCharacter { character: '$', position: 1 }),
        kind("2$")
    );
    assert_eq!(Err("Invalid character in input: $".to_string()), calculate("2$"));
}

#[test]
fn parsing_twice_gives_the_same() {
    for input in ["1+1", "(3-1)*2+(3!)-5√(8^5)", "(1+2", "2$", "1.5.5", "1/0", ""] {
        assert_eq!(parse(input), parse(input));
        let first = kind(input);
        let second = kind(input);
        match (first, second) {
            (Ok(a), Ok(b)) => assert_eq!(a.to_bits(), b.to_bits()),
            (a, b) => assert_eq!(a, b),
        }
    }
}

#[test]
fn well_formed_expressions_have_values() {
    for input in [
        "1",
        "(1)",
        "((1))",
        "1+2*3",
        "(1+2)*3",
        "2^3^2",
        "3!",
        "3!!",
        "(2+1)!",
        "2√(3+1)",
        "1 + 2 - 3 * 4 / 5 % 6 ^ 7",
        "0,5+.5",
    ] {
        let postfix = parse(input).unwrap();
        assert!(postfix.iter().all(|token| match token {
            Token::Operand(_) => true,
            Token::Operator(operator) => operator.combines_values(),
        }));
        assert!(kind(input).is_ok(), "{}", input);
    }
}

#[test]
fn exact_values() {
    assert_eq!(Ok(7.), calculate("1+2*3"));
    assert_eq!(Ok(9.), calculate("(1+2)*3"));
    assert_eq!(Ok(64.), calculate("2^3^2"));
    assert_eq!(Ok(25.), calculate("50%200"));
    assert_eq!(Ok(720.), calculate("3!!"));
    assert_eq!(Ok(1.), calculate("0,5+.5"));
    assert_eq!(Ok(3.), calculate("3√27"));
    assert_eq!(Ok(-4.), calculate("1-2-3"));
    assert_eq!(Ok(2.5), calculate(" 10 / 4 "));
    assert_eq!(Ok(f64::INFINITY), calculate("171!"));
    assert_eq!(Ok(f64::INFINITY), calculate("10^400"));
    assert!(calculate("(0-8)^0.5").unwrap().is_nan());
}

#[test]
fn each_domain_error_has_an_input() {
    assert_eq!(Err(MathError::DivideByZero), kind("1/0"));
    assert_eq!(Err(MathError::DivideByZero), kind("1%0"));
    assert_eq!(Err(MathError::DivideByZero), kind("1/(2-2)"));
    assert_eq!(Err(MathError::ZeroRoot), kind("0√4"));
    assert_eq!(Err(MathError::NegativeRoot), kind("2√(0-4)"));
    assert_eq!(Err(MathError::NegativeFactorial), kind("(1-2)!"));
    assert_eq!(Err(MathError::MalformedNumber), kind("1..2+3"));
    assert_eq!(Err(MathError::InvalidCharacter { character: 'a', position: 2 }), kind("1+a"));
}

#[test]
fn malformed_expressions_have_no_value() {
    for input in ["", "()", "1+", "+1", "1++2", "(1)(2)", "(1)2", "1 2", ")1(", "1)", "!", "2!3"] {
        assert_eq!(Err(MathError::InvalidExpression), kind(input), "{:?}", input);
    }
}

fn product_up_to(n: i64) -> f64 {
    let mut res = 1.0;
    (2..=n).for_each(|i| res *= i as f64);
    res
}

#[test]
fn a_factorial_is_the_product_of_the_whole_numbers() {
    for n in 0..=180_i64 {
        let result = evaluate_expression(vec![
            Token::Operand(n as f64),
            Token::Operand(1.),
            Token::Operator(Operator::Factorial),
        ]);
        assert_eq!(Ok(product_up_to(n).to_bits()), result.map(f64::to_bits), "{}", n);
    }
    assert_eq!(Ok(7.257415615307994e306), calculate("170!"));
    assert_eq!(Ok(f64::INFINITY), calculate("171!"));
    assert_eq!(Ok(f64::INFINITY), calculate("1000000000000000000000!"));
}

#[test]
fn a_factorial_takes_the_whole_part_of_its_operand() {
    assert_eq!(Ok(6.), calculate("3.7!"));
    assert_eq!(Ok(1.), calculate("0.9!"));
    assert_eq!(Ok(1.), calculate("1.5!"));
    assert_eq!(Ok(2.), calculate("2.999!"));
    let of = |operand: f64| {
        evaluate_expression(vec![
            Token::Operand(operand),
            Token::Operand(1.),
            Token::Operator(Operator::Factorial),
        ])
    };
    assert_eq!(Ok(1.), of(f64::NAN));
    assert_eq!(Ok(1.), of(-0.));
    assert_eq!(Ok(f64::INFINITY), of(f64::INFINITY));
    assert_eq!(Ok(f64::INFINITY), of(170.99999999999997 + 0.00000000000003));
    assert_eq!(Ok(product_up_to(170)), of(170.99999999999997));
}

#[test]
fn a_percentage_is_a_quotient_times_one_hundred() {
    for (left, right) in [(50., 200.), (1., 3.), (7., 0.3), (-2., 9.), (1e308, 0.5)] {
        let result = evaluate_expression(vec![
            Token::Operand(left),
            Token::Operand(right),
            Token::Operator(Operator::Percent),
        ]);
        assert_eq!(Ok((left / right * 100.0_f64).to_bits()), result.map(f64::to_bits));
    }
}

#[test]
fn a_root_is_a_power_of_the_inverse_degree() {
    for (left, right) in [(2., 16.), (3., 27.), (5., 32768.), (-2., 16.), (0.5, 3.), (7., 0.)] {
        let result = evaluate_expression(vec![
            Token::Operand(left),
            Token::Operand(right),
            Token::Operator(Operator::Root),
        ]);
        let expected: f64 = right;
        assert_eq!(Ok(expected.powf(1. / left).to_bits()), result.map(f64::to_bits));
    }
}

struct Dice(u64);

impl Dice {
    fn roll(&mut self, sides: u64) -> u64 {
        self.0 ^= self.0 << 13;
        self.0 ^= self.0 >> 7;
        self.0 ^= self.0 << 17;
        self.0 % sides
    }
}

fn random_expression(dice: &mut Dice, depth: u32) -> String {
    let choice = if depth == 0 { 0 } else { dice.roll(5) };
    match choice {
        0 => format!("{}", dice.roll(50)),
        1 => format!("{},{}", dice.roll(9), dice.roll(100)),
        2 => format!("({})", random_expression(dice, depth - 1)),
        3 => format!("{}!", random_expression(dice, depth - 1)),
        _ => {
            let signs = ['+', '-', '*', '/', '%', '^', '√'];
            let sign = signs[dice.roll(7) as usize];
            let left = random_expression(dice, depth - 1);
            let right = random_expression(dice, depth - 1);
            format!("{} {} {}", left, sign, right)
        }
    }
}

#[test]
fn random_well_formed_expressions_fail_only_in_their_values() {
    let mut dice = Dice(0x2545_F491_4F6C_DD1D);
    for _ in 0..2000 {
        let input = random_expression(&mut dice, 4);
        let postfix = parse(&input).unwrap();
        assert!(postfix.iter().all(|token| match token {
            Token::Operand(_) => true,
            Token::Operator(operator) => operator.combines_values(),
        }));
        match kind(&input) {
            Ok(_) => {}
            Err(error) => assert!(
                matches!(
                    error,
                    MathError::DivideByZero
                        | MathError::ZeroRoot
                        | MathError::NegativeRoot
                        | MathError::NegativeFactorial
                ),
                "{:?} for {:?}",
                error,
                input
            ),
        }
    }
}
