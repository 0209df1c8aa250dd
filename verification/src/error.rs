//! The ways in which an expression can fail.
use vstd::prelude::*;
use crate::text::push_char;

verus! {

/// Why an expression has no value.
#[derive(Debug, Clone, Copy, PartialEq, Eq, Structural)]
pub enum MathError {
    /// The input holds a character that belongs to no token. `position`
    /// counts the characters before it.
    InvalidCharacter { character: char, position: usize },
    /// A run of digits and decimal separators is no number.
    MalformedNumber,
    /// The tokens do not form an expression.
    InvalidExpression,
    /// The right operand of a division or a percentage is zero.
    DivideByZero,
    /// The degree of a root is zero.
    ZeroRoot,
    /// The radicand of a root is negative.
    NegativeRoot,
    /// The operand of a factorial is negative.
    NegativeFactorial,
    /// An invariant of the conversion to postfix form was broken. No function
    /// of this library returns it; the contracts say so.
    InternalError,
}

impl MathError {
    /// The message that describes this error.
    pub open spec fn message_text(self) -> Seq<char> {
        match self {
            MathError::InvalidCharacter { character, position } =>
                "Invalid character in input: "@.push(character),
            MathError::MalformedNumber => "Failed to parse number"@,
            MathError::InvalidExpression => "Invalid expression"@,
            MathError::DivideByZero => "Cannot divide by zero"@,
            MathError::ZeroRoot => "Cannot take the 0th root"@,
            MathError::NegativeRoot => "Cannot take the root of a negative number"@,
            MathError::NegativeFactorial => "Cannot take factorial of a negative number"@,
            MathError::InternalError => "Internal error"@,
        }
    }

    /// Whether the error reports a value outside the domain of an operator,
    /// as opposed to a malformed input.
    pub open spec fn is_domain_error(self) -> bool {
        self is DivideByZero || self is ZeroRoot || self is NegativeRoot
            || self is NegativeFactorial
    }

    /// Builds the message that describes this error.
    pub fn message(&self) -> (message: String)
        ensures
            message@ == self.message_text(),
    {
        match self {
            MathError::InvalidCharacter { character, position } => {
                let mut message: String = "Invalid character in input: ".to_owned();
                push_char(&mut message, *character);
                message
            },
            MathError::MalformedNumber => "Failed to parse number".to_owned(),
            MathError::InvalidExpression => "Invalid expression".to_owned(),
            MathError::DivideByZero => "Cannot divide by zero".to_owned(),
            MathError::ZeroRoot => "Cannot take the 0th root".to_owned(),
            MathError::NegativeRoot => "Cannot take the root of a negative number".to_owned(),
            MathError::NegativeFactorial => "Cannot take factorial of a negative number".to_owned(),
            MathError::InternalError => "Internal error".to_owned(),
        }
    }
}

} // verus!
