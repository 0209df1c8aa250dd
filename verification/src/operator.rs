//! The operators of the expression language.
use vstd::prelude::*;

verus! {

/// An operator, a parenthesis or the marker that ends the input.
#[derive(Debug, Clone, Copy, PartialEq, Eq, Structural)]
pub enum Operator {
    /// `+`
    Plus,
    /// `-`
    Minus,
    /// `*`
    Multiply,
    /// `/`
    Divide,
    /// `%`
    Percent,
    /// `^`
    Power,
    /// `√`
    Root,
    /// `!`
    Factorial,
    /// `(`
    OpenParen,
    /// `)`
    CloseParen,
    /// The end of the input.
    EndOfInput,
}

/// The precedence class of an operand.
pub const OPERAND_CLASS: usize = 8;

/// The precedence class of the end marker.
pub const END_CLASS: usize = 7;

/// The number of precedence classes.
pub const CLASS_COUNT: usize = 12;

impl Operator {
    /// The row and column of this operator in the precedence table.
    pub open spec fn class(self) -> int {
        match self {
            Operator::Multiply => 0,
            Operator::Divide => 1,
            Operator::Percent => 2,
            Operator::Plus => 3,
            Operator::Minus => 4,
            Operator::OpenParen => 5,
            Operator::CloseParen => 6,
            Operator::EndOfInput => 7,
            Operator::Power => 9,
            Operator::Root => 10,
            Operator::Factorial => 11,
        }
    }

    /// Whether this operator combines two values into one, which the
    /// parentheses and the end marker do not.
    pub open spec fn is_arithmetic(self) -> bool {
        !(self is OpenParen || self is CloseParen || self is EndOfInput)
    }

    /// The operator that a character stands for, if it stands for one.
    pub open spec fn of_symbol(c: char) -> Option<Operator> {
        if c == '+' {
            Some(Operator::Plus)
        } else if c == '-' {
            Some(Operator::Minus)
        } else if c == '*' {
            Some(Operator::Multiply)
        } else if c == '/' {
            Some(Operator::Divide)
        } else if c == '%' {
            Some(Operator::Percent)
        } else if c == '^' {
            Some(Operator::Power)
        } else if c == '√' {
            Some(Operator::Root)
        } else if c == '!' {
            Some(Operator::Factorial)
        } else if c == '(' {
            Some(Operator::OpenParen)
        } else if c == ')' {
            Some(Operator::CloseParen)
        } else {
            None
        }
    }

    /// Computes [`Operator::class`].
    pub fn precedence_index(self) -> (index: usize)
        ensures
            index == self.class(),
            index < CLASS_COUNT,
            index != OPERAND_CLASS,
    {
        match self {
            Operator::Multiply => 0,
            Operator::Divide => 1,
            Operator::Percent => 2,
            Operator::Plus => 3,
            Operator::Minus => 4,
            Operator::OpenParen => 5,
            Operator::CloseParen => 6,
            Operator::EndOfInput => 7,
            Operator::Power => 9,
            Operator::Root => 10,
            Operator::Factorial => 11,
        }
    }

    /// Computes [`Operator::is_arithmetic`].
    pub fn combines_values(self) -> (yes: bool)
        ensures
            yes == self.is_arithmetic(),
    {
        match self {
            Operator::OpenParen | Operator::CloseParen | Operator::EndOfInput => false,
            _ => true,
        }
    }

    /// Computes [`Operator::of_symbol`].
    pub fn from_symbol(c: char) -> (operator: Option<Operator>)
        ensures
            operator == Operator::of_symbol(c),
    {
        if c == '+' {
            Some(Operator::Plus)
        } else if c == '-' {
            Some(Operator::Minus)
        } else if c == '*' {
            Some(Operator::Multiply)
        } else if c == '/' {
            Some(Operator::Divide)
        } else if c == '%' {
            Some(Operator::Percent)
        } else if c == '^' {
            Some(Operator::Power)
        } else if c == '√' {
            Some(Operator::Root)
        } else if c == '!' {
            Some(Operator::Factorial)
        } else if c == '(' {
            Some(Operator::OpenParen)
        } else if c == ')' {
            Some(Operator::CloseParen)
        } else {
            None
        }
    }
}

} // verus!
