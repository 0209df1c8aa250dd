//! Tokens.
use vstd::prelude::*;
use crate::operator::{Operator, CLASS_COUNT, OPERAND_CLASS};

verus! {

/// A token of an expression: a number or an operator. `N` is what stands for
/// the number: its text while the expression is parsed, its value while it is
/// evaluated.
#[derive(Debug, PartialEq)]
pub enum Token<N> {
    /// A number.
    Operand(N),
    /// An operator, a parenthesis or the end marker.
    Operator(Operator),
}

impl<N: Clone> Clone for Token<N> {
    fn clone(&self) -> Token<N> {
        match self {
            Token::Operand(number) => Token::Operand(number.clone()),
            Token::Operator(operator) => Token::Operator(*operator),
        }
    }
}

impl<N> Token<N> {
    /// The row and column of this token in the precedence table. All
    /// operands share one class.
    pub open spec fn class(self) -> int {
        match self {
            Token::Operand(_) => OPERAND_CLASS as int,
            Token::Operator(operator) => operator.class(),
        }
    }

    /// The same token with its number read by `reading`.
    pub open spec fn relabel<M>(self, reading: spec_fn(N) -> M) -> Token<M> {
        match self {
            Token::Operand(number) => Token::Operand(reading(number)),
            Token::Operator(operator) => Token::Operator(operator),
        }
    }

    /// Whether the token is a number or an operator that combines two
    /// values: what a postfix sequence is made of.
    pub open spec fn is_postfix_token(self) -> bool {
        match self {
            Token::Operand(_) => true,
            Token::Operator(operator) => operator.is_arithmetic(),
        }
    }

    /// Computes [`Token::class`].
    pub fn precedence_index(&self) -> (index: usize)
        ensures
            index == self.class(),
            index < CLASS_COUNT,
    {
        match self {
            Token::Operand(_) => OPERAND_CLASS,
            Token::Operator(operator) => operator.precedence_index(),
        }
    }
}

/// The same tokens with each number read by `reading`.
pub open spec fn relabeled<N, M>(tokens: Seq<Token<N>>, reading: spec_fn(N) -> M) -> Seq<
    Token<M>,
> {
    Seq::new(tokens.len(), |i: int| tokens[i].relabel(reading))
}

impl<N: DeepView> DeepView for Token<N> {
    type V = Token<N::V>;

    open spec fn deep_view(&self) -> Token<N::V> {
        match *self {
            Token::Operand(number) => Token::Operand(number.deep_view()),
            Token::Operator(operator) => Token::Operator(operator),
        }
    }
}

} // verus!
