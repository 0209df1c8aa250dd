//! An arithmetic-expression calculator core.
//!
//! An infix expression is turned into a number in three stages: the text is
//! split into tokens, the tokens are reordered into postfix form by an
//! operator-precedence table, and the postfix form is evaluated on a value
//! stack. Everything that is decided along the way is decided here and stated
//! in contracts. The library holds a number as the bits of an IEEE 754
//! binary64 value and never computes with it: for each addition,
//! subtraction, multiplication, division and power that an expression is
//! made of, the evaluator stops, and the caller computes it.
pub mod binary64;
pub mod deviation;
pub mod error;
pub mod evaluator;
pub mod generator;
pub mod grammar;
pub mod number;
pub mod operator;
pub mod parser;
pub mod postfix;
pub mod precedence;
pub mod text;
pub mod token;
pub mod tokenizer;

pub use crate::binary64::Binary64;
pub use crate::deviation::prepare_to_parse;
pub use crate::error::MathError;
pub use crate::evaluator::{Evaluator, Operation, Primitive, Step};
pub use crate::number::Number;
pub use crate::operator::Operator;
pub use crate::parser::parse;
pub use crate::postfix::to_postfix;
pub use crate::token::Token;
pub use crate::tokenizer::tokenize;
