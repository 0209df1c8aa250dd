//! The parser: from the text of an expression to its postfix form.
use vstd::prelude::*;
use crate::error::MathError;
use crate::number::Number;
use crate::postfix::{is_postfix, postfix_ignores_numbers, postfix_of, to_postfix};
use crate::token::{relabeled, Token};
use crate::tokenizer::{tokenize, tokens_of, written};

verus! {

/// The postfix form of a text: of its tokens, if it has tokens.
pub open spec fn parsed(text: Seq<char>) -> Result<Seq<Token<Seq<char>>>, MathError> {
    match tokens_of(text) {
        Ok(tokens) => postfix_of(tokens),
        Err(error) => Err(error),
    }
}

/// Splits the text of an expression into tokens and converts them to
/// postfix form, ready to be evaluated.
pub fn parse(input: &str) -> (result: Result<Vec<Token<Number>>, MathError>)
    ensures
        written(result) == parsed(input@),
        result matches Ok(postfix) ==> is_postfix(postfix@),
        result matches Err(error) ==> error is InvalidCharacter || error is MalformedNumber
            || error is InvalidExpression,
{
    match tokenize(input) {
        Ok(tokens) => {
            let ghost reading = |number: Number| number.deep_view();
            proof {
                assert(tokens.deep_view() =~= relabeled(tokens@, reading));
                postfix_ignores_numbers(tokens@, reading);
            }
            match to_postfix(tokens) {
                Ok(postfix) => {
                    proof {
                        assert(postfix.deep_view() =~= relabeled(postfix@, reading));
                    }
                    Ok(postfix)
                },
                Err(error) => Err(error),
            }
        },
        Err(error) => Err(error),
    }
}

/// Parsing has no hidden state: two results of parsing one text say the
/// same.
pub proof fn parse_is_repeatable(
    text: Seq<char>,
    first: Result<Vec<Token<Number>>, MathError>,
    second: Result<Vec<Token<Number>>, MathError>,
)
    requires
        written(first) == parsed(text),
        written(second) == parsed(text),
    ensures
        written(first) == written(second),
{
}

} // verus!
