//! Well-formed expressions, and what the parser owes them.
//!
//! An expression is a number, an expression in parentheses, or two
//! expressions with an operator between them. Read from left to right, that
//! is a sequence in which a number or an opening parenthesis stands wherever
//! an operand is expected, an operator, a closing parenthesis or the end
//! wherever an operand has just ended, and every closing parenthesis has its
//! opening one.
use vstd::prelude::*;
use crate::binary64::Binary64;
use crate::error::MathError;
use crate::evaluator::{expression_has_value, height, is_expression, is_sound, value_of, Operation};
use crate::operator::Operator;
use crate::parser::parsed;
use crate::postfix::{
    converted,
    has_operand_on_top,
    is_orderly,
    is_postfix,
    open_count,
    postfix_of,
    top_class,
};
use crate::precedence::{relation, Relation};
use crate::token::{relabeled, Token};
use crate::tokenizer::tokens_of;

verus! {

/// Whether the tokens from `next` on complete a well-formed expression:
/// `depth` parentheses are open, and `after_operand` says whether an
/// operand has just ended. The end marker is the last token.
pub open spec fn completes<N>(
    tokens: Seq<Token<N>>,
    next: int,
    depth: nat,
    after_operand: bool,
) -> bool
    decreases tokens.len() - next,
{
    if next < 0 || next >= tokens.len() {
        false
    } else {
        match tokens[next] {
            Token::Operand(_) => !after_operand && completes(tokens, next + 1, depth, true),
            Token::Operator(Operator::OpenParen) => !after_operand && completes(
                tokens,
                next + 1,
                depth + 1,
                false,
            ),
            Token::Operator(Operator::CloseParen) => after_operand && depth > 0 && completes(
                tokens,
                next + 1,
                (depth - 1) as nat,
                true,
            ),
            Token::Operator(Operator::EndOfInput) => after_operand && depth == 0 && next
                == tokens.len() - 1,
            Token::Operator(_) => after_operand && completes(tokens, next + 1, depth, false),
        }
    }
}

/// Whether the tokens are a well-formed expression with balanced
/// parentheses, followed by the end marker.
pub open spec fn is_well_formed<N>(tokens: Seq<Token<N>>) -> bool {
    completes(tokens, 0, 0, false)
}

/// The number of tokens in a stack that are operators which combine two
/// values.
pub open spec fn operator_count<N>(stack: Seq<Token<N>>) -> nat
    decreases stack.len(),
{
    if stack.len() == 0 {
        0
    } else {
        operator_count(stack.drop_last()) + if stack.last() matches Token::Operator(operator)
            && operator.is_arithmetic() {
            1nat
        } else {
            0nat
        }
    }
}

/// What holds of the stack and the output while a well-formed expression
/// is converted. A number waits on top of the stack only, and only until
/// the next token is looked at. As many parentheses wait as are open. The
/// output is sound, and with the number on top of the stack it holds one
/// value for each operator that waits, and one more once an operand has
/// ended.
pub open spec fn is_in_step<N>(
    stack: Seq<Token<N>>,
    output: Seq<Token<N>>,
    depth: nat,
    after_operand: bool,
) -> bool {
    &&& is_orderly(stack)
    &&& has_operand_on_top(stack) ==> after_operand
    &&& open_count(stack) == depth
    &&& is_sound(output)
    &&& is_postfix(output)
    &&& height(output) + (if has_operand_on_top(stack) {
        1int
    } else {
        0int
    }) == operator_count(stack) + (if after_operand {
        1int
    } else {
        0int
    })
}

/// From a configuration that is in step with a well-formed expression, the
/// conversion succeeds, and what it gives is an expression in postfix form.
pub proof fn in_step_converts<N>(
    input: Seq<Token<N>>,
    next: int,
    stack: Seq<Token<N>>,
    output: Seq<Token<N>>,
    depth: nat,
    after_operand: bool,
)
    requires
        completes(input, next, depth, after_operand),
        is_in_step(stack, output, depth, after_operand),
    ensures
        converted(input, next, stack, output) matches Ok(postfix) && is_expression(postfix)
            && is_postfix(postfix),
    decreases 2 * (input.len() - next) + stack.len(),
{
    let token = input[next];
    let ahead = stack.push(token);
    let below = stack.drop_last();
    assert(ahead.drop_last() == stack);
    if stack.len() > 0 {
        assert(below.push(stack.last()) == stack);
        assert(output.push(stack.last()).drop_last() == output);
    }
    if has_operand_on_top(stack) {
        in_step_converts(input, next, below, output.push(stack.last()), depth, after_operand);
    } else {
        match relation(top_class(stack), token.class()) {
            Relation::Shift => {
                match token {
                    Token::Operand(_) => {
                        in_step_converts(input, next + 1, ahead, output, depth, true);
                    },
                    Token::Operator(Operator::OpenParen) => {
                        in_step_converts(input, next + 1, ahead, output, depth + 1, false);
                    },
                    Token::Operator(_) => {
                        in_step_converts(input, next + 1, ahead, output, depth, false);
                    },
                }
            },
            Relation::Reduce => {
                in_step_converts(input, next, below, output.push(stack.last()), depth, true);
            },
            Relation::Match => {
                in_step_converts(input, next + 1, below, output, (depth - 1) as nat, true);
            },
            Relation::Stop => {},
            Relation::Conflict => {},
        }
    }
}

/// A well-formed expression with balanced parentheses has a postfix form,
/// and that form is an expression: it holds no parenthesis, every operator
/// in it finds its two operands, and it leaves one value.
pub proof fn well_formed_converts<N>(tokens: Seq<Token<N>>)
    requires
        is_well_formed(tokens),
    ensures
        postfix_of(tokens) matches Ok(postfix) && is_expression(postfix) && is_postfix(postfix),
{
    in_step_converts(tokens, 0, Seq::empty(), Seq::empty(), 0, false);
}

/// Whether a sequence is an expression in postfix form does not depend on
/// its numbers.
pub proof fn shape_ignores_numbers<N, M>(tokens: Seq<Token<N>>, reading: spec_fn(N) -> M)
    ensures
        height(relabeled(tokens, reading)) == height(tokens),
        is_sound(relabeled(tokens, reading)) == is_sound(tokens),
        is_expression(relabeled(tokens, reading)) == is_expression(tokens),
    decreases tokens.len(),
{
    if tokens.len() > 0 {
        shape_ignores_numbers(tokens.drop_last(), reading);
        assert(relabeled(tokens, reading).drop_last() == relabeled(tokens.drop_last(), reading));
    }
}

/// The value of a text: of the postfix form of its tokens, each number read
/// by `reading`, where `unit` gives the result of each operation.
pub open spec fn value_of_text(
    text: Seq<char>,
    reading: spec_fn(Seq<char>) -> Binary64,
    unit: spec_fn(Operation) -> Binary64,
) -> Result<Binary64, MathError> {
    match parsed(text) {
        Ok(postfix) => value_of(relabeled(postfix, reading), unit),
        Err(error) => Err(error),
    }
}

/// A text whose tokens are a well-formed expression with balanced
/// parentheses has a postfix form without parentheses, and it has a value,
/// however its numbers are read and whatever the unit is, unless an
/// operator meets operands that it is not defined for: `1/0` is well formed
/// and has no value.
pub proof fn well_formed_text_has_value(
    text: Seq<char>,
    reading: spec_fn(Seq<char>) -> Binary64,
    unit: spec_fn(Operation) -> Binary64,
)
    requires
        tokens_of(text) matches Ok(tokens) && is_well_formed(tokens),
    ensures
        parsed(text) matches Ok(postfix) && is_postfix(postfix),
        match value_of_text(text, reading, unit) {
            Ok(_) => true,
            Err(error) => error.is_domain_error(),
        },
{
    let tokens = tokens_of(text)->Ok_0;
    well_formed_converts(tokens);
    let postfix = postfix_of(tokens)->Ok_0;
    shape_ignores_numbers(postfix, reading);
    expression_has_value(relabeled(postfix, reading), unit);
}

} // verus!
