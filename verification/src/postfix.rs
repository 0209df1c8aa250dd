//! The conversion from infix to postfix form.
//!
//! The tokens are read from left to right against a stack. What happens to
//! the next token is looked up in the precedence table, under the token on
//! top of the stack and the token itself. An empty stack counts as the end
//! marker: that is the sentinel below every stack.
use vstd::prelude::*;
use crate::error::MathError;
use crate::operator::{Operator, END_CLASS};
use crate::precedence::{lookup, relation, Relation};
use crate::token::{relabeled, Token};

verus! {

/// The class that the stack shows to the table.
pub open spec fn top_class<N>(stack: Seq<Token<N>>) -> int {
    if stack.len() == 0 {
        END_CLASS as int
    } else {
        stack.last().class()
    }
}

/// The postfix form that the conversion arrives at from a configuration:
/// the tokens of `input` from `next` on are left to read, `stack` holds the
/// tokens that wait, `output` the postfix form so far.
///
/// When nothing is left to read, the output is the result. Else the table
/// decides: the next token is shifted onto the stack; or the top of the
/// stack is reduced, that is moved to the output, and the same token is
/// looked at again; or the top of the stack and the next token match, and
/// both are dropped; or the conversion stops with the output; or the two
/// are in conflict, and the tokens are no expression. A table that asked
/// for a token from an empty stack would be broken.
pub open spec fn converted<N>(
    input: Seq<Token<N>>,
    next: int,
    stack: Seq<Token<N>>,
    output: Seq<Token<N>>,
) -> Result<Seq<Token<N>>, MathError>
    decreases 2 * (input.len() - next) + stack.len(),
{
    if next < 0 || next >= input.len() {
        Ok(output)
    } else {
        match relation(top_class(stack), input[next].class()) {
            Relation::Shift => converted(input, next + 1, stack.push(input[next]), output),
            Relation::Reduce => if stack.len() == 0 {
                Err(MathError::InternalError)
            } else {
                converted(input, next, stack.drop_last(), output.push(stack.last()))
            },
            Relation::Match => if stack.len() == 0 {
                Err(MathError::InternalError)
            } else {
                converted(input, next + 1, stack.drop_last(), output)
            },
            Relation::Stop => Ok(output),
            Relation::Conflict => Err(MathError::InvalidExpression),
        }
    }
}

/// The postfix form of a sequence of tokens.
pub open spec fn postfix_of<N>(tokens: Seq<Token<N>>) -> Result<Seq<Token<N>>, MathError> {
    converted(tokens, 0, Seq::empty(), Seq::empty())
}

/// What a converter's result says: the tokens as a sequence, or the error.
pub open spec fn sequence_of<N>(result: Result<Vec<Token<N>>, MathError>) -> Result<
    Seq<Token<N>>,
    MathError,
> {
    match result {
        Ok(tokens) => Ok(tokens@),
        Err(error) => Err(error),
    }
}

/// The tokens in the opposite order.
fn reversed<N>(tokens: Vec<Token<N>>) -> (queue: Vec<Token<N>>)
    ensures
        queue@.len() == tokens@.len(),
        forall|k: int| 0 <= k < queue@.len() ==> queue@[k] == tokens@[tokens@.len() - 1 - k],
{
    let ghost input = tokens@;
    let mut tokens = tokens;
    let mut queue: Vec<Token<N>> = Vec::new();
    while tokens.len() > 0
        invariant
            tokens@.len() + queue@.len() == input.len(),
            tokens@ == input.take(tokens@.len() as int),
            forall|k: int| 0 <= k < queue@.len() ==> queue@[k] == input[input.len() - 1 - k],
        decreases tokens.len(),
    {
        let token: Token<N> = tokens.pop().unwrap();
        queue.push(token);
    }
    queue
}

/// Converts an infix sequence of tokens to postfix form. It fails exactly
/// where the tokens hold a conflict, as an invalid expression. No
/// parenthesis and no end marker is left in the postfix form.
///
/// The tokens after the first end marker that meets the bottom of the stack
/// are not read. The step budget is a safety net: the contract shows that it
/// is never used up, and that the stack never runs dry.
pub fn to_postfix<N>(tokens: Vec<Token<N>>) -> (result: Result<Vec<Token<N>>, MathError>)
    ensures
        sequence_of(result) == postfix_of(tokens@),
        result is Ok <==> !conflicts_from(tokens@, 0, 0),
        result matches Ok(postfix) ==> is_postfix(postfix@),
        result matches Err(error) ==> error is InvalidExpression,
{
    let ghost input = tokens@;
    let count: usize = tokens.len();
    let mut queue: Vec<Token<N>> = reversed(tokens);
    let mut stack: Vec<Token<N>> = Vec::new();
    let mut output: Vec<Token<N>> = Vec::new();
    let mut budget: u128 = 2 * (count as u128);
    proof {
        never_broken(input, 0, Seq::empty(), Seq::empty());
        converts_without_conflict(input);
        postfix_has_no_parentheses(input);
    }
    while queue.len() > 0
        invariant
            input == tokens@,
            queue@.len() <= input.len(),
            forall|k: int| 0 <= k < queue@.len() ==> queue@[k] == input[input.len() - 1 - k],
            postfix_of(input) == converted(input, input.len() - queue@.len(), stack@, output@),
            !(postfix_of(input) matches Err(MathError::InternalError)),
            postfix_of(input) is Ok <==> !conflicts_from(input, 0, 0),
            postfix_of(input) matches Ok(postfix) ==> is_postfix(postfix),
            budget >= 2 * queue@.len() + stack@.len(),
        decreases budget,
    {
        if budget == 0 {
            return Err(MathError::InternalError);
        }
        budget = budget - 1;
        let next: usize = queue[queue.len() - 1].precedence_index();
        let top: usize = if stack.len() == 0 {
            END_CLASS
        } else {
            stack[stack.len() - 1].precedence_index()
        };
        match lookup(top, next) {
            Relation::Shift => {
                let token: Token<N> = queue.pop().unwrap();
                stack.push(token);
            },
            Relation::Reduce => {
                match stack.pop() {
                    Some(token) => {
                        output.push(token);
                    },
                    None => {
                        return Err(MathError::InternalError);
                    },
                }
            },
            Relation::Match => {
                if stack.pop().is_none() {
                    return Err(MathError::InternalError);
                }
                queue.pop();
            },
            Relation::Stop => {
                return Ok(output);
            },
            Relation::Conflict => {
                return Err(MathError::InvalidExpression);
            },
        }
    }
    Ok(output)
}

/// The table never asks for a token from an empty stack: no conversion ends
/// in an internal error, whatever the tokens are and wherever it starts.
pub proof fn never_broken<N>(
    input: Seq<Token<N>>,
    next: int,
    stack: Seq<Token<N>>,
    output: Seq<Token<N>>,
)
    ensures
        converted(input, next, stack, output) matches Err(error) ==> error is InvalidExpression,
    decreases 2 * (input.len() - next) + stack.len(),
{
    if 0 <= next < input.len() {
        match relation(top_class(stack), input[next].class()) {
            Relation::Shift => {
                never_broken(input, next + 1, stack.push(input[next]), output);
            },
            Relation::Reduce => {
                if stack.len() > 0 {
                    never_broken(input, next, stack.drop_last(), output.push(stack.last()));
                }
            },
            Relation::Match => {
                if stack.len() > 0 {
                    never_broken(input, next + 1, stack.drop_last(), output);
                }
            },
            Relation::Stop => {},
            Relation::Conflict => {},
        }
    }
}

/// Whether a stack holds only what a conversion puts there: no closing
/// parenthesis and no end marker.
pub open spec fn is_waiting<N>(stack: Seq<Token<N>>) -> bool {
    forall|i: int|
        0 <= i < stack.len() ==> !(#[trigger] stack[i] matches Token::Operator(
            Operator::CloseParen,
        )) && !(stack[i] matches Token::Operator(Operator::EndOfInput))
}

/// Whether a sequence holds only numbers and operators that combine two
/// values.
pub open spec fn is_postfix<N>(tokens: Seq<Token<N>>) -> bool {
    forall|i: int| 0 <= i < tokens.len() ==> (#[trigger] tokens[i]).is_postfix_token()
}

/// No parenthesis and no end marker reaches the output: a conversion that
/// starts with none there, and with neither a closing parenthesis nor an
/// end marker on its stack, ends with none there.
pub proof fn output_is_postfix<N>(
    input: Seq<Token<N>>,
    next: int,
    stack: Seq<Token<N>>,
    output: Seq<Token<N>>,
)
    requires
        is_waiting(stack),
        is_postfix(output),
    ensures
        converted(input, next, stack, output) matches Ok(postfix) ==> is_postfix(postfix),
    decreases 2 * (input.len() - next) + stack.len(),
{
    if 0 <= next < input.len() {
        match relation(top_class(stack), input[next].class()) {
            Relation::Shift => {
                output_is_postfix(input, next + 1, stack.push(input[next]), output);
            },
            Relation::Reduce => {
                if stack.len() > 0 {
                    output_is_postfix(input, next, stack.drop_last(), output.push(stack.last()));
                }
            },
            Relation::Match => {
                if stack.len() > 0 {
                    output_is_postfix(input, next + 1, stack.drop_last(), output);
                }
            },
            Relation::Stop => {},
            Relation::Conflict => {},
        }
    }
}

/// The postfix form of any tokens holds neither a parenthesis nor an end
/// marker.
pub proof fn postfix_has_no_parentheses<N>(tokens: Seq<Token<N>>)
    ensures
        postfix_of(tokens) matches Ok(postfix) ==> is_postfix(postfix),
{
    output_is_postfix(tokens, 0, Seq::empty(), Seq::empty());
}

/// The number of opening parentheses in a stack.
pub open spec fn open_count<N>(stack: Seq<Token<N>>) -> nat
    decreases stack.len(),
{
    if stack.len() == 0 {
        0
    } else {
        open_count(stack.drop_last()) + if stack.last() matches Token::Operator(
            Operator::OpenParen,
        ) {
            1nat
        } else {
            0nat
        }
    }
}

/// Whether the tokens from `next` on hold a conflict when `depth`
/// parentheses are open: a number with a number or an opening parenthesis
/// right after it, a closing parenthesis that has no opening one, or an
/// end marker that comes while a parenthesis is open. Behind an end marker
/// nothing is looked at.
pub open spec fn conflicts_from<N>(tokens: Seq<Token<N>>, next: int, depth: nat) -> bool
    decreases tokens.len() - next,
{
    if next < 0 || next >= tokens.len() {
        false
    } else {
        match tokens[next] {
            Token::Operand(_) => (next + 1 < tokens.len() && starts_operand(tokens[next + 1]))
                || conflicts_from(tokens, next + 1, depth),
            Token::Operator(Operator::OpenParen) => conflicts_from(tokens, next + 1, depth + 1),
            Token::Operator(Operator::CloseParen) => depth == 0 || conflicts_from(
                tokens,
                next + 1,
                (depth - 1) as nat,
            ),
            Token::Operator(Operator::EndOfInput) => depth > 0,
            Token::Operator(_) => conflicts_from(tokens, next + 1, depth),
        }
    }
}

/// Whether a token is a number or an opening parenthesis: what an operand
/// starts with.
pub open spec fn starts_operand<N>(token: Token<N>) -> bool {
    token is Operand || token matches Token::Operator(Operator::OpenParen)
}

/// Whether a number waits on top of a stack.
pub open spec fn has_operand_on_top<N>(stack: Seq<Token<N>>) -> bool {
    stack.len() > 0 && stack.last() is Operand
}

/// Whether a stack is one that a conversion builds: it holds no closing
/// parenthesis and no end marker, and a number on top at most.
pub open spec fn is_orderly<N>(stack: Seq<Token<N>>) -> bool {
    &&& is_waiting(stack)
    &&& forall|i: int| 0 <= i < stack.len() - 1 ==> (#[trigger] stack[i]) is Operator
}

/// A conversion fails exactly where the tokens hold a conflict: with a
/// number on top of the stack, where the next token starts an operand;
/// and else where the rest of the tokens holds a conflict at the depth of
/// the parentheses on the stack.
pub proof fn fails_on_conflict<N>(
    input: Seq<Token<N>>,
    next: int,
    stack: Seq<Token<N>>,
    output: Seq<Token<N>>,
)
    requires
        0 <= next,
        is_orderly(stack),
    ensures
        converted(input, next, stack, output) is Err <==> (if has_operand_on_top(stack) && next
            < input.len() && starts_operand(input[next]) {
            true
        } else {
            conflicts_from(input, next, open_count(stack))
        }),
    decreases 2 * (input.len() - next) + stack.len(),
{
    if next < input.len() {
        let token = input[next];
        let ahead = stack.push(token);
        let below = stack.drop_last();
        assert(ahead.drop_last() == stack);
        if stack.len() > 0 {
            assert(below.push(stack.last()) == stack);
        }
        match relation(top_class(stack), token.class()) {
            Relation::Shift => {
                fails_on_conflict(input, next + 1, ahead, output);
            },
            Relation::Reduce => {
                fails_on_conflict(input, next, below, output.push(stack.last()));
            },
            Relation::Match => {
                fails_on_conflict(input, next + 1, below, output);
            },
            Relation::Stop => {},
            Relation::Conflict => {},
        }
    }
}

/// The tokens have a postfix form exactly if they hold no conflict.
pub proof fn converts_without_conflict<N>(tokens: Seq<Token<N>>)
    ensures
        postfix_of(tokens) is Ok <==> !conflicts_from(tokens, 0, 0),
{
    fails_on_conflict(tokens, 0, Seq::empty(), Seq::empty());
}

/// A result with each number read by `reading`.
pub open spec fn relabeled_result<N, M>(
    result: Result<Seq<Token<N>>, MathError>,
    reading: spec_fn(N) -> M,
) -> Result<Seq<Token<M>>, MathError> {
    match result {
        Ok(tokens) => Ok(relabeled(tokens, reading)),
        Err(error) => Err(error),
    }
}

/// The conversion does not look at the numbers: to read them before it or
/// after it comes to the same.
pub proof fn conversion_ignores_numbers<N, M>(
    input: Seq<Token<N>>,
    next: int,
    stack: Seq<Token<N>>,
    output: Seq<Token<N>>,
    reading: spec_fn(N) -> M,
)
    ensures
        converted(
            relabeled(input, reading),
            next,
            relabeled(stack, reading),
            relabeled(output, reading),
        ) == relabeled_result(converted(input, next, stack, output), reading),
    decreases 2 * (input.len() - next) + stack.len(),
{
    if 0 <= next < input.len() {
        assert(top_class(relabeled(stack, reading)) == top_class(stack));
        assert(relabeled(input, reading)[next].class() == input[next].class());
        match relation(top_class(stack), input[next].class()) {
            Relation::Shift => {
                assert(relabeled(stack.push(input[next]), reading) == relabeled(
                    stack,
                    reading,
                ).push(relabeled(input, reading)[next]));
                conversion_ignores_numbers(
                    input,
                    next + 1,
                    stack.push(input[next]),
                    output,
                    reading,
                );
            },
            Relation::Reduce => {
                if stack.len() > 0 {
                    assert(relabeled(stack.drop_last(), reading) == relabeled(
                        stack,
                        reading,
                    ).drop_last());
                    assert(relabeled(output.push(stack.last()), reading) == relabeled(
                        output,
                        reading,
                    ).push(relabeled(stack, reading).last()));
                    conversion_ignores_numbers(
                        input,
                        next,
                        stack.drop_last(),
                        output.push(stack.last()),
                        reading,
                    );
                }
            },
            Relation::Match => {
                if stack.len() > 0 {
                    assert(relabeled(stack.drop_last(), reading) == relabeled(
                        stack,
                        reading,
                    ).drop_last());
                    conversion_ignores_numbers(input, next + 1, stack.drop_last(), output, reading);
                }
            },
            Relation::Stop => {},
            Relation::Conflict => {},
        }
    }
}

/// The postfix form of relabeled tokens is the relabeled postfix form.
pub proof fn postfix_ignores_numbers<N, M>(tokens: Seq<Token<N>>, reading: spec_fn(N) -> M)
    ensures
        postfix_of(relabeled(tokens, reading)) == relabeled_result(postfix_of(tokens), reading),
{
    assert(relabeled(Seq::<Token<N>>::empty(), reading) == Seq::<Token<M>>::empty());
    conversion_ignores_numbers(tokens, 0, Seq::empty(), Seq::empty(), reading);
}

} // verus!
