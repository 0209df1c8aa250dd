//! The postfix evaluator.
//!
//! A postfix sequence is evaluated on a stack of values. The evaluator
//! decides everything but the arithmetic: it keeps the stack, finds the
//! operands of each operator, rejects what the operator is not defined for,
//! breaks the operator down into additions, subtractions, multiplications,
//! divisions and powers, and knows when the sequence is exhausted. For each
//! of those operations it stops and names it; the caller computes it and
//! hands the result back.
use vstd::prelude::*;
use crate::binary64::Binary64;
use crate::error::MathError;
use crate::operator::Operator;
use crate::token::Token;

verus! {

/// What the caller computes: the five operations of its floating-point
/// unit that the operators are made of.
#[derive(Debug, Clone, Copy, PartialEq, Eq, Structural)]
pub enum Primitive {
    /// `left + right`
    Add,
    /// `left - right`
    Subtract,
    /// `left * right`
    Multiply,
    /// `left / right`
    Divide,
    /// `left` to the power `right`
    Power,
}

/// A primitive with its two operands.
#[derive(Debug, Clone, Copy, PartialEq, Eq, Structural)]
pub struct Operation {
    pub primitive: Primitive,
    pub left: Binary64,
    pub right: Binary64,
}

/// What an evaluation has come to.
#[derive(Debug, Clone, Copy, PartialEq, Eq)]
pub enum Step {
    /// The operation is due. The evaluation goes on when its result is
    /// supplied.
    Compute(Operation),
    /// The evaluation is over, with a value or with an error.
    Finished(Result<Binary64, MathError>),
}

/// How far the operator before the cursor has come.
#[derive(Debug, Clone, Copy, PartialEq, Eq, Structural)]
pub enum Progress {
    /// It has not begun.
    Idle,
    /// A percentage has its quotient and is about to scale it.
    Scaling { quotient: Binary64 },
    /// A root has the inverse of its degree and is about to raise its
    /// radicand to it.
    Rooting { inverse: Binary64, radicand: Binary64 },
    /// A factorial has the product of the factors below `next` and is about
    /// to multiply it by `next`; `last` is the last factor.
    Multiplying { product: Binary64, next: u8, last: u8 },
}

/// The largest whole number whose factorial is finite: the factorial of 171
/// is beyond the largest binary64 number.
pub const FACTORIAL_LIMIT: u8 = 170;

/// Why an operator has no result on two operands, if it has none. `left`
/// was pushed before `right`.
///
/// A division and a percentage need a right operand that is not negligible.
/// A root needs a degree, its left operand, that is not negligible, and a
/// radicand, its right operand, that is not negative. A factorial needs a
/// left operand that is not negative. A parenthesis or an end marker has no
/// place in a postfix sequence.
pub open spec fn domain_error(operator: Operator, left: Binary64, right: Binary64) -> Option<
    MathError,
> {
    match operator {
        Operator::Plus | Operator::Minus | Operator::Multiply | Operator::Power => None,
        Operator::Divide | Operator::Percent => if right.is_negligible() {
            Some(MathError::DivideByZero)
        } else {
            None
        },
        Operator::Root => if left.is_negligible() {
            Some(MathError::ZeroRoot)
        } else if right.is_negative() {
            Some(MathError::NegativeRoot)
        } else {
            None
        },
        Operator::Factorial => if left.is_negative() {
            Some(MathError::NegativeFactorial)
        } else {
            None
        },
        Operator::OpenParen | Operator::CloseParen | Operator::EndOfInput => Some(
            MathError::InvalidExpression,
        ),
    }
}

/// Computes [`domain_error`].
pub fn check_domain(operator: Operator, left: Binary64, right: Binary64) -> (error: Option<
    MathError,
>)
    ensures
        error == domain_error(operator, left, right),
{
    match operator {
        Operator::Plus | Operator::Minus | Operator::Multiply | Operator::Power => None,
        Operator::Divide | Operator::Percent => if right.negligible() {
            Some(MathError::DivideByZero)
        } else {
            None
        },
        Operator::Root => if left.negligible() {
            Some(MathError::ZeroRoot)
        } else if right.negative() {
            Some(MathError::NegativeRoot)
        } else {
            None
        },
        Operator::Factorial => if left.negative() {
            Some(MathError::NegativeFactorial)
        } else {
            None
        },
        Operator::OpenParen | Operator::CloseParen | Operator::EndOfInput => Some(
            MathError::InvalidExpression,
        ),
    }
}

/// An operation.
pub open spec fn operation(primitive: Primitive, left: Binary64, right: Binary64) -> Operation {
    Operation { primitive, left, right }
}

/// The operation that an operator begins with on two operands that it is
/// defined for, if it begins with one: a factorial begins with none.
pub open spec fn opening(operator: Operator, left: Binary64, right: Binary64) -> Option<
    Operation,
> {
    match operator {
        Operator::Plus => Some(operation(Primitive::Add, left, right)),
        Operator::Minus => Some(operation(Primitive::Subtract, left, right)),
        Operator::Multiply => Some(operation(Primitive::Multiply, left, right)),
        Operator::Divide | Operator::Percent => Some(operation(Primitive::Divide, left, right)),
        Operator::Power => Some(operation(Primitive::Power, left, right)),
        Operator::Root => Some(operation(Primitive::Divide, Binary64::whole_number(1), left)),
        _ => None,
    }
}

/// Computes [`opening`].
pub fn open_operator(operator: Operator, left: Binary64, right: Binary64) -> (due: Option<
    Operation,
>)
    ensures
        due == opening(operator, left, right),
{
    match operator {
        Operator::Plus => Some(Operation { primitive: Primitive::Add, left, right }),
        Operator::Minus => Some(Operation { primitive: Primitive::Subtract, left, right }),
        Operator::Multiply => Some(Operation { primitive: Primitive::Multiply, left, right }),
        Operator::Divide | Operator::Percent => Some(
            Operation { primitive: Primitive::Divide, left, right },
        ),
        Operator::Power => Some(Operation { primitive: Primitive::Power, left, right }),
        Operator::Root => Some(
            Operation { primitive: Primitive::Divide, left: Binary64::whole(1), right: left },
        ),
        _ => None,
    }
}

/// `product` multiplied by the whole numbers from `next` to `last`, one
/// after the other in rising order, where `unit` gives the result of each
/// multiplication.
pub open spec fn multiplied(
    product: Binary64,
    next: nat,
    last: nat,
    unit: spec_fn(Operation) -> Binary64,
) -> Binary64
    decreases last + 1 - next,
{
    if next > last {
        product
    } else {
        multiplied(
            unit(operation(Primitive::Multiply, product, Binary64::whole_number(next))),
            next + 1,
            last,
            unit,
        )
    }
}

/// The factorial of the whole part of a number that is not negative:
/// infinite above the limit, and else one multiplied by the whole numbers
/// from two up to that whole part.
pub open spec fn factorial(operand: Binary64, unit: spec_fn(Operation) -> Binary64) -> Binary64 {
    if operand.whole_part() > FACTORIAL_LIMIT {
        Binary64::infinity()
    } else {
        multiplied(Binary64::whole_number(1), 2, operand.whole_part(), unit)
    }
}

/// The result of an operator on two operands that it is defined for, where
/// `unit` gives the result of each operation.
///
/// The sum, the difference, the product, the quotient and the power are one
/// operation each. The percentage is the quotient times one hundred. The
/// root is the right operand to the power of one divided by the left
/// operand. The factorial is that of the left operand; its right operand is
/// not looked at.
pub open spec fn result_of(
    operator: Operator,
    left: Binary64,
    right: Binary64,
    unit: spec_fn(Operation) -> Binary64,
) -> Binary64 {
    match operator {
        Operator::Plus => unit(operation(Primitive::Add, left, right)),
        Operator::Minus => unit(operation(Primitive::Subtract, left, right)),
        Operator::Multiply => unit(operation(Primitive::Multiply, left, right)),
        Operator::Divide => unit(operation(Primitive::Divide, left, right)),
        Operator::Power => unit(operation(Primitive::Power, left, right)),
        Operator::Percent => unit(
            operation(
                Primitive::Multiply,
                unit(operation(Primitive::Divide, left, right)),
                Binary64::whole_number(100),
            ),
        ),
        Operator::Root => unit(
            operation(
                Primitive::Power,
                right,
                unit(operation(Primitive::Divide, Binary64::whole_number(1), left)),
            ),
        ),
        Operator::Factorial => factorial(left, unit),
        Operator::OpenParen | Operator::CloseParen | Operator::EndOfInput => left,
    }
}

/// The result of an evaluation whose tokens are exhausted: the one value
/// that is left, if exactly one is.
pub open spec fn outcome(stack: Seq<Binary64>) -> Result<Binary64, MathError> {
    if stack.len() == 1 {
        Ok(stack[0])
    } else {
        Err(MathError::InvalidExpression)
    }
}

/// The value of the tokens from `cursor` on, evaluated on top of `stack`,
/// where `unit` gives the result of each operation.
///
/// A number is pushed. An operator takes the two values on top of the
/// stack, the right one first, and pushes its result; with fewer than two
/// values there, or with two that it is not defined for, the evaluation
/// fails. At the end, one value has to be left.
pub open spec fn value_from(
    tokens: Seq<Token<Binary64>>,
    cursor: int,
    stack: Seq<Binary64>,
    unit: spec_fn(Operation) -> Binary64,
) -> Result<Binary64, MathError>
    decreases tokens.len() - cursor,
{
    if cursor < 0 || cursor >= tokens.len() {
        outcome(stack)
    } else {
        match tokens[cursor] {
            Token::Operand(value) => value_from(tokens, cursor + 1, stack.push(value), unit),
            Token::Operator(operator) => if stack.len() < 2 {
                Err(MathError::InvalidExpression)
            } else {
                let left = stack[stack.len() - 2];
                let right = stack[stack.len() - 1];
                match domain_error(operator, left, right) {
                    Some(error) => Err(error),
                    None => value_from(
                        tokens,
                        cursor + 1,
                        stack.take(stack.len() - 2).push(result_of(operator, left, right, unit)),
                        unit,
                    ),
                }
            },
        }
    }
}

/// The value of a postfix sequence, where `unit` gives the result of each
/// operation.
pub open spec fn value_of(
    tokens: Seq<Token<Binary64>>,
    unit: spec_fn(Operation) -> Binary64,
) -> Result<Binary64, MathError> {
    value_from(tokens, 0, Seq::empty(), unit)
}

/// The state of an evaluation: the postfix sequence, the number of its
/// tokens that have been taken up, the stack of values, and how far the
/// operator that was taken up last has come.
pub ghost struct Evaluation {
    pub tokens: Seq<Token<Binary64>>,
    pub cursor: int,
    pub stack: Seq<Binary64>,
    pub progress: Progress,
}

impl Evaluation {
    /// This state past the token at the cursor, with `stack` as its stack
    /// and the operator that was passed at `progress`.
    pub open spec fn past(self, stack: Seq<Binary64>, progress: Progress) -> Evaluation {
        Evaluation { tokens: self.tokens, cursor: self.cursor + 1, stack, progress }
    }

    /// This state with the operator in progress at `progress`, and `stack`
    /// as its stack.
    pub open spec fn within(self, stack: Seq<Binary64>, progress: Progress) -> Evaluation {
        Evaluation { tokens: self.tokens, cursor: self.cursor, stack, progress }
    }

    /// The state in which this evaluation next stops: the numbers at the
    /// cursor are pushed, and a factorial that needs no multiplication is
    /// replaced by its result. A factorial that needs one is begun.
    pub open spec fn settled(self) -> Evaluation
        decreases self.tokens.len() - self.cursor,
    {
        if !(self.progress is Idle) || self.cursor < 0 || self.cursor >= self.tokens.len() {
            self
        } else {
            match self.tokens[self.cursor] {
                Token::Operand(value) => self.past(
                    self.stack.push(value),
                    Progress::Idle,
                ).settled(),
                Token::Operator(operator) => {
                    let left = self.stack[self.stack.len() - 2];
                    let right = self.stack[self.stack.len() - 1];
                    let below = self.stack.take(self.stack.len() - 2);
                    if operator is Factorial && self.stack.len() >= 2 && domain_error(
                        operator,
                        left,
                        right,
                    ) is None {
                        if left.whole_part() > FACTORIAL_LIMIT {
                            self.past(below.push(Binary64::infinity()), Progress::Idle).settled()
                        } else if left.whole_part() < 2 {
                            self.past(
                                below.push(Binary64::whole_number(1)),
                                Progress::Idle,
                            ).settled()
                        } else {
                            self.past(
                                below,
                                Progress::Multiplying {
                                    product: Binary64::whole_number(1),
                                    next: 2,
                                    last: left.whole_part() as u8,
                                },
                            )
                        }
                    } else {
                        self
                    }
                },
            }
        }
    }

    /// Whether this evaluation has stopped: an operator is in progress, or
    /// the cursor stands at the end or before an operator that is no
    /// factorial ready to begin.
    pub open spec fn is_settled(self) -> bool {
        self.progress is Idle && 0 <= self.cursor < self.tokens.len() ==> (
        match self.tokens[self.cursor] {
            Token::Operand(_) => false,
            Token::Operator(operator) => !(operator is Factorial && self.stack.len() >= 2
                && domain_error(
                operator,
                self.stack[self.stack.len() - 2],
                self.stack[self.stack.len() - 1],
            ) is None),
        })
    }

    /// What a settled evaluation has come to. An operator in progress asks
    /// for its next operation. At the end of the tokens the evaluation is
    /// finished with the outcome of the stack. Before an operator it is
    /// finished with an error if the stack holds fewer than two values or
    /// the operator is not defined for the two on top; else the operator's
    /// first operation is due.
    pub open spec fn step(self) -> Step {
        match self.progress {
            Progress::Scaling { quotient } => Step::Compute(
                operation(Primitive::Multiply, quotient, Binary64::whole_number(100)),
            ),
            Progress::Rooting { inverse, radicand } => Step::Compute(
                operation(Primitive::Power, radicand, inverse),
            ),
            Progress::Multiplying { product, next, last } => Step::Compute(
                operation(Primitive::Multiply, product, Binary64::whole_number(next as nat)),
            ),
            Progress::Idle => if self.cursor < 0 || self.cursor >= self.tokens.len() {
                Step::Finished(outcome(self.stack))
            } else if self.stack.len() < 2 {
                Step::Finished(Err(MathError::InvalidExpression))
            } else {
                let left = self.stack[self.stack.len() - 2];
                let right = self.stack[self.stack.len() - 1];
                match self.tokens[self.cursor] {
                    Token::Operand(_) => Step::Finished(Err(MathError::InvalidExpression)),
                    Token::Operator(operator) => match domain_error(operator, left, right) {
                        Some(error) => Step::Finished(Err(error)),
                        None => match opening(operator, left, right) {
                            Some(due) => Step::Compute(due),
                            None => Step::Finished(Err(MathError::InvalidExpression)),
                        },
                    },
                }
            },
        }
    }

    /// What this evaluation comes to next.
    pub open spec fn next_step(self) -> Step {
        self.settled().step()
    }

    /// A settled evaluation once the result of the operation that is due
    /// has been supplied. A percentage has its quotient, then its result; a
    /// root the inverse of its degree, then its result; a factorial one
    /// more factor in its product, until the last factor gives its result.
    /// The result of an operator replaces its operands on the stack. Where
    /// no operation is due, nothing changes.
    pub open spec fn taking(self, result: Binary64) -> Evaluation {
        match self.progress {
            Progress::Scaling { quotient } => self.within(
                self.stack.push(result),
                Progress::Idle,
            ),
            Progress::Rooting { inverse, radicand } => self.within(
                self.stack.push(result),
                Progress::Idle,
            ),
            Progress::Multiplying { product, next, last } => if next < last {
                self.within(
                    self.stack,
                    Progress::Multiplying { product: result, next: (next + 1) as u8, last },
                )
            } else {
                self.within(self.stack.push(result), Progress::Idle)
            },
            Progress::Idle => if self.step() is Compute {
                let right = self.stack[self.stack.len() - 1];
                let below = self.stack.take(self.stack.len() - 2);
                match self.tokens[self.cursor] {
                    Token::Operator(Operator::Percent) => self.past(
                        below,
                        Progress::Scaling { quotient: result },
                    ),
                    Token::Operator(Operator::Root) => self.past(
                        below,
                        Progress::Rooting { inverse: result, radicand: right },
                    ),
                    _ => self.past(below.push(result), Progress::Idle),
                }
            } else {
                self
            },
        }
    }

    /// This evaluation once the result of the operation that is due next
    /// has been supplied.
    pub open spec fn supplied(self, result: Binary64) -> Evaluation {
        self.settled().taking(result)
    }

    /// The value that this evaluation ends with, where `unit` gives the
    /// result of each operation: the operator in progress is completed, and
    /// the rest of the tokens is evaluated.
    pub open spec fn value(self, unit: spec_fn(Operation) -> Binary64) -> Result<
        Binary64,
        MathError,
    > {
        match self.progress {
            Progress::Idle => value_from(self.tokens, self.cursor, self.stack, unit),
            Progress::Scaling { quotient } => value_from(
                self.tokens,
                self.cursor,
                self.stack.push(
                    unit(operation(Primitive::Multiply, quotient, Binary64::whole_number(100))),
                ),
                unit,
            ),
            Progress::Rooting { inverse, radicand } => value_from(
                self.tokens,
                self.cursor,
                self.stack.push(unit(operation(Primitive::Power, radicand, inverse))),
                unit,
            ),
            Progress::Multiplying { product, next, last } => value_from(
                self.tokens,
                self.cursor,
                self.stack.push(
                    multiplied(
                        unit(
                            operation(
                                Primitive::Multiply,
                                product,
                                Binary64::whole_number(next as nat),
                            ),
                        ),
                        next as nat + 1,
                        last as nat,
                        unit,
                    ),
                ),
                unit,
            ),
        }
    }
}

/// An evaluation in progress.
pub struct Evaluator {
    tokens: Vec<Token<Binary64>>,
    cursor: usize,
    stack: Vec<Binary64>,
    progress: Progress,
}

impl View for Evaluator {
    type V = Evaluation;

    closed spec fn view(&self) -> Evaluation {
        Evaluation {
            tokens: self.tokens@,
            cursor: self.cursor as int,
            stack: self.stack@,
            progress: self.progress,
        }
    }
}

impl Evaluator {
    /// Starts the evaluation of a postfix sequence.
    pub fn new(tokens: Vec<Token<Binary64>>) -> (evaluator: Evaluator)
        ensures
            evaluator@ == start(tokens@),
    {
        Evaluator { tokens, cursor: 0, stack: Vec::new(), progress: Progress::Idle }
    }

    /// The number of tokens that have been taken up.
    pub fn position(&self) -> (cursor: usize)
        ensures
            cursor == self@.cursor,
    {
        self.cursor
    }

    /// The number of values on the stack.
    pub fn height(&self) -> (height: usize)
        ensures
            height == self@.stack.len(),
    {
        self.stack.len()
    }

    /// Goes on to where the evaluation next stops, and says what it has
    /// come to there.
    pub fn advance(&mut self) -> (step: Step)
        ensures
            final(self)@ == old(self)@.settled(),
            step == old(self)@.next_step(),
    {
        let count: usize = self.tokens.len();
        loop
            invariant
                count == self.tokens@.len(),
                self@.settled() == old(self)@.settled(),
            decreases count - self.cursor,
        {
            match self.progress {
                Progress::Scaling { quotient } => {
                    return Step::Compute(
                        Operation {
                            primitive: Primitive::Multiply,
                            left: quotient,
                            right: Binary64::whole(100),
                        },
                    );
                },
                Progress::Rooting { inverse, radicand } => {
                    return Step::Compute(
                        Operation { primitive: Primitive::Power, left: radicand, right: inverse },
                    );
                },
                Progress::Multiplying { product, next, last } => {
                    return Step::Compute(
                        Operation {
                            primitive: Primitive::Multiply,
                            left: product,
                            right: Binary64::whole(next),
                        },
                    );
                },
                Progress::Idle => {},
            }
            if self.cursor >= count {
                return if self.stack.len() == 1 {
                    Step::Finished(Ok(self.stack[0]))
                } else {
                    Step::Finished(Err(MathError::InvalidExpression))
                };
            }
            match &self.tokens[self.cursor] {
                Token::Operand(value) => {
                    let value: Binary64 = *value;
                    self.stack.push(value);
                    self.cursor = self.cursor + 1;
                },
                Token::Operator(operator) => {
                    let operator: Operator = *operator;
                    let height: usize = self.stack.len();
                    if height < 2 {
                        return Step::Finished(Err(MathError::InvalidExpression));
                    }
                    let left: Binary64 = self.stack[height - 2];
                    let right: Binary64 = self.stack[height - 1];
                    if let Some(error) = check_domain(operator, left, right) {
                        return Step::Finished(Err(error));
                    }
                    if let Some(due) = open_operator(operator, left, right) {
                        return Step::Compute(due);
                    }
                    let last: u8 = match left.small_whole_part() {
                        Some(part) => part,
                        None => u8::MAX,
                    };
                    self.stack.truncate(height - 2);
                    self.cursor = self.cursor + 1;
                    if last > FACTORIAL_LIMIT {
                        self.stack.push(Binary64::positive_infinity());
                    } else if last < 2 {
                        self.stack.push(Binary64::whole(1));
                    } else {
                        let product: Binary64 = Binary64::whole(1);
                        self.progress = Progress::Multiplying { product, next: 2, last };
                    }
                },
            }
        }
    }

    /// Takes the result of the operation that is due next.
    pub fn supply(&mut self, result: Binary64)
        ensures
            final(self)@ == old(self)@.supplied(result),
    {
        let step: Step = self.advance();
        match self.progress {
            Progress::Scaling { quotient } => {
                self.progress = Progress::Idle;
                self.stack.push(result);
            },
            Progress::Rooting { inverse, radicand } => {
                self.progress = Progress::Idle;
                self.stack.push(result);
            },
            Progress::Multiplying { product, next, last } => {
                if next < last {
                    self.progress = Progress::Multiplying { product: result, next: next + 1, last };
                } else {
                    self.progress = Progress::Idle;
                    self.stack.push(result);
                }
            },
            Progress::Idle => {
                if let Step::Compute(_) = step {
                    assert(self@.step() is Compute);
                    assert(self.cursor < self.tokens.len());
                    let height: usize = self.stack.len();
                    let right: Binary64 = self.stack[height - 1];
                    self.stack.truncate(height - 2);
                    match &self.tokens[self.cursor] {
                        Token::Operator(Operator::Percent) => {
                            self.progress = Progress::Scaling { quotient: result };
                        },
                        Token::Operator(Operator::Root) => {
                            self.progress = Progress::Rooting { inverse: result, radicand: right };
                        },
                        _ => {
                            self.stack.push(result);
                        },
                    }
                    self.cursor = self.cursor + 1;
                }
            },
        }
    }
}

/// Going on to where an evaluation next stops does not change its value,
/// and where it has stopped it stays until a result is supplied.
pub proof fn settling_keeps_value(state: Evaluation, unit: spec_fn(Operation) -> Binary64)
    ensures
        state.settled().value(unit) == state.value(unit),
        state.settled().is_settled(),
        state.settled().settled() == state.settled(),
        state.settled().tokens == state.tokens,
    decreases state.tokens.len() - state.cursor,
{
    if state.progress is Idle && 0 <= state.cursor < state.tokens.len() {
        match state.tokens[state.cursor] {
            Token::Operand(value) => {
                settling_keeps_value(state.past(state.stack.push(value), Progress::Idle), unit);
            },
            Token::Operator(operator) => {
                let left = state.stack[state.stack.len() - 2];
                let right = state.stack[state.stack.len() - 1];
                let below = state.stack.take(state.stack.len() - 2);
                if operator is Factorial && state.stack.len() >= 2 && domain_error(
                    operator,
                    left,
                    right,
                ) is None {
                    if left.whole_part() > FACTORIAL_LIMIT {
                        settling_keeps_value(
                            state.past(below.push(Binary64::infinity()), Progress::Idle),
                            unit,
                        );
                    } else if left.whole_part() < 2 {
                        settling_keeps_value(
                            state.past(below.push(Binary64::whole_number(1)), Progress::Idle),
                            unit,
                        );
                        reveal_with_fuel(multiplied, 1);
                    }
                }
            },
        }
    }
}

/// A step of the evaluator is a step of the evaluation. When it is
/// finished, its result is the value of the evaluation, whatever the unit
/// is. When an operation is due, the value is that of the evaluation to
/// which the result that the unit gives has been supplied.
pub proof fn step_keeps_value(state: Evaluation, unit: spec_fn(Operation) -> Binary64)
    ensures
        state.next_step() matches Step::Finished(outcome) ==> state.value(unit) == outcome,
        state.next_step() matches Step::Compute(due) ==> state.supplied(unit(due)).value(unit)
            == state.value(unit),
{
    settling_keeps_value(state, unit);
}

/// The operations that an evaluation can still ask for, at most: 256 for
/// each token that is left, and those of the operator in progress.
pub open spec fn work_left(state: Evaluation) -> int {
    256 * (state.tokens.len() - state.cursor) + match state.progress {
        Progress::Idle => 0int,
        Progress::Scaling { .. } => 1int,
        Progress::Rooting { .. } => 1int,
        Progress::Multiplying { next, last, .. } => if next < last {
            last - next + 1
        } else {
            1int
        },
    }
}

/// Going on leaves no more work than there was.
pub proof fn settling_leaves_no_more_work(state: Evaluation)
    ensures
        work_left(state.settled()) <= work_left(state),
        state.cursor <= state.tokens.len() ==> state.settled().cursor <= state.tokens.len(),
    decreases state.tokens.len() - state.cursor,
{
    if state.progress is Idle && 0 <= state.cursor < state.tokens.len() {
        match state.tokens[state.cursor] {
            Token::Operand(value) => {
                settling_leaves_no_more_work(
                    state.past(state.stack.push(value), Progress::Idle),
                );
            },
            Token::Operator(operator) => {
                let left = state.stack[state.stack.len() - 2];
                let right = state.stack[state.stack.len() - 1];
                let below = state.stack.take(state.stack.len() - 2);
                if operator is Factorial && state.stack.len() >= 2 && domain_error(
                    operator,
                    left,
                    right,
                ) is None {
                    if left.whole_part() > FACTORIAL_LIMIT {
                        settling_leaves_no_more_work(
                            state.past(below.push(Binary64::infinity()), Progress::Idle),
                        );
                    } else if left.whole_part() < 2 {
                        settling_leaves_no_more_work(
                            state.past(below.push(Binary64::whole_number(1)), Progress::Idle),
                        );
                    }
                }
            },
        }
    }
}

/// Each result that is supplied where one is due leaves less work: an
/// evaluation comes to its end, however the caller computes.
pub proof fn supplying_leaves_less_work(state: Evaluation, result: Binary64)
    requires
        state.cursor <= state.tokens.len(),
        state.next_step() is Compute,
    ensures
        0 <= work_left(state.supplied(result)) < work_left(state),
        state.supplied(result).cursor <= state.tokens.len(),
        state.supplied(result).tokens == state.tokens,
{
    settling_leaves_no_more_work(state);
    settling_keeps_value(state, |operation: Operation| result);
}

/// The state in which the evaluation of a postfix sequence starts.
pub open spec fn start(tokens: Seq<Token<Binary64>>) -> Evaluation {
    Evaluation { tokens, cursor: 0, stack: Seq::empty(), progress: Progress::Idle }
}

/// What an evaluation ends with when each operation that it asks for is
/// answered by `unit`.
pub open spec fn driven(state: Evaluation, unit: spec_fn(Operation) -> Binary64) -> Result<
    Binary64,
    MathError,
>
    decreases work_left(state),
    when state.cursor <= state.tokens.len()
{
    match state.next_step() {
        Step::Finished(outcome) => outcome,
        Step::Compute(due) => {
            proof {
                supplying_leaves_less_work(state, unit(due));
                settling_leaves_no_more_work(state);
            }
            driven(state.supplied(unit(due)), unit)
        },
    }
}

/// An evaluation that is driven by a unit ends with its value under that
/// unit.
pub proof fn driving_gives_value(state: Evaluation, unit: spec_fn(Operation) -> Binary64)
    requires
        state.cursor <= state.tokens.len(),
    ensures
        driven(state, unit) == state.value(unit),
    decreases work_left(state),
{
    step_keeps_value(state, unit);
    if let Step::Compute(due) = state.next_step() {
        supplying_leaves_less_work(state, unit(due));
        settling_leaves_no_more_work(state);
        driving_gives_value(state.supplied(unit(due)), unit);
    }
}

/// The evaluation of a postfix sequence, driven by a unit from its start,
/// ends with the value of the sequence under that unit.
pub proof fn driving_from_start(
    tokens: Seq<Token<Binary64>>,
    unit: spec_fn(Operation) -> Binary64,
)
    ensures
        driven(start(tokens), unit) == value_of(tokens, unit),
{
    driving_gives_value(start(tokens), unit);
}

/// The number of values that a postfix sequence leaves on the stack, if it
/// never takes more than there are: one more for each number, one less
/// for each operator.
pub open spec fn height<N>(tokens: Seq<Token<N>>) -> int
    decreases tokens.len(),
{
    if tokens.len() == 0 {
        0
    } else if tokens.last() is Operand {
        height(tokens.drop_last()) + 1
    } else {
        height(tokens.drop_last()) - 1
    }
}

/// Whether every operator of a sequence combines two values and finds two
/// on the stack.
pub open spec fn is_sound<N>(tokens: Seq<Token<N>>) -> bool
    decreases tokens.len(),
{
    if tokens.len() == 0 {
        true
    } else {
        &&& is_sound(tokens.drop_last())
        &&& tokens.last() matches Token::Operator(operator) ==> operator.is_arithmetic()
            && height(tokens.drop_last()) >= 2
    }
}

/// Whether a sequence is an expression in postfix form: every operator
/// finds its two operands, and one value is left at the end.
pub open spec fn is_expression<N>(tokens: Seq<Token<N>>) -> bool {
    is_sound(tokens) && height(tokens) == 1
}

/// The start of a sound sequence is sound.
pub proof fn sound_prefix<N>(tokens: Seq<Token<N>>, length: int)
    requires
        is_sound(tokens),
        0 <= length <= tokens.len(),
    ensures
        is_sound(tokens.take(length)),
    decreases tokens.len() - length,
{
    if length < tokens.len() {
        sound_prefix(tokens, length + 1);
        assert(tokens.take(length + 1).drop_last() == tokens.take(length));
    } else {
        assert(tokens.take(length) == tokens);
    }
}

/// The rest of an expression in postfix form fails only where an operator
/// is not defined for its operands.
pub proof fn sound_rest_has_value(
    tokens: Seq<Token<Binary64>>,
    cursor: int,
    stack: Seq<Binary64>,
    unit: spec_fn(Operation) -> Binary64,
)
    requires
        is_expression(tokens),
        0 <= cursor <= tokens.len(),
        stack.len() == height(tokens.take(cursor)),
    ensures
        value_from(tokens, cursor, stack, unit) matches Err(error) ==> error.is_domain_error(),
    decreases tokens.len() - cursor,
{
    if cursor < tokens.len() {
        sound_prefix(tokens, cursor + 1);
        assert(tokens.take(cursor + 1).drop_last() == tokens.take(cursor));
        assert(tokens.take(cursor + 1).last() == tokens[cursor]);
        match tokens[cursor] {
            Token::Operand(value) => {
                sound_rest_has_value(tokens, cursor + 1, stack.push(value), unit);
            },
            Token::Operator(operator) => {
                let left = stack[stack.len() - 2];
                let right = stack[stack.len() - 1];
                if domain_error(operator, left, right) is None {
                    sound_rest_has_value(
                        tokens,
                        cursor + 1,
                        stack.take(stack.len() - 2).push(result_of(operator, left, right, unit)),
                        unit,
                    );
                }
            },
        }
    } else {
        assert(tokens.take(cursor) == tokens);
    }
}

/// An expression in postfix form has a value, whatever the unit is, unless
/// one of its operators meets operands that it is not defined for: it never
/// fails as an invalid expression.
pub proof fn expression_has_value(
    tokens: Seq<Token<Binary64>>,
    unit: spec_fn(Operation) -> Binary64,
)
    requires
        is_expression(tokens),
    ensures
        value_of(tokens, unit) matches Err(error) ==> error.is_domain_error(),
{
    assert(tokens.take(0) == Seq::<Token<Binary64>>::empty());
    sound_rest_has_value(tokens, 0, Seq::empty(), unit);
}

} // verus!
