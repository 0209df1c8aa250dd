//! The tokenizer: from the text of an expression to its tokens.
use vstd::prelude::*;
use crate::error::MathError;
use crate::number::{is_number, normalized, point_count, Number};
use crate::operator::Operator;
use crate::text::{chars_of, is_numeric, is_space, numeric, space};
use crate::token::Token;

verus! {

/// Where the run of numeric characters that starts at `start` ends.
pub open spec fn run_end(text: Seq<char>, start: int) -> int
    decreases text.len() - start,
{
    if 0 <= start < text.len() && is_numeric(text[start]) {
        run_end(text, start + 1)
    } else {
        start
    }
}

/// A run ends no earlier than it starts and no later than the text.
pub proof fn run_end_bounds(text: Seq<char>, start: int)
    requires
        0 <= start <= text.len(),
    ensures
        start <= run_end(text, start) <= text.len(),
        start < text.len() && is_numeric(text[start]) ==> start < run_end(text, start),
        forall|i: int| start <= i < run_end(text, start) ==> is_numeric(#[trigger] text[i]),
        run_end(text, start) < text.len() ==> !is_numeric(text[run_end(text, start)]),
    decreases text.len() - start,
{
    if start < text.len() && is_numeric(text[start]) {
        run_end_bounds(text, start + 1);
    }
}

/// Some tokens, followed by the tokens of the rest if the rest has any.
pub open spec fn followed_by<N>(
    first: Seq<Token<N>>,
    rest: Result<Seq<Token<N>>, MathError>,
) -> Result<Seq<Token<N>>, MathError> {
    match rest {
        Ok(tokens) => Ok(first + tokens),
        Err(error) => Err(error),
    }
}

/// The tokens of a text from `start` on.
///
/// At the end of the text stands the end marker. A numeric character starts
/// a number, which runs as far as numeric characters follow and is written
/// with points for commas; if that is no number, the text has no tokens. A
/// space is passed over. A factorial sign gives the operator and the operand
/// one, so that the factorial too stands between two operands. Any other
/// operator sign gives its operator. Any other character is invalid. The
/// first failure from the left is the one reported.
pub open spec fn tokens_from(text: Seq<char>, start: int) -> Result<
    Seq<Token<Seq<char>>>,
    MathError,
>
    decreases text.len() - start,
{
    if start < 0 || start >= text.len() {
        Ok(seq![Token::Operator(Operator::EndOfInput)])
    } else if is_numeric(text[start]) {
        let end = run_end(text, start);
        let number = normalized(text.subrange(start, end));
        if is_number(number) {
            proof {
                run_end_bounds(text, start);
            }
            followed_by(seq![Token::Operand(number)], tokens_from(text, end))
        } else {
            Err(MathError::MalformedNumber)
        }
    } else if is_space(text[start]) {
        tokens_from(text, start + 1)
    } else {
        match Operator::of_symbol(text[start]) {
            Some(Operator::Factorial) => followed_by(
                seq![Token::Operator(Operator::Factorial), Token::Operand(seq!['1'])],
                tokens_from(text, start + 1),
            ),
            Some(operator) => followed_by(
                seq![Token::Operator(operator)],
                tokens_from(text, start + 1),
            ),
            None => Err(
                MathError::InvalidCharacter { character: text[start], position: start as usize },
            ),
        }
    }
}

/// The tokens of a text.
pub open spec fn tokens_of(text: Seq<char>) -> Result<Seq<Token<Seq<char>>>, MathError> {
    tokens_from(text, 0)
}

/// What a tokenizer's result says: the written form of each token, or the
/// error.
pub open spec fn written(result: Result<Vec<Token<Number>>, MathError>) -> Result<
    Seq<Token<Seq<char>>>,
    MathError,
> {
    match result {
        Ok(tokens) => Ok(tokens.deep_view()),
        Err(error) => Err(error),
    }
}

/// Splits the text of an expression into its tokens, in the order of the
/// text, with the end marker last.
pub fn tokenize(input: &str) -> (result: Result<Vec<Token<Number>>, MathError>)
    ensures
        written(result) == tokens_of(input@),
        result matches Err(error) ==> error is InvalidCharacter || error is MalformedNumber,
{
    proof {
        tokens_are_marked(input@, 0);
    }
    let chars: Vec<char> = chars_of(input);
    let count: usize = chars.len();
    let mut tokens: Vec<Token<Number>> = Vec::new();
    let mut i: usize = 0;
    proof {
        assert(tokens.deep_view() == Seq::<Token<Seq<char>>>::empty());
        assert(Seq::<Token<Seq<char>>>::empty() + tokens_from(chars@, 0)->Ok_0 == tokens_from(
            chars@,
            0,
        )->Ok_0);
    }
    while i < count
        invariant
            i <= count == chars@.len(),
            chars@ == input@,
            tokens_of(chars@) == followed_by(tokens.deep_view(), tokens_from(chars@, i as int)),
        decreases count - i,
    {
        let c: char = chars[i];
        let ghost before = tokens.deep_view();
        let ghost rest = tokens_from(chars@, i as int);
        if numeric(c) {
            let mut end: usize = i + 1;
            while end < count && numeric(chars[end])
                invariant
                    i < end <= count == chars@.len(),
                    run_end(chars@, i as int) == run_end(chars@, end as int),
                    forall|k: int| i <= k < end ==> is_numeric(chars@[k]),
                decreases count - end,
            {
                end = end + 1;
            }
            match Number::scan(&chars, i, end) {
                Some(number) => {
                    tokens.push(Token::Operand(number));
                    proof {
                        let next = tokens_from(chars@, end as int);
                        assert(rest == followed_by(seq![Token::Operand(number@)], next));
                        assert(tokens.deep_view() =~= before + seq![Token::Operand(number@)]);
                        pushed_views(before, tokens.deep_view(), seq![Token::Operand(number@)], next);
                    }
                },
                None => {
                    return Err(MathError::MalformedNumber);
                },
            }
            i = end;
        } else if space(c) {
            i = i + 1;
        } else {
            match Operator::from_symbol(c) {
                Some(Operator::Factorial) => {
                    tokens.push(Token::Operator(Operator::Factorial));
                    tokens.push(Token::Operand(Number::one()));
                    proof {
                        assert(tokens.deep_view() =~= before + seq![
                            Token::Operator(Operator::Factorial),
                            Token::Operand(seq!['1']),
                        ]);
                        pushed_views(
                            before,
                            tokens.deep_view(),
                            seq![Token::Operator(Operator::Factorial), Token::Operand(seq!['1'])],
                            tokens_from(chars@, i + 1),
                        );
                    }
                },
                Some(operator) => {
                    tokens.push(Token::Operator(operator));
                    proof {
                        assert(tokens.deep_view() =~= before + seq![Token::Operator(operator)]);
                        pushed_views(
                            before,
                            tokens.deep_view(),
                            seq![Token::Operator(operator)],
                            tokens_from(chars@, i + 1),
                        );
                    }
                },
                None => {
                    return Err(MathError::InvalidCharacter { character: c, position: i });
                },
            }
            i = i + 1;
        }
    }
    let ghost before = tokens.deep_view();
    tokens.push(Token::Operator(Operator::EndOfInput));
    assert(tokens.deep_view() =~= before + seq![Token::Operator(Operator::EndOfInput)]);
    Ok(tokens)
}

/// Whether the tokens are what a tokenizer gives: each number is a number
/// as it is written, and the end marker stands at the end and nowhere else.
pub open spec fn is_marked(tokens: Seq<Token<Seq<char>>>) -> bool {
    &&& tokens.len() > 0
    &&& forall|i: int|
        0 <= i < tokens.len() ==> match #[trigger] tokens[i] {
            Token::Operand(number) => is_number(number),
            Token::Operator(operator) => (operator is EndOfInput) == (i == tokens.len() - 1),
        }
}

/// Tokens before marked tokens leave them marked, if each number among
/// them is a number as it is written and none is an end marker.
proof fn marked_after(first: Seq<Token<Seq<char>>>, rest: Seq<Token<Seq<char>>>)
    requires
        is_marked(rest),
        forall|i: int|
            0 <= i < first.len() ==> match #[trigger] first[i] {
                Token::Operand(number) => is_number(number),
                Token::Operator(operator) => !(operator is EndOfInput),
            },
    ensures
        is_marked(first + rest),
{
    let tokens = first + rest;
    assert forall|i: int| 0 <= i < tokens.len() implies match #[trigger] tokens[i] {
        Token::Operand(number) => is_number(number),
        Token::Operator(operator) => (operator is EndOfInput) == (i == tokens.len() - 1),
    } by {
        if i < first.len() {
            assert(tokens[i] == first[i]);
        } else {
            assert(tokens[i] == rest[i - first.len()]);
        }
    }
}

/// The tokens of a text end with the end marker, which stands nowhere
/// else, and each of their numbers is a number as it is written. A text
/// without tokens holds an invalid character or a malformed number.
pub proof fn tokens_are_marked(text: Seq<char>, start: int)
    ensures
        match tokens_from(text, start) {
            Ok(tokens) => is_marked(tokens),
            Err(error) => error is InvalidCharacter || error is MalformedNumber,
        },
    decreases text.len() - start,
{
    if 0 <= start < text.len() {
        if is_numeric(text[start]) {
            let end = run_end(text, start);
            let number = normalized(text.subrange(start, end));
            run_end_bounds(text, start);
            tokens_are_marked(text, end);
            if is_number(number) {
                if let Ok(rest) = tokens_from(text, end) {
                    marked_after(seq![Token::Operand(number)], rest);
                }
            }
        } else if is_space(text[start]) {
            tokens_are_marked(text, start + 1);
        } else {
            tokens_are_marked(text, start + 1);
            if let Ok(rest) = tokens_from(text, start + 1) {
                match Operator::of_symbol(text[start]) {
                    Some(Operator::Factorial) => {
                        let one = seq!['1'];
                        assert(one.drop_last() == Seq::<char>::empty());
                        assert(point_count(one.drop_last()) == 0);
                        assert(is_number(one));
                        marked_after(
                            seq![Token::Operator(Operator::Factorial), Token::Operand(one)],
                            rest,
                        );
                    },
                    Some(operator) => {
                        marked_after(seq![Token::Operator(operator)], rest);
                    },
                    None => {},
                }
            }
        }
    } else {
        let tokens: Seq<Token<Seq<char>>> = seq![Token::Operator(Operator::EndOfInput)];
        assert(tokens[0] == Token::<Seq<char>>::Operator(Operator::EndOfInput));
    }
}

/// Tokens that were appended to a list stand before the rest as the list
/// stood before them and the rest.
proof fn pushed_views(
    before: Seq<Token<Seq<char>>>,
    after: Seq<Token<Seq<char>>>,
    added: Seq<Token<Seq<char>>>,
    rest: Result<Seq<Token<Seq<char>>>, MathError>,
)
    requires
        after == before + added,
    ensures
        followed_by(before, followed_by(added, rest)) == followed_by(after, rest),
{
    if let Ok(tokens) = rest {
        assert(before + (added + tokens) == (before + added) + tokens);
    }
}

} // verus!
