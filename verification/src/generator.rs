//! Test data: a list of random whole numbers, as many as a file name says.
use vstd::prelude::*;
use rand::rngs::ThreadRng;
use rand::Rng;
use crate::text::{chars_of, decimal, digit, is_digit, push_char, push_decimal};

verus! {

/// The regular expression whose first group is the count in a file name. It
/// is meant for the last number of the name, with no path separator after
/// it.
pub const COUNT_PATTERN: &'static str = r"^.*?(\d+)[^\d/\\]*$";

/// Why a file name gives no count.
#[derive(Debug, Clone, Copy, PartialEq, Eq, Structural)]
pub enum CountError {
    /// The pattern is no regular expression.
    Pattern,
    /// The file name holds no number where the pattern looks for one.
    Missing,
    /// The number is not written in ASCII digits, or is too large.
    Unreadable,
}

/// The error of the crate `regex`, `regex::Error`. It is carried, never
/// looked into.
#[verifier::external_type_specification]
#[verifier::external_body]
pub struct ExRegexError(regex::Error);

/// The random number generator of a thread, `rand::rngs::ThreadRng`. It is
/// carried, never looked into.
#[verifier::external_type_specification]
#[verifier::external_body]
pub struct ExThreadRng(ThreadRng);

/// What the first capture group of a regular expression holds on its
/// leftmost match in a text: nothing at all where the pattern is no regular
/// expression, no group where the text has no match or the group took no
/// part in it.
pub uninterp spec fn first_capture(pattern: Seq<char>, text: Seq<char>) -> Option<
    Option<Seq<char>>,
>;

/// Matches a regular expression against a text and copies what its first
/// capture group holds.
///
/// Trusted: this is `Regex::new`, then `Regex::captures`, `Captures::get`
/// with the index 1 and `Match::as_str` of the crate `regex`. The pattern
/// and the text decide the result, which the contract gives its name,
/// [`first_capture`]; it claims nothing else of it.
#[verifier::external_body]
fn capture_first(pattern: &str, text: &str) -> (found: Result<Option<String>, regex::Error>)
    ensures
        match found {
            Ok(Some(group)) => first_capture(pattern@, text@) == Some(Some(group@)),
            Ok(None) => first_capture(pattern@, text@) == Some(None::<Seq<char>>),
            Err(_) => first_capture(pattern@, text@) is None,
        },
{
    match regex::Regex::new(pattern) {
        Ok(expression) => Ok(
            match expression.captures(text) {
                Some(found) => match found.get(1) {
                    Some(group) => Some(group.as_str().to_owned()),
                    None => None,
                },
                None => None,
            },
        ),
        Err(error) => Err(error),
    }
}

/// Trusted: `rand::thread_rng`, which hands out the random number generator
/// of the current thread. Nothing is claimed of it.
pub assume_specification[ rand::thread_rng ]() -> (generator: ThreadRng)
;

/// Draws a whole number between `low` and `high`, both included.
///
/// Trusted: this is `Rng::gen_range` of the crate `rand` on an inclusive
/// range, which panics on an empty range and else returns a number of the
/// range. Which one is left open.
#[verifier::external_body]
fn draw(generator: &mut ThreadRng, low: i64, high: i64) -> (number: i64)
    requires
        low <= high,
    ensures
        low <= number <= high,
{
    generator.gen_range(low..=high)
}

/// The number that decimal digits write.
pub open spec fn digits_value(digits: Seq<char>) -> nat
    decreases digits.len(),
{
    if digits.len() == 0 {
        0
    } else {
        (digits_value(digits.drop_last()) * 10 + (digits.last() as int - '0' as int)) as nat
    }
}

/// The count that a text writes: its value, if it is a run of ASCII digits,
/// at least one, and the value fits.
pub open spec fn count_of(digits: Seq<char>) -> Option<usize> {
    if digits.len() > 0 && (forall|i: int| 0 <= i < digits.len() ==> is_digit(digits[i]))
        && digits_value(digits) <= usize::MAX {
        Some(digits_value(digits) as usize)
    } else {
        None
    }
}

/// The count that a capture gives.
pub open spec fn count_captured(found: Option<Option<Seq<char>>>) -> Result<usize, CountError> {
    match found {
        None => Err(CountError::Pattern),
        Some(None) => Err(CountError::Missing),
        Some(Some(digits)) => match count_of(digits) {
            Some(count) => Ok(count),
            None => Err(CountError::Unreadable),
        },
    }
}

/// More digits write no smaller a number.
proof fn value_grows(digits: Seq<char>, length: int)
    requires
        0 <= length <= digits.len(),
        forall|i: int| 0 <= i < digits.len() ==> is_digit(digits[i]),
    ensures
        digits_value(digits.take(length)) <= digits_value(digits),
    decreases digits.len() - length,
{
    if length < digits.len() {
        value_grows(digits, length + 1);
        assert(digits.take(length + 1).drop_last() == digits.take(length));
        assert(is_digit(digits[length]));
    } else {
        assert(digits.take(length) == digits);
    }
}

/// Computes [`count_of`].
pub fn read_count(digits: &str) -> (count: Option<usize>)
    ensures
        count == count_of(digits@),
{
    let chars: Vec<char> = chars_of(digits);
    if chars.len() == 0 {
        return None;
    }
    let mut value: usize = 0;
    let mut i: usize = 0;
    assert(chars@.take(0) == Seq::<char>::empty());
    while i < chars.len()
        invariant
            i <= chars@.len(),
            chars@ == digits@,
            forall|k: int| 0 <= k < i ==> is_digit(chars@[k]),
            value == digits_value(chars@.take(i as int)),
        decreases chars.len() - i,
    {
        let c: char = chars[i];
        if !digit(c) {
            return None;
        }
        let unit: usize = (c as u32 - '0' as u32) as usize;
        proof {
            assert(chars@.take(i + 1).drop_last() == chars@.take(i as int));
            assert(chars@.take(i + 1).last() == c);
        }
        if value > (usize::MAX - unit) / 10 {
            proof {
                if forall|k: int| 0 <= k < chars@.len() ==> is_digit(chars@[k]) {
                    value_grows(chars@, i + 1);
                }
            }
            return None;
        }
        value = value * 10 + unit;
        i = i + 1;
    }
    assert(chars@.take(chars@.len() as int) == chars@);
    Some(value)
}

/// The count that a capture gives: what the file name's number is worth,
/// if the capture holds one.
pub fn count_of_capture(found: Option<String>) -> (count: Result<usize, CountError>)
    ensures
        count == count_captured(
            Some(
                match found {
                    Some(digits) => Some(digits@),
                    None => None,
                },
            ),
        ),
{
    match found {
        None => Err(CountError::Missing),
        Some(digits) => match read_count(digits.as_str()) {
            Some(count) => Ok(count),
            None => Err(CountError::Unreadable),
        },
    }
}

/// The count that a file name asks for: the number that its last run of
/// digits writes.
pub fn count_in_name(file_name: &str) -> (count: Result<usize, CountError>)
    ensures
        count == count_captured(first_capture(COUNT_PATTERN@, file_name@)),
{
    match capture_first(COUNT_PATTERN, file_name) {
        Ok(found) => count_of_capture(found),
        Err(_) => Err(CountError::Pattern),
    }
}

/// Draws `count` whole numbers between `low` and `high`, both included.
pub fn random_numbers(count: usize, low: i64, high: i64) -> (numbers: Vec<i64>)
    requires
        low <= high,
    ensures
        numbers@.len() == count,
        forall|i: int| 0 <= i < count ==> low <= #[trigger] numbers@[i] <= high,
{
    let mut generator: ThreadRng = rand::thread_rng();
    let mut numbers: Vec<i64> = Vec::new();
    while numbers.len() < count
        invariant
            low <= high,
            numbers@.len() <= count,
            forall|i: int| 0 <= i < numbers@.len() ==> low <= #[trigger] numbers@[i] <= high,
        decreases count - numbers.len(),
    {
        let number: i64 = draw(&mut generator, low, high);
        numbers.push(number);
    }
    numbers
}

/// A whole number written in decimal digits, with a minus sign if it is
/// below zero.
pub open spec fn signed_decimal(n: int) -> Seq<char> {
    if n < 0 {
        seq!['-'] + decimal((-n) as nat)
    } else {
        decimal(n as nat)
    }
}

/// The numbers written one after the other, with a space between one and
/// the next.
pub open spec fn spaced_text(numbers: Seq<i64>) -> Seq<char>
    decreases numbers.len(),
{
    if numbers.len() == 0 {
        Seq::empty()
    } else if numbers.len() == 1 {
        signed_decimal(numbers[0] as int)
    } else {
        spaced_text(numbers.drop_last()) + seq![' '] + signed_decimal(numbers.last() as int)
    }
}

/// Writes the numbers one after the other, with a space between one and the
/// next.
pub fn spaced(numbers: &Vec<i64>) -> (text: String)
    ensures
        text@ == spaced_text(numbers@),
{
    let mut text: String = String::new();
    let mut i: usize = 0;
    assert(numbers@.take(0) == Seq::<i64>::empty());
    while i < numbers.len()
        invariant
            i <= numbers@.len(),
            text@ == spaced_text(numbers@.take(i as int)),
        decreases numbers.len() - i,
    {
        let ghost before = text@;
        if i > 0 {
            push_char(&mut text, ' ');
        }
        let number: i64 = numbers[i];
        if number < 0 {
            push_char(&mut text, '-');
            let magnitude: u64 = (-(number + 1)) as u64 + 1;
            push_decimal(&mut text, magnitude);
        } else {
            push_decimal(&mut text, number as u64);
        }
        i = i + 1;
        proof {
            let done = numbers@.take(i as int);
            assert(done.drop_last() == numbers@.take(i - 1));
            assert(done.last() == number);
            if i == 1 {
                assert(before == Seq::<char>::empty());
                assert(text@ == signed_decimal(number as int));
            } else {
                assert(text@ == before + seq![' '] + signed_decimal(number as int));
            }
        }
    }
    assert(numbers@.take(numbers@.len() as int) == numbers@);
    text
}

} // verus!
