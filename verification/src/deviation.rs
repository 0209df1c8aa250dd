//! The expression for the standard deviation of a list of numbers.
use vstd::prelude::*;
use vstd::string::StringExecFns;
use crate::text::{chars_of, decimal, is_space, push_char, push_decimal, push_range, space};

verus! {

/// Where the run of characters other than spaces that starts at `start`
/// ends.
pub open spec fn word_end(text: Seq<char>, start: int) -> int
    decreases text.len() - start,
{
    if 0 <= start < text.len() && !is_space(text[start]) {
        word_end(text, start + 1)
    } else {
        start
    }
}

/// A word ends after it starts and no later than the text.
pub proof fn word_end_bounds(text: Seq<char>, start: int)
    requires
        0 <= start <= text.len(),
    ensures
        start <= word_end(text, start) <= text.len(),
        start < text.len() && !is_space(text[start]) ==> start < word_end(text, start),
    decreases text.len() - start,
{
    if start < text.len() && !is_space(text[start]) {
        word_end_bounds(text, start + 1);
    }
}

/// The words of a text from `start` on: the longest runs of characters
/// other than spaces, from left to right.
pub open spec fn words_from(text: Seq<char>, start: int) -> Seq<Seq<char>>
    decreases text.len() - start,
{
    if start < 0 || start >= text.len() {
        Seq::empty()
    } else if is_space(text[start]) {
        words_from(text, start + 1)
    } else {
        proof {
            word_end_bounds(text, start);
        }
        seq![text.subrange(start, word_end(text, start))] + words_from(
            text,
            word_end(text, start),
        )
    }
}

/// The words of a text.
pub open spec fn words_of(text: Seq<char>) -> Seq<Seq<char>> {
    words_from(text, 0)
}

/// The words, each followed by `after`, with a plus sign between one and
/// the next.
pub open spec fn joined(words: Seq<Seq<char>>, after: Seq<char>) -> Seq<char>
    decreases words.len(),
{
    if words.len() == 0 {
        Seq::empty()
    } else if words.len() == 1 {
        words[0] + after
    } else {
        joined(words.drop_last(), after) + seq!['+'] + words.last() + after
    }
}

/// The expression for the sample standard deviation of `words`, each taken
/// as a number `x`, `n` of them: the square root of
/// `1/(n-1) * ((sum of x^2) - 1/n * (sum of x)^2)`.
pub open spec fn deviation_of(words: Seq<Seq<char>>) -> Seq<char> {
    "2√(1/"@ + decimal((words.len() - 1) as nat) + "*("@ + joined(words, "^2"@) + "-1/"@
        + decimal(words.len()) + "*("@ + joined(words, Seq::empty()) + ")^2))"@
}

/// Whether a span lies within a text of the given length.
pub open spec fn within(span: (usize, usize), length: nat) -> bool {
    span.0 <= span.1 <= length
}

/// The parts of a text at the given spans.
pub open spec fn cuts(text: Seq<char>, spans: Seq<(usize, usize)>) -> Seq<Seq<char>> {
    Seq::new(spans.len(), |k: int| text.subrange(spans[k].0 as int, spans[k].1 as int))
}

/// The places of the words of a text: for each word its start and its end.
fn word_spans(chars: &Vec<char>) -> (spans: Vec<(usize, usize)>)
    ensures
        forall|k: int| 0 <= k < spans@.len() ==> within(#[trigger] spans@[k], chars@.len()),
        cuts(chars@, spans@) == words_of(chars@),
{
    let count: usize = chars.len();
    let mut spans: Vec<(usize, usize)> = Vec::new();
    let mut i: usize = 0;
    assert(cuts(chars@, spans@) + words_from(chars@, 0) == words_from(chars@, 0));
    while i < count
        invariant
            i <= count == chars@.len(),
            words_of(chars@) == cuts(chars@, spans@) + words_from(chars@, i as int),
            forall|k: int| 0 <= k < spans@.len() ==> within(#[trigger] spans@[k], chars@.len()),
        decreases count - i,
    {
        if space(chars[i]) {
            i = i + 1;
        } else {
            let mut end: usize = i + 1;
            while end < count && !space(chars[end])
                invariant
                    i < end <= count == chars@.len(),
                    word_end(chars@, i as int) == word_end(chars@, end as int),
                decreases count - end,
            {
                end = end + 1;
            }
            let ghost found = cuts(chars@, spans@);
            spans.push((i, end));
            proof {
                let word = chars@.subrange(i as int, end as int);
                let rest = words_from(chars@, end as int);
                assert(cuts(chars@, spans@) == found.push(word));
                assert(found + (seq![word] + rest) == found.push(word) + rest);
            }
            i = end;
        }
    }
    assert(cuts(chars@, spans@) + words_from(chars@, i as int) == cuts(chars@, spans@));
    spans
}

/// Appends the words at `spans`, each followed by `after`, with a plus sign
/// between one and the next.
fn push_joined(text: &mut String, chars: &Vec<char>, spans: &Vec<(usize, usize)>, after: &str)
    requires
        forall|k: int| 0 <= k < spans@.len() ==> within(#[trigger] spans@[k], chars@.len()),
    ensures
        final(text)@ == old(text)@ + joined(cuts(chars@, spans@), after@),
{
    let ghost words = cuts(chars@, spans@);
    let mut k: usize = 0;
    assert(words.take(0) == Seq::<Seq<char>>::empty());
    assert(text@ == old(text)@ + joined(words.take(0), after@));
    while k < spans.len()
        invariant
            k <= spans@.len(),
            forall|j: int| 0 <= j < spans@.len() ==> within(#[trigger] spans@[j], chars@.len()),
            words == cuts(chars@, spans@),
            text@ == old(text)@ + joined(words.take(k as int), after@),
        decreases spans.len() - k,
    {
        if k > 0 {
            push_char(text, '+');
        }
        let span: (usize, usize) = spans[k];
        assert(within(spans@[k as int], chars@.len()));
        push_range(text, chars, span.0, span.1);
        text.append(after);
        k = k + 1;
        proof {
            let done = words.take(k as int);
            assert(done.drop_last() == words.take(k - 1));
            assert(done.last() == words[k - 1]);
            if k == 1 {
                assert(done[0] == words[0]);
                assert(joined(done.drop_last(), after@) == Seq::<char>::empty());
                assert(text@ == old(text)@ + joined(done, after@));
            } else {
                assert(text@ == old(text)@ + (joined(done.drop_last(), after@) + seq!['+']
                    + done.last() + after@));
            }
        }
    }
    assert(words.take(spans@.len() as int) == words);
}

/// Writes the expression for the standard deviation of the numbers in
/// `input`, which stand there as words between spaces. The words are copied
/// as they are. There has to be at least one.
pub fn prepare_to_parse(input: String) -> (expression: String)
    requires
        words_of(input@).len() >= 1,
    ensures
        expression@ == deviation_of(words_of(input@)),
{
    let chars: Vec<char> = chars_of(input.as_str());
    let spans: Vec<(usize, usize)> = word_spans(&chars);
    let count: usize = spans.len();
    let ghost words = words_of(input@);
    let mut expression: String = String::new();
    expression.append("2√(1/");
    push_decimal(&mut expression, (count - 1) as u64);
    expression.append("*(");
    push_joined(&mut expression, &chars, &spans, "^2");
    expression.append("-1/");
    push_decimal(&mut expression, count as u64);
    expression.append("*(");
    push_joined(&mut expression, &chars, &spans, "");
    expression.append(")^2))");
    proof {
        assert(""@ == Seq::<char>::empty()) by {
            reveal_strlit("");
        }
        assert(expression@ == Seq::<char>::empty() + "2√(1/"@ + decimal((words.len() - 1) as nat)
            + "*("@ + joined(words, "^2"@) + "-1/"@ + decimal(words.len()) + "*("@ + joined(
            words,
            Seq::empty(),
        ) + ")^2))"@);
        assert(Seq::<char>::empty() + "2√(1/"@ == "2√(1/"@);
    }
    expression
}

} // verus!
