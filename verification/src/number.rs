//! Numbers as they are written.
use vstd::prelude::*;
use crate::text::{chars_of, is_digit, is_numeric, numeric, push_char};

verus! {

/// The number of decimal points in a text.
pub open spec fn point_count(text: Seq<char>) -> nat
    decreases text.len(),
{
    if text.len() == 0 {
        0
    } else {
        point_count(text.drop_last()) + if text.last() == '.' {
            1nat
        } else {
            0nat
        }
    }
}

/// Whether a text is a number: digits with at most one decimal point among
/// them, before them or after them, and at least one digit.
pub open spec fn is_number(text: Seq<char>) -> bool {
    &&& forall|i: int| 0 <= i < text.len() ==> is_digit(#[trigger] text[i]) || text[i] == '.'
    &&& point_count(text) <= 1
    &&& point_count(text) < text.len()
}

/// A text with each comma replaced by a point.
pub open spec fn normalized(text: Seq<char>) -> Seq<char> {
    Seq::new(
        text.len(),
        |i: int|
            if text[i] == ',' {
                '.'
            } else {
                text[i]
            },
    )
}

/// A number as it is written: its view is a text that [`is_number`].
#[derive(Debug, PartialEq, Eq)]
pub struct Number {
    text: Vec<char>,
}

impl View for Number {
    type V = Seq<char>;

    closed spec fn view(&self) -> Seq<char> {
        self.text@
    }
}

impl DeepView for Number {
    type V = Seq<char>;

    open spec fn deep_view(&self) -> Seq<char> {
        self@
    }
}

impl Clone for Number {
    fn clone(&self) -> (copy: Number)
        ensures
            copy@ == self@,
    {
        proof {
            use_type_invariant(self);
        }
        Number { text: self.text.clone() }
    }
}

impl Number {
    #[verifier::type_invariant]
    spec fn well_formed(self) -> bool {
        is_number(self.text@)
    }

    /// The number that a text writes, with a point or a comma as the decimal
    /// separator, if it writes one.
    pub fn new(text: &str) -> (number: Option<Number>)
        ensures
            number is Some <==> is_number(normalized(text@)),
            number matches Some(n) ==> n@ == normalized(text@),
    {
        let chars: Vec<char> = chars_of(text);
        let mut i: usize = 0;
        while i < chars.len()
            invariant
                i <= chars.len(),
                chars@ == text@,
                forall|k: int| 0 <= k < i ==> is_numeric(chars@[k]),
            decreases chars.len() - i,
        {
            if !numeric(chars[i]) {
                proof {
                    let bad = normalized(text@)[i as int];
                    assert(!(is_digit(bad) || bad == '.'));
                }
                return None;
            }
            i = i + 1;
        }
        if chars.len() == 0 {
            assert(point_count(normalized(text@)) == 0);
            return None;
        }
        let number: Option<Number> = Number::scan(&chars, 0, chars.len());
        assert(chars@.subrange(0, chars@.len() as int) == chars@);
        number
    }

    /// The number that the characters from `start` up to `end` write, if
    /// they write one.
    pub fn scan(chars: &Vec<char>, start: usize, end: usize) -> (number: Option<Number>)
        requires
            start <= end <= chars@.len(),
            forall|i: int| start <= i < end ==> is_numeric(chars@[i]),
        ensures
            number is Some <==> is_number(normalized(chars@.subrange(start as int, end as int))),
            number matches Some(n) ==> n@ == normalized(chars@.subrange(start as int, end as int)),
    {
        let ghost source = chars@.subrange(start as int, end as int);
        let mut text: Vec<char> = Vec::new();
        let mut points: usize = 0;
        let mut i: usize = start;
        while i < end
            invariant
                start <= i <= end <= chars@.len(),
                source == chars@.subrange(start as int, end as int),
                forall|k: int| start <= k < end ==> is_numeric(chars@[k]),
                text@ == normalized(source).take(i - start),
                points == point_count(text@),
                points <= i - start,
            decreases end - i,
        {
            let c: char = chars[i];
            let written: char = if c == ',' {
                '.'
            } else {
                c
            };
            text.push(written);
            if written == '.' {
                points = points + 1;
            }
            i = i + 1;
            proof {
                assert(text@ == normalized(source).take(i - start));
                assert(text@.drop_last() == normalized(source).take(i - start - 1));
            }
        }
        proof {
            assert(normalized(source).take(end - start) == normalized(source));
            assert forall|k: int| 0 <= k < text@.len() implies is_digit(#[trigger] text@[k])
                || text@[k] == '.' by {
                assert(is_numeric(chars@[start + k]));
            }
        }
        if points <= 1 && points < end - start {
            Some(Number { text })
        } else {
            None
        }
    }

    /// The number one.
    pub fn one() -> (number: Number)
        ensures
            number@ == seq!['1'],
    {
        let mut text: Vec<char> = Vec::new();
        text.push('1');
        proof {
            assert(text@ == seq!['1']);
            assert(text@.drop_last() == Seq::<char>::empty());
            assert(point_count(text@.drop_last()) == 0);
            assert(point_count(text@) == 0);
        }
        Number { text }
    }

    /// The text of the number.
    pub fn text(&self) -> (text: String)
        ensures
            text@ == self@,
            is_number(text@),
    {
        proof {
            use_type_invariant(self);
        }
        let mut text: String = String::new();
        let mut i: usize = 0;
        while i < self.text.len()
            invariant
                i <= self.text@.len(),
                text@ == self.text@.take(i as int),
            decreases self.text.len() - i,
        {
            push_char(&mut text, self.text[i]);
            i = i + 1;
            assert(self.text@.take(i as int) == self.text@.take(i - 1).push(self.text@[i - 1]));
        }
        assert(self.text@.take(self.text@.len() as int) == self.text@);
        text
    }
}

} // verus!
