//! The operator-precedence table.
use vstd::prelude::*;
use crate::operator::CLASS_COUNT;

verus! {

/// What the table says of the token on top of the stack and the next token
/// of the input.
#[derive(Debug, Clone, Copy, PartialEq, Eq, Structural)]
pub enum Relation {
    /// `<`: the next token goes onto the stack.
    Shift,
    /// `>`: the top of the stack goes to the output.
    Reduce,
    /// `=`: an opening parenthesis meets its closing one; both are dropped.
    Match,
    /// `s`: the end marker meets the bottom of the stack; the conversion is
    /// complete.
    Stop,
    /// `c`: the two tokens cannot follow each other.
    Conflict,
}

/// The table. The row is the class of the token on top of the stack, the
/// column the class of the next token of the input; `i` stands for an
/// operand and `$` for the end marker.
pub const PRECEDENCE: [[char; 12]; 12] = [
    //*    /    %    +    -    (    )    $    i    ^    √    !
    ['>', '>', '>', '>', '>', '<', '>', '>', '<', '<', '<', '<'],  // *
    ['>', '>', '>', '>', '>', '<', '>', '>', '<', '<', '<', '<'],  // /
    ['>', '>', '>', '>', '>', '<', '>', '>', '<', '<', '<', '<'],  // %
    ['<', '<', '<', '>', '>', '<', '>', '>', '<', '<', '<', '<'],  // +
    ['<', '<', '<', '>', '>', '<', '>', '>', '<', '<', '<', '<'],  // -
    ['<', '<', '<', '<', '<', '<', '=', 'c', '<', '<', '<', '<'],  // (
    ['>', '>', '>', '>', '>', 'c', '>', '>', 'c', '>', '>', '>'],  // )
    ['<', '<', '<', '<', '<', '<', 'c', 's', '<', '<', '<', '<'],  // $
    ['>', '>', '>', '>', '>', 'c', '>', '>', 'c', '>', '>', '>'],  // i
    ['>', '>', '>', '>', '>', '<', '>', '>', '<', '>', '>', '<'],  // ^
    ['>', '>', '>', '>', '>', '<', '>', '>', '<', '>', '>', '<'],  // √
    ['>', '>', '>', '>', '>', '<', '>', '>', '<', '>', '>', '>'],  // !
];

/// The relation that a cell of the table stands for.
pub open spec fn relation_of(cell: char) -> Relation {
    if cell == '<' {
        Relation::Shift
    } else if cell == '>' {
        Relation::Reduce
    } else if cell == '=' {
        Relation::Match
    } else if cell == 's' {
        Relation::Stop
    } else {
        Relation::Conflict
    }
}

/// The relation between the class on top of the stack and the class of the
/// next token. Outside the table there is only conflict.
pub open spec fn relation(top: int, next: int) -> Relation {
    if 0 <= top < 12 && 0 <= next < 12 {
        relation_of(PRECEDENCE[top][next])
    } else {
        Relation::Conflict
    }
}

/// Looks up [`relation`] in the table.
pub fn lookup(top: usize, next: usize) -> (found: Relation)
    requires
        top < CLASS_COUNT,
        next < CLASS_COUNT,
    ensures
        found == relation(top as int, next as int),
{
    let cell: char = PRECEDENCE[top][next];
    if cell == '<' {
        Relation::Shift
    } else if cell == '>' {
        Relation::Reduce
    } else if cell == '=' {
        Relation::Match
    } else if cell == 's' {
        Relation::Stop
    } else {
        Relation::Conflict
    }
}

} // verus!
