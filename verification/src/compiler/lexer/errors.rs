use vstd::prelude::*;
use crate::compiler::lexer::model::skip_gap;
use crate::models::LexicalError;
use crate::models::error::lexical_error_view;

verus! {

/// "Invalid character <c>" at the given position.
pub fn invalid_character(c: char, line: usize, column: usize) -> (e: LexicalError)
    ensures
        e@ == lexical_error_view("Invalid character "@.push(c), line as int, column as int),
{
    LexicalError::invalid_character(c, line, column)
}

/// Skips blanks, tabs and line breaks from `start`: the character found
/// there (if any), its index, the line breaks passed and the blanks after
/// the last of them.
pub fn skip_whitespace(chars: &[char], start: usize) -> (r: (Option<char>, usize, usize, usize))
    ensures
        ({
            let g = skip_gap(chars@, start as int, 0, 0);
            &&& r.1 == g.0
            &&& r.2 == g.1
            &&& r.3 == g.2
            &&& r.0 == (if g.0 < chars@.len() {
                Some(chars@[g.0])
            } else {
                None
            })
        }),
{
    if start >= chars.len() {
        return (None, start, 0, 0);
    }
    let mut i = start;
    let mut line_breaks: usize = 0;
    let mut spaces: usize = 0;
    while i < chars.len() && (chars[i] == ' ' || chars[i] == '\t' || chars[i] == '\n')
        invariant
            start <= i <= chars@.len(),
            line_breaks <= i - start,
            spaces <= i - start,
            skip_gap(chars@, i as int, line_breaks as int, spaces as int) == skip_gap(
                chars@,
                start as int,
                0,
                0,
            ),
        decreases chars@.len() - i,
    {
        if chars[i] == '\n' {
            line_breaks += 1;
            spaces = 0;
        } else {
            spaces += 1;
        }
        i += 1;
    }
    let next = if i < chars.len() {
        Some(chars[i])
    } else {
        None
    };
    (next, i, line_breaks, spaces)
}

} // verus!
