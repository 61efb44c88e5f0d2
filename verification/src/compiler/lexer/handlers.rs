use vstd::prelude::*;
use crate::compiler::lexer::errors::skip_whitespace;
use crate::compiler::lexer::model::{
    arithmetic_step, block_comment_step, comment_close, double_op_step, find_from, ident_end,
    identifier_step, line_comment_step, number_scan, number_step, outcome, pos_after,
    quote_step, relational_step, room, sign_step, symbol_step, whitespace_step, lemma_skip_gap,
    lemma_number_scan,
};
use crate::compiler::lexer::tokenizer::Tokenizer;
use crate::models::{LexicalError, Token};
use crate::models::error::LexicalErrorView;
use crate::models::token::TokenView;
use crate::text::{char_is_alnum, char_is_alpha, char_is_digit, string_from_chars};

verus! {

pub open spec fn token_view(t: Option<Token>) -> Option<TokenView> {
    match t {
        Some(t) => Some(t@),
        None => None,
    }
}

pub open spec fn error_view(e: Option<LexicalError>) -> Option<LexicalErrorView> {
    match e {
        Some(e) => Some(e@),
        None => None,
    }
}

/// The token of a handler result that may also carry an error.
pub open spec fn pair_token(r: Option<(Option<Token>, Option<LexicalError>)>) -> Option<TokenView> {
    match r {
        Some((t, _)) => token_view(t),
        None => None,
    }
}

/// The error of a handler result that may also carry a token.
pub open spec fn pair_error(r: Option<(Option<Token>, Option<LexicalError>)>) -> Option<
    LexicalErrorView,
> {
    match r {
        Some((_, e)) => error_view(e),
        None => None,
    }
}

pub open spec fn comment_error(r: Option<Result<(), LexicalError>>) -> Option<LexicalErrorView> {
    match r {
        Some(Err(e)) => Some(e@),
        _ => None,
    }
}

/// The handlers of the scanner. Each one looks at the character `c` at
/// index `i` of the text; when it applies it consumes what it recognises,
/// moves `i` and the line and column counters, and returns what it found.
pub struct LexerHandlers;

impl LexerHandlers {
    /// Blanks and tabs move one column; a line break starts the next line.
    pub fn handle_whitespace(c: char, line: &mut usize, column: &mut usize, i: &mut usize) -> (r:
        bool)
        requires
            *old(line) < usize::MAX,
            *old(column) < usize::MAX,
            *old(i) < usize::MAX,
        ensures
            outcome(
                whitespace_step(c, *old(i) as int, *old(line) as int, *old(column) as int),
                r,
                None,
                None,
                (*old(i) as int, *old(line) as int, *old(column) as int),
                (*final(i) as int, *final(line) as int, *final(column) as int),
            ),
    {
        if c == ' ' || c == '\t' {
            *column += 1;
            *i += 1;
            return true;
        }
        if c == '\n' {
            *line += 1;
            *column = 1;
            *i += 1;
            return true;
        }
        false
    }

    /// `+`, or `++` when the next non-blank character is also `+`.
    pub fn handle_plus(
        c: char,
        chars: &[char],
        line: usize,
        column: usize,
        i: &mut usize,
        line_out: &mut usize,
        column_out: &mut usize,
    ) -> (r: Option<Token>)
        requires
            *old(i) <= chars@.len(),
            room(chars@.len() as int, *old(i) as int, *old(line_out) as int, *old(column_out) as int, column as int),
        ensures
            outcome(
                sign_step(chars@, c, *old(i) as int, line as int, column as int, *old(line_out) as int, '+'),
                r is Some,
                token_view(r),
                None,
                (*old(i) as int, *old(line_out) as int, *old(column_out) as int),
                (*final(i) as int, *final(line_out) as int, *final(column_out) as int),
            ),
    {
        if c != '+' {
            return None;
        }
        let (next, pos_next, breaks, spaces) = skip_whitespace(chars, *i + 1);
        proof {
            if *i + 1 <= chars@.len() {
                lemma_skip_gap(chars@, *i + 1, 0, 0);
            }
        }
        let is_pair = match next {
            Some(n) => n == '+',
            None => false,
        };
        if is_pair {
            *i = pos_next + 1;
            *line_out += breaks;
            *column_out = if breaks > 0 {
                2 + spaces
            } else {
                column + 2 + spaces
            };
            Some(Tokenizer::new_token("OP", "++", line, column))
        } else {
            *i += 1;
            *column_out = column + 1;
            Some(Tokenizer::new_token("ARIT", "+", line, column))
        }
    }

    /// `-`, or `--` when the next non-blank character is also `-`.
    pub fn handle_minus(
        c: char,
        chars: &[char],
        line: usize,
        column: usize,
        i: &mut usize,
        line_out: &mut usize,
        column_out: &mut usize,
    ) -> (r: Option<Token>)
        requires
            *old(i) <= chars@.len(),
            room(chars@.len() as int, *old(i) as int, *old(line_out) as int, *old(column_out) as int, column as int),
        ensures
            outcome(
                sign_step(chars@, c, *old(i) as int, line as int, column as int, *old(line_out) as int, '-'),
                r is Some,
                token_view(r),
                None,
                (*old(i) as int, *old(line_out) as int, *old(column_out) as int),
                (*final(i) as int, *final(line_out) as int, *final(column_out) as int),
            ),
    {
        if c != '-' {
            return None;
        }
        let (next, pos_next, breaks, spaces) = skip_whitespace(chars, *i + 1);
        proof {
            if *i + 1 <= chars@.len() {
                lemma_skip_gap(chars@, *i + 1, 0, 0);
            }
        }
        let is_pair = match next {
            Some(n) => n == '-',
            None => false,
        };
        if is_pair {
            *i = pos_next + 1;
            *line_out += breaks;
            *column_out = if breaks > 0 {
                2 + spaces
            } else {
                column + 2 + spaces
            };
            Some(Tokenizer::new_token("OP", "--", line, column))
        } else {
            *i += 1;
            *column_out = column + 1;
            Some(Tokenizer::new_token("ARIT", "-", line, column))
        }
    }

    /// `//` comments, up to the end of the line.
    pub fn handle_line_comment(chars: &[char], c: char, i: &mut usize, column: &mut usize) -> (r:
        bool)
        requires
            *old(i) <= chars@.len(),
            chars@.len() + 3 <= usize::MAX,
            *old(column) + (chars@.len() - *old(i)) + 2 <= usize::MAX,
        ensures
            outcome(
                line_comment_step(chars@, c, *old(i) as int, 0, *old(column) as int),
                r,
                None,
                None,
                (*old(i) as int, 0, *old(column) as int),
                (*final(i) as int, 0, *final(column) as int),
            ),
    {
        if c != '/' || *i + 1 >= chars.len() || chars[*i + 1] != '/' {
            return false;
        }
        let ghost i0 = *i;
        let ghost c0 = *column;
        *i += 2;
        *column += 2;
        while *i < chars.len() && chars[*i] != '\n'
            invariant
                i0 + 2 <= *i <= chars@.len(),
                *column == c0 + 2 + (*i - (i0 + 2)),
                c0 + (chars@.len() - i0) + 2 <= usize::MAX,
                find_from(chars@, *i as int, '\n') == find_from(chars@, i0 + 2, '\n'),
            decreases chars@.len() - *i,
        {
            *i += 1;
            *column += 1;
        }
        true
    }

    /// `/* ... */` comments; an unclosed one is reported at its start.
    pub fn handle_block_comment_start(
        c: char,
        chars: &[char],
        line: usize,
        column: usize,
        i: &mut usize,
        line_out: &mut usize,
        column_out: &mut usize,
    ) -> (r: Option<Result<(), LexicalError>>)
        requires
            *old(i) <= chars@.len(),
            room(chars@.len() as int, *old(i) as int, *old(line_out) as int, *old(column_out) as int, column as int),
        ensures
            outcome(
                block_comment_step(
                    chars@,
                    c,
                    *old(i) as int,
                    line as int,
                    column as int,
                    *old(line_out) as int,
                    *old(column_out) as int,
                    false,
                ),
                r is Some,
                None,
                comment_error(r),
                (*old(i) as int, *old(line_out) as int, *old(column_out) as int),
                (*final(i) as int, *final(line_out) as int, *final(column_out) as int),
            ),
    {
        Self::scan_block_comment(c, chars, line, column, i, line_out, column_out, false)
    }

    /// A block comment; on an unclosed one the first scanner (`legacy`)
    /// stops at the last character, the second one past it.
    pub(crate) fn scan_block_comment(
        c: char,
        chars: &[char],
        line: usize,
        column: usize,
        i: &mut usize,
        line_out: &mut usize,
        column_out: &mut usize,
        legacy: bool,
    ) -> (r: Option<Result<(), LexicalError>>)
        requires
            *old(i) <= chars@.len(),
            room(chars@.len() as int, *old(i) as int, *old(line_out) as int, *old(column_out) as int, column as int),
        ensures
            outcome(
                block_comment_step(
                    chars@,
                    c,
                    *old(i) as int,
                    line as int,
                    column as int,
                    *old(line_out) as int,
                    *old(column_out) as int,
                    legacy,
                ),
                r is Some,
                None,
                comment_error(r),
                (*old(i) as int, *old(line_out) as int, *old(column_out) as int),
                (*final(i) as int, *final(line_out) as int, *final(column_out) as int),
            ),
    {
        if c != '/' || *i + 1 >= chars.len() || chars[*i + 1] != '*' {
            return None;
        }
        let ghost i0 = *i as int;
        let ghost l0 = *line_out as int;
        let ghost c0 = *column_out as int;
        let start_line = line;
        let start_col = column;
        *i += 2;
        *column_out += 2;
        while *i + 1 < chars.len() && !(chars[*i] == '*' && chars[*i + 1] == '/')
            invariant
                i0 + 2 <= *i <= chars@.len(),
                chars@.len() + 3 <= usize::MAX,
                l0 + (chars@.len() - i0) <= usize::MAX,
                c0 + (chars@.len() - i0) + 2 <= usize::MAX,
                *line_out <= l0 + (*i - (i0 + 2)),
                *column_out <= c0 + 2 + (*i - (i0 + 2)),
                comment_close(chars@, *i as int) == comment_close(chars@, i0 + 2),
                (*line_out as int, *column_out as int) == pos_after(
                    chars@,
                    i0 + 2,
                    *i as int,
                    l0,
                    c0 + 2,
                ),
            decreases chars@.len() - *i,
        {
            if chars[*i] == '\n' {
                *line_out += 1;
                *column_out = 1;
            } else {
                *column_out += 1;
            }
            *i += 1;
        }
        if *i + 1 >= chars.len() {
            if !legacy {
                *i += 1;
            }
            return Some(Err(LexicalError::unclosed_block_comment(start_line, start_col)));
        }
        *i += 2;
        *column_out += 2;
        Some(Ok(()))
    }

    /// Scans a literal delimited by `q` from the opening `q` at `i`.
    fn scan_quoted(
        q: char,
        chars: &[char],
        line: usize,
        column: usize,
        i: &mut usize,
        line_out: &mut usize,
        column_out: &mut usize,
    ) -> (r: (Option<Token>, Option<LexicalError>))
        requires
            *old(i) <= chars@.len(),
            q == '"' || q == '\'',
            room(chars@.len() as int, *old(i) as int, *old(line_out) as int, *old(column_out) as int, column as int),
        ensures
            outcome(
                quote_step(
                    chars@,
                    q,
                    *old(i) as int,
                    line as int,
                    column as int,
                    *old(line_out) as int,
                    *old(column_out) as int,
                    q,
                ),
                true,
                token_view(r.0),
                error_view(r.1),
                (*old(i) as int, *old(line_out) as int, *old(column_out) as int),
                (*final(i) as int, *final(line_out) as int, *final(column_out) as int),
            ),
    {
        let ghost i0 = *i as int;
        let ghost l0 = *line_out as int;
        let ghost c0 = *column_out as int;
        let start_col = column;
        let start = *i;
        let start_line = line;
        *i += 1;
        *column_out += 1;
        while *i < chars.len() && chars[*i] != q
            invariant
                i0 + 1 <= *i <= chars@.len() + 1,
                i0 < chars@.len() ==> *i <= chars@.len(),
                start == i0,
                chars@.len() + 3 <= usize::MAX,
                l0 + (chars@.len() - i0) <= usize::MAX,
                c0 + (chars@.len() - i0) + 2 <= usize::MAX,
                *line_out <= l0 + (*i - (i0 + 1)),
                *column_out <= c0 + 1 + (*i - (i0 + 1)),
                find_from(chars@, *i as int, q) == find_from(chars@, i0 + 1, q),
                (*line_out as int, *column_out as int) == pos_after(
                    chars@,
                    i0 + 1,
                    *i as int,
                    l0,
                    c0 + 1,
                ),
            decreases chars@.len() - *i,
        {
            if chars[*i] == '\n' {
                *line_out += 1;
                *column_out = 1;
            } else {
                *column_out += 1;
            }
            *i += 1;
        }
        if *i >= chars.len() {
            *i += 1;
            let content = string_from_chars(chars, start, chars.len());
            let error = if q == '"' {
                LexicalError::unclosed_string(content.as_str(), start_line, start_col)
            } else {
                LexicalError::unclosed_char(content.as_str(), start_line, start_col)
            };
            return (None, Some(error));
        }
        *i += 1;
        *column_out += 1;
        let lexeme = string_from_chars(chars, start, *i);
        let token_type = if q == '"' {
            "STRING"
        } else {
            "CHAR"
        };
        (Some(Tokenizer::new_token(token_type, lexeme.as_str(), start_line, start_col)), None)
    }

    /// String literals, quotes included; an unclosed one is reported with
    /// the rest of the text.
    pub fn handle_string(
        c: char,
        chars: &[char],
        line: usize,
        column: usize,
        i: &mut usize,
        line_out: &mut usize,
        column_out: &mut usize,
    ) -> (r: Option<(Option<Token>, Option<LexicalError>)>)
        requires
            *old(i) <= chars@.len(),
            room(chars@.len() as int, *old(i) as int, *old(line_out) as int, *old(column_out) as int, column as int),
        ensures
            outcome(
                quote_step(
                    chars@,
                    c,
                    *old(i) as int,
                    line as int,
                    column as int,
                    *old(line_out) as int,
                    *old(column_out) as int,
                    '"',
                ),
                r is Some,
                pair_token(r),
                pair_error(r),
                (*old(i) as int, *old(line_out) as int, *old(column_out) as int),
                (*final(i) as int, *final(line_out) as int, *final(column_out) as int),
            ),
    {
        if c != '"' {
            return None;
        }
        Some(Self::scan_quoted('"', chars, line, column, i, line_out, column_out))
    }

    /// Character literals, quotes included; an unclosed one is reported with
    /// the rest of the text.
    pub fn handle_char(
        c: char,
        chars: &[char],
        line: usize,
        column: usize,
        i: &mut usize,
        line_out: &mut usize,
        column_out: &mut usize,
    ) -> (r: Option<(Option<Token>, Option<LexicalError>)>)
        requires
            *old(i) <= chars@.len(),
            room(chars@.len() as int, *old(i) as int, *old(line_out) as int, *old(column_out) as int, column as int),
        ensures
            outcome(
                quote_step(
                    chars@,
                    c,
                    *old(i) as int,
                    line as int,
                    column as int,
                    *old(line_out) as int,
                    *old(column_out) as int,
                    '\'',
                ),
                r is Some,
                pair_token(r),
                pair_error(r),
                (*old(i) as int, *old(line_out) as int, *old(column_out) as int),
                (*final(i) as int, *final(line_out) as int, *final(column_out) as int),
            ),
    {
        if c != '\'' {
            return None;
        }
        Some(Self::scan_quoted('\'', chars, line, column, i, line_out, column_out))
    }

    /// Integer and decimal numbers; a `.` that no digit follows makes the
    /// number malformed.
    pub fn handle_number(
        c: char,
        chars: &[char],
        line: usize,
        column: usize,
        i: &mut usize,
        column_out: &mut usize,
    ) -> (r: Option<(Option<Token>, Option<LexicalError>)>)
        requires
            *old(i) <= chars@.len(),
            room(chars@.len() as int, *old(i) as int, line as int, *old(column_out) as int, column as int),
        ensures
            outcome(
                number_step(chars@, c, *old(i) as int, line as int, column as int, *old(column_out) as int),
                r is Some,
                pair_token(r),
                pair_error(r),
                (*old(i) as int, line as int, *old(column_out) as int),
                (*final(i) as int, line as int, *final(column_out) as int),
            ),
    {
        if !char_is_digit(c) {
            return None;
        }
        let ghost i0 = *i as int;
        let ghost c0 = *column_out as int;
        let start = *i;
        let start_col = column;
        let start_line = line;
        let mut has_dot = false;
        while *i < chars.len() && (char_is_digit(chars[*i]) || (chars[*i] == '.' && !has_dot && *i
            + 1 < chars.len() && char_is_digit(chars[*i + 1])))
            invariant
                i0 <= *i <= chars@.len(),
                start == i0,
                chars@.len() + 3 <= usize::MAX,
                c0 + (chars@.len() - i0) + 2 <= usize::MAX,
                *column_out == c0 + (*i - i0),
                number_scan(chars@, *i as int, has_dot) == number_scan(chars@, i0, false),
            decreases chars@.len() - *i,
        {
            if char_is_digit(chars[*i]) {
                *i += 1;
                *column_out += 1;
            } else {
                has_dot = true;
                *i += 1;
                *column_out += 1;
            }
        }
        proof {
            lemma_number_scan(chars@, *i as int, has_dot);
        }
        let dot_error = *i < chars.len() && chars[*i] == '.' && !has_dot;
        if dot_error {
            let dot_error_col = *column_out;
            let lexeme_error = string_from_chars(chars, start, *i + 1);
            *i += 1;
            *column_out += 1;
            return Some(
                (
                    None,
                    Some(
                        LexicalError::malformed_number(
                            lexeme_error.as_str(),
                            start_line,
                            dot_error_col,
                        ),
                    ),
                ),
            );
        }
        let lexeme = string_from_chars(chars, start, *i);
        let token_type = if has_dot {
            "FLOAT"
        } else {
            "INT"
        };
        Some((Some(Tokenizer::new_token(token_type, lexeme.as_str(), start_line, start_col)), None))
    }

    /// Keywords and identifiers.
    pub fn handle_identifier(
        c: char,
        chars: &[char],
        line: usize,
        column: usize,
        i: &mut usize,
        column_out: &mut usize,
    ) -> (r: Option<Token>)
        requires
            *old(i) <= chars@.len(),
            room(chars@.len() as int, *old(i) as int, line as int, *old(column_out) as int, column as int),
        ensures
            outcome(
                identifier_step(chars@, c, *old(i) as int, line as int, column as int, *old(column_out) as int, false),
                r is Some,
                token_view(r),
                None,
                (*old(i) as int, line as int, *old(column_out) as int),
                (*final(i) as int, line as int, *final(column_out) as int),
            ),
    {
        Self::scan_word(c, chars, line, column, i, column_out, false)
    }

    /// A word, typed by the keyword table of the first scanner (`legacy`)
    /// or of the second one.
    pub(crate) fn scan_word(
        c: char,
        chars: &[char],
        line: usize,
        column: usize,
        i: &mut usize,
        column_out: &mut usize,
        legacy: bool,
    ) -> (r: Option<Token>)
        requires
            *old(i) <= chars@.len(),
            room(chars@.len() as int, *old(i) as int, line as int, *old(column_out) as int, column as int),
        ensures
            outcome(
                identifier_step(chars@, c, *old(i) as int, line as int, column as int, *old(column_out) as int, legacy),
                r is Some,
                token_view(r),
                None,
                (*old(i) as int, line as int, *old(column_out) as int),
                (*final(i) as int, line as int, *final(column_out) as int),
            ),
    {
        if !char_is_alpha(c) && c != '_' {
            return None;
        }
        let ghost i0 = *i as int;
        let ghost c0 = *column_out as int;
        let start = *i;
        let start_col = column;
        while *i < chars.len() && (char_is_alnum(chars[*i]) || chars[*i] == '_')
            invariant
                i0 <= *i <= chars@.len(),
                start == i0,
                chars@.len() + 3 <= usize::MAX,
                c0 + (chars@.len() - i0) + 2 <= usize::MAX,
                *column_out == c0 + (*i - i0),
                ident_end(chars@, *i as int) == ident_end(chars@, i0),
            decreases chars@.len() - *i,
        {
            *i += 1;
            *column_out += 1;
        }
        let lexeme = string_from_chars(chars, start, *i);
        let token_type = if legacy {
            Tokenizer::base_keyword_token_type(lexeme.as_str())
        } else {
            Tokenizer::keyword_token_type(lexeme.as_str())
        };
        Some(Tokenizer::new_token(token_type, lexeme.as_str(), line, start_col))
    }

    /// `&&` and `||`.
    pub fn handle_double_operator(
        chars: &[char],
        line: usize,
        column: usize,
        i: &mut usize,
        column_out: &mut usize,
    ) -> (r: Option<Token>)
        requires
            *old(i) + 2 <= usize::MAX,
            *old(column_out) + 2 <= usize::MAX,
        ensures
            outcome(
                double_op_step(chars@, *old(i) as int, line as int, column as int, *old(column_out) as int, false),
                r is Some,
                token_view(r),
                None,
                (*old(i) as int, line as int, *old(column_out) as int),
                (*final(i) as int, line as int, *final(column_out) as int),
            ),
    {
        if let Some(pair) = Tokenizer::is_double_operator(chars, *i) {
            *i += 2;
            *column_out += 2;
            Some(Tokenizer::new_token("OP", pair.as_str(), line, column))
        } else {
            None
        }
    }

    /// The two-character operators of the first scanner: `==`, `!=`,
    /// `<=`, `>=`, `&&` and `||`.
    pub(crate) fn scan_legacy_double_operator(
        chars: &[char],
        line: usize,
        column: usize,
        i: &mut usize,
        column_out: &mut usize,
    ) -> (r: Option<Token>)
        requires
            *old(i) + 2 <= usize::MAX,
            *old(column_out) + 2 <= usize::MAX,
        ensures
            outcome(
                double_op_step(chars@, *old(i) as int, line as int, column as int, *old(column_out) as int, true),
                r is Some,
                token_view(r),
                None,
                (*old(i) as int, line as int, *old(column_out) as int),
                (*final(i) as int, line as int, *final(column_out) as int),
            ),
    {
        if *i >= chars.len() || *i + 1 >= chars.len() {
            return None;
        }
        let a = chars[*i];
        let b = chars[*i + 1];
        if (a == '&' && b == '&') || (a == '|' && b == '|') || (b == '=' && (a == '=' || a == '!'
            || a == '<' || a == '>')) {
            let pair = string_from_chars(chars, *i, *i + 2);
            *i += 2;
            *column_out += 2;
            Some(Tokenizer::new_token("OP", pair.as_str(), line, column))
        } else {
            None
        }
    }

    /// `*`, `/`, `%` and `^`.
    pub fn handle_arithmetic(c: char, line: usize, column: usize, i: &mut usize, column_out: &mut usize) -> (r: Option<Token>)
        requires
            *old(i) + 1 <= usize::MAX,
            *old(column_out) + 1 <= usize::MAX,
        ensures
            outcome(
                arithmetic_step(c, *old(i) as int, line as int, column as int, *old(column_out) as int),
                r is Some,
                token_view(r),
                None,
                (*old(i) as int, line as int, *old(column_out) as int),
                (*final(i) as int, line as int, *final(column_out) as int),
            ),
    {
        if !Tokenizer::is_arithmetic(c) {
            return None;
        }
        *i += 1;
        *column_out += 1;
        let lexeme = one_char(c);
        Some(Tokenizer::new_token("ARIT", lexeme.as_str(), line, column))
    }

    /// `=`, `<`, `>` and `!`, each optionally followed by `=`; a lone `=`
    /// is an assignment.
    pub fn handle_relational(
        c: char,
        chars: &[char],
        line: usize,
        column: usize,
        i: &mut usize,
        column_out: &mut usize,
    ) -> (r: Option<Token>)
        requires
            *old(i) <= chars@.len(),
            chars@.len() + 3 <= usize::MAX,
            *old(column_out) + 2 <= usize::MAX,
        ensures
            outcome(
                relational_step(chars@, c, *old(i) as int, line as int, column as int, *old(column_out) as int),
                r is Some,
                token_view(r),
                None,
                (*old(i) as int, line as int, *old(column_out) as int),
                (*final(i) as int, line as int, *final(column_out) as int),
            ),
    {
        if !Tokenizer::is_relational(c) {
            return None;
        }
        if *i + 1 < chars.len() && chars[*i + 1] == '=' {
            let pair = string_from_chars(chars, *i, *i + 2);
            *i += 2;
            *column_out += 2;
            return Some(Tokenizer::new_token("REL", pair.as_str(), line, column));
        }
        let token_type = if c == '=' {
            "ASIG"
        } else {
            "REL"
        };
        *i += 1;
        *column_out += 1;
        let lexeme = one_char(c);
        Some(Tokenizer::new_token(token_type, lexeme.as_str(), line, column))
    }

    /// `(`, `)`, `{`, `}`, `;` and `,`.
    pub fn handle_symbol(c: char, line: usize, column: usize, i: &mut usize, column_out: &mut usize) -> (r: Option<Token>)
        requires
            *old(i) + 1 <= usize::MAX,
            *old(column_out) + 1 <= usize::MAX,
        ensures
            outcome(
                symbol_step(c, *old(i) as int, line as int, column as int, *old(column_out) as int),
                r is Some,
                token_view(r),
                None,
                (*old(i) as int, line as int, *old(column_out) as int),
                (*final(i) as int, line as int, *final(column_out) as int),
            ),
    {
        if !Tokenizer::is_symbol(c) {
            return None;
        }
        *i += 1;
        *column_out += 1;
        let lexeme = one_char(c);
        Some(Tokenizer::new_token("SYM", lexeme.as_str(), line, column))
    }
}

/// The one-character string `c`.
pub(crate) fn one_char(c: char) -> (s: String)
    ensures
        s@ == seq![c],
{
    let mut s = String::new();
    crate::text::push_char(&mut s, c);
    assert(s@ =~= seq![c]);
    s
}

} // verus!
