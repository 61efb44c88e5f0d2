//! What the scanner does, stated over the characters of the source text.
//!
//! Each `*_step` function says what one handler does at index `i`: `None`
//! when the handler does not apply there, otherwise where scanning resumes,
//! the line and column counters afterwards, and the token or error produced.
//! [`lex_step`] tries them in the scanner's order and [`lex`] folds the steps
//! over the whole text.
use vstd::prelude::*;
use crate::models::error::{LexicalErrorView, lexical_error_view, quoted_message};
use crate::models::token::TokenView;
use crate::text::{is_alnum, is_alpha, is_digit, is_white};

verus! {

/// The outcome of one scanner step.
pub struct LexStep {
    pub next: int,
    pub line: int,
    pub column: int,
    pub token: Option<TokenView>,
    pub error: Option<LexicalErrorView>,
}

pub open spec fn step(
    next: int,
    line: int,
    column: int,
    token: Option<TokenView>,
    error: Option<LexicalErrorView>,
) -> LexStep {
    LexStep { next, line, column, token, error }
}

pub open spec fn tok(token_type: Seq<char>, lexeme: Seq<char>, line: int, column: int) -> TokenView {
    TokenView { token_type, lexeme, line, column }
}

pub open spec fn is_ident_start(c: char) -> bool {
    is_alpha(c) || c == '_'
}

pub open spec fn is_ident_char(c: char) -> bool {
    is_alnum(c) || c == '_'
}

pub open spec fn is_arithmetic(c: char) -> bool {
    c == '*' || c == '/' || c == '%' || c == '^'
}

pub open spec fn is_relational(c: char) -> bool {
    c == '=' || c == '<' || c == '>' || c == '!'
}

pub open spec fn is_symbol(c: char) -> bool {
    c == '(' || c == ')' || c == '{' || c == '}' || c == ';' || c == ',' || c == ' '
}

/// The blanks skipped when looking for the second `+` of `++`.
pub open spec fn is_gap(c: char) -> bool {
    c == ' ' || c == '\t' || c == '\n'
}

/// The token type of a word: its keyword tag, or `ID`.
pub open spec fn base_keyword_type(s: Seq<char>) -> Seq<char> {
    if s == "if"@ {
        "IF"@
    } else if s == "else"@ {
        "ELSE"@
    } else if s == "end"@ {
        "END"@
    } else if s == "do"@ {
        "DO"@
    } else if s == "while"@ {
        "WHILE"@
    } else if s == "for"@ {
        "FOR"@
    } else if s == "switch"@ {
        "SWITCH"@
    } else if s == "case"@ {
        "CASE"@
    } else if s == "return"@ {
        "RETURN"@
    } else if s == "void"@ {
        "VOID"@
    } else if s == "int"@ {
        "INT_T"@
    } else if s == "float"@ {
        "FLOAT_T"@
    } else if s == "char"@ {
        "CHAR_T"@
    } else if s == "bool"@ {
        "BOOL_T"@
    } else if s == "true"@ {
        "TRUE"@
    } else if s == "false"@ {
        "FALSE"@
    } else if s == "main"@ {
        "MAIN"@
    } else if s == "cin"@ {
        "CIN"@
    } else if s == "cout"@ {
        "COUT"@
    } else if s == "include"@ {
        "INCLUDE"@
    } else if s == "define"@ {
        "DEFINE"@
    } else if s == "struct"@ {
        "STRUCT"@
    } else if s == "break"@ {
        "BREAK"@
    } else if s == "continue"@ {
        "CONTINUE"@
    } else {
        "ID"@
    }
}

/// The keyword table of the scanner, where `real` is a second spelling of
/// `float` and `until` closes a `do` loop.
pub open spec fn keyword_type(s: Seq<char>) -> Seq<char> {
    if s == "real"@ {
        "FLOAT_T"@
    } else if s == "until"@ {
        "UNTIL"@
    } else {
        base_keyword_type(s)
    }
}

/// The keyword table of the first scanner, [`crate::compiler::lexer::analizar`].
pub open spec fn word_type(s: Seq<char>, legacy: bool) -> Seq<char> {
    if legacy {
        base_keyword_type(s)
    } else {
        keyword_type(s)
    }
}

/// End of the run of identifier characters that starts at `j`.
pub open spec fn ident_end(s: Seq<char>, j: int) -> int
    decreases s.len() - j,
{
    if 0 <= j < s.len() && is_ident_char(s[j]) {
        ident_end(s, j + 1)
    } else {
        j
    }
}

/// The first index at or after `j` that holds `c`, or the length of `s`.
pub open spec fn find_from(s: Seq<char>, j: int, c: char) -> int
    decreases s.len() - j,
{
    if 0 <= j < s.len() && s[j] != c {
        find_from(s, j + 1, c)
    } else {
        j
    }
}

/// Where a block comment's body that starts at `j` stops: at its closing
/// `*/`, or at the last character of the text.
pub open spec fn comment_close(s: Seq<char>, j: int) -> int
    decreases s.len() - j,
{
    if 0 <= j && j + 1 < s.len() && !(s[j] == '*' && s[j + 1] == '/') {
        comment_close(s, j + 1)
    } else {
        j
    }
}

/// The line and column after one character.
pub open spec fn advance_pos(c: char, line: int, column: int) -> (int, int) {
    if c == '\n' {
        (line + 1, 1)
    } else {
        (line, column + 1)
    }
}

/// The line and column after the characters `s[from..to]`.
pub open spec fn pos_after(s: Seq<char>, from: int, to: int, line: int, column: int) -> (int, int)
    decreases to - from,
{
    if to <= from {
        (line, column)
    } else {
        let p = pos_after(s, from, to - 1, line, column);
        advance_pos(s[to - 1], p.0, p.1)
    }
}

/// Skips blanks from `j`: the index reached, the line breaks passed and the
/// blanks after the last of them.
pub open spec fn skip_gap(s: Seq<char>, j: int, breaks: int, spaces: int) -> (int, int, int)
    decreases s.len() - j,
{
    if 0 <= j < s.len() && is_gap(s[j]) {
        if s[j] == '\n' {
            skip_gap(s, j + 1, breaks + 1, 0)
        } else {
            skip_gap(s, j + 1, breaks, spaces + 1)
        }
    } else {
        (j, breaks, spaces)
    }
}

/// Scans a number from `j`: where it ends, whether it has a fraction, and
/// whether it stopped at a `.` that no digit follows.
pub open spec fn number_scan(s: Seq<char>, j: int, has_dot: bool) -> (int, bool, bool)
    decreases s.len() - j,
{
    if 0 <= j < s.len() {
        if is_digit(s[j]) {
            number_scan(s, j + 1, has_dot)
        } else if s[j] == '.' && !has_dot {
            if j + 1 < s.len() && is_digit(s[j + 1]) {
                number_scan(s, j + 1, true)
            } else {
                (j, has_dot, true)
            }
        } else {
            (j, has_dot, false)
        }
    } else {
        (j, has_dot, false)
    }
}

/// Blanks and line breaks.
pub open spec fn whitespace_step(c: char, i: int, line: int, column: int) -> Option<LexStep> {
    if c == ' ' || c == '\t' {
        Some(step(i + 1, line, column + 1, None, None))
    } else if c == '\n' {
        Some(step(i + 1, line + 1, 1, None, None))
    } else {
        None
    }
}

/// `+` or `-` (`sign`), and `++` or `--` when the next non-blank character
/// is the same sign.
pub open spec fn sign_step(
    s: Seq<char>,
    c: char,
    i: int,
    line: int,
    column: int,
    line_out: int,
    sign: char,
) -> Option<LexStep> {
    if c != sign {
        None
    } else {
        let g = skip_gap(s, i + 1, 0, 0);
        if g.0 < s.len() && s[g.0] == sign {
            let col = if g.1 > 0 {
                2 + g.2
            } else {
                column + 2 + g.2
            };
            let lexeme = if sign == '+' {
                "++"@
            } else {
                "--"@
            };
            Some(step(g.0 + 1, line_out + g.1, col, Some(tok("OP"@, lexeme, line, column)), None))
        } else {
            let lexeme = if sign == '+' {
                "+"@
            } else {
                "-"@
            };
            Some(step(i + 1, line_out, column + 1, Some(tok("ARIT"@, lexeme, line, column)), None))
        }
    }
}

/// `//` up to (not including) the end of the line.
pub open spec fn line_comment_step(s: Seq<char>, c: char, i: int, line: int, column_out: int) -> Option<
    LexStep,
> {
    if c == '/' && i + 1 < s.len() && s[i + 1] == '/' {
        let e = find_from(s, i + 2, '\n');
        Some(step(e, line, column_out + 2 + (e - (i + 2)), None, None))
    } else {
        None
    }
}

/// `/* ... */`; an unclosed one is reported at its start. The first scanner
/// (`legacy`) resumes at the last character, the second one after it.
pub open spec fn block_comment_step(
    s: Seq<char>,
    c: char,
    i: int,
    line: int,
    column: int,
    line_out: int,
    column_out: int,
    legacy: bool,
) -> Option<LexStep> {
    if c == '/' && i + 1 < s.len() && s[i + 1] == '*' {
        let e = comment_close(s, i + 2);
        let p = pos_after(s, i + 2, e, line_out, column_out + 2);
        if e + 1 >= s.len() {
            let next = if legacy {
                e
            } else {
                e + 1
            };
            Some(
                step(
                    next,
                    p.0,
                    p.1,
                    None,
                    Some(lexical_error_view("Unclosed block comment"@, line, column)),
                ),
            )
        } else {
            Some(step(e + 2, p.0, p.1 + 2, None, None))
        }
    } else {
        None
    }
}

pub open spec fn quote_type(q: char) -> Seq<char> {
    if q == '"' {
        "STRING"@
    } else {
        "CHAR"@
    }
}

pub open spec fn unclosed_prefix(q: char) -> Seq<char> {
    if q == '"' {
        "Unclosed string: '"@
    } else {
        "Unclosed char: '"@
    }
}

/// A string (`q` is `"`) or character (`q` is `'`) literal, quotes
/// included; an unclosed one is reported with the rest of the text.
pub open spec fn quote_step(
    s: Seq<char>,
    c: char,
    i: int,
    line: int,
    column: int,
    line_out: int,
    column_out: int,
    q: char,
) -> Option<LexStep> {
    if c != q {
        None
    } else {
        let e = find_from(s, i + 1, q);
        let p = pos_after(s, i + 1, e, line_out, column_out + 1);
        if e >= s.len() {
            Some(
                step(
                    e + 1,
                    p.0,
                    p.1,
                    None,
                    Some(
                        lexical_error_view(
                            quoted_message(unclosed_prefix(q), s.subrange(i, s.len() as int)),
                            line,
                            column,
                        ),
                    ),
                ),
            )
        } else {
            Some(step(e + 1, p.0, p.1 + 1, Some(tok(quote_type(q), s.subrange(i, e + 1), line, column)), None))
        }
    }
}

/// Digits with at most one fraction; a `.` that no digit follows makes the
/// number malformed, reported at the `.`.
pub open spec fn number_step(s: Seq<char>, c: char, i: int, line: int, column: int, column_out: int) -> Option<
    LexStep,
> {
    if !is_digit(c) {
        None
    } else {
        let n = number_scan(s, i, false);
        let e = n.0;
        if n.2 {
            Some(
                step(
                    e + 1,
                    line,
                    column_out + (e - i) + 1,
                    None,
                    Some(
                        lexical_error_view(
                            quoted_message("Malformed number: '"@, s.subrange(i, e + 1)),
                            line,
                            column_out + (e - i),
                        ),
                    ),
                ),
            )
        } else {
            let ty = if n.1 {
                "FLOAT"@
            } else {
                "INT"@
            };
            Some(step(e, line, column_out + (e - i), Some(tok(ty, s.subrange(i, e), line, column)), None))
        }
    }
}

/// A word: a keyword or an identifier.
pub open spec fn identifier_step(
    s: Seq<char>,
    c: char,
    i: int,
    line: int,
    column: int,
    column_out: int,
    legacy: bool,
) -> Option<LexStep> {
    if !is_ident_start(c) {
        None
    } else {
        let e = ident_end(s, i);
        let lexeme = s.subrange(i, e);
        Some(step(e, line, column_out + (e - i), Some(tok(word_type(lexeme, legacy), lexeme, line, column)), None))
    }
}

/// The two-character operators: `&&` and `||`, and for the first scanner
/// also `==`, `!=`, `<=` and `>=`.
pub open spec fn is_double_pair(a: char, b: char, legacy: bool) -> bool {
    ||| (a == '&' && b == '&')
    ||| (a == '|' && b == '|')
    ||| (legacy && b == '=' && (a == '=' || a == '!' || a == '<' || a == '>'))
}

pub open spec fn double_op_step(
    s: Seq<char>,
    i: int,
    line: int,
    column: int,
    column_out: int,
    legacy: bool,
) -> Option<LexStep> {
    if 0 <= i && i + 1 < s.len() && is_double_pair(s[i], s[i + 1], legacy) {
        Some(step(i + 2, line, column_out + 2, Some(tok("OP"@, s.subrange(i, i + 2), line, column)), None))
    } else {
        None
    }
}

pub open spec fn arithmetic_step(c: char, i: int, line: int, column: int, column_out: int) -> Option<
    LexStep,
> {
    if is_arithmetic(c) {
        Some(step(i + 1, line, column_out + 1, Some(tok("ARIT"@, seq![c], line, column)), None))
    } else {
        None
    }
}

/// `=`, `<`, `>`, `!`, each optionally followed by `=`; a lone `=` is an
/// assignment.
pub open spec fn relational_step(
    s: Seq<char>,
    c: char,
    i: int,
    line: int,
    column: int,
    column_out: int,
) -> Option<LexStep> {
    if !is_relational(c) {
        None
    } else if i + 1 < s.len() && s[i + 1] == '=' {
        Some(step(i + 2, line, column_out + 2, Some(tok("REL"@, s.subrange(i, i + 2), line, column)), None))
    } else {
        let ty = if c == '=' {
            "ASIG"@
        } else {
            "REL"@
        };
        Some(step(i + 1, line, column_out + 1, Some(tok(ty, seq![c], line, column)), None))
    }
}

pub open spec fn symbol_step(c: char, i: int, line: int, column: int, column_out: int) -> Option<
    LexStep,
> {
    if is_symbol(c) {
        Some(step(i + 1, line, column_out + 1, Some(tok("SYM"@, seq![c], line, column)), None))
    } else {
        None
    }
}

/// Any other character is reported and skipped.
pub open spec fn invalid_step(c: char, i: int, line: int, column: int) -> LexStep {
    step(
        i + 1,
        line,
        column + 1,
        None,
        Some(lexical_error_view("Invalid character "@.push(c), line, column)),
    )
}

pub open spec fn or_else(a: Option<LexStep>, b: LexStep) -> LexStep {
    match a {
        Some(x) => x,
        None => b,
    }
}

/// One step of the scanner at index `i` (which must be inside the text).
pub open spec fn lex_step(s: Seq<char>, i: int, line: int, column: int, legacy: bool) -> LexStep {
    let c = s[i];
    or_else(whitespace_step(c, i, line, column),
    or_else(sign_step(s, c, i, line, column, line, '+'),
    or_else(sign_step(s, c, i, line, column, line, '-'),
    or_else(line_comment_step(s, c, i, line, column),
    or_else(block_comment_step(s, c, i, line, column, line, column, legacy),
    or_else(quote_step(s, c, i, line, column, line, column, '"'),
    or_else(quote_step(s, c, i, line, column, line, column, '\''),
    or_else(number_step(s, c, i, line, column, column),
    or_else(identifier_step(s, c, i, line, column, column, legacy),
    or_else(double_op_step(s, i, line, column, column, legacy),
    or_else(arithmetic_step(c, i, line, column, column),
    or_else(relational_step(s, c, i, line, column, column),
    or_else(symbol_step(c, i, line, column, column),
    invalid_step(c, i, line, column))))))))))))))
}

pub open spec fn opt_seq<T>(o: Option<T>) -> Seq<T> {
    match o {
        Some(x) => seq![x],
        None => Seq::empty(),
    }
}

/// Tokens and errors of the text from index `i` on, with the counters at
/// `line` and `column`.
pub open spec fn lex_from(s: Seq<char>, i: int, line: int, column: int, legacy: bool) -> (
    Seq<TokenView>,
    Seq<LexicalErrorView>,
)
    decreases s.len() - i,
{
    if i < 0 || i >= s.len() {
        (Seq::empty(), Seq::empty())
    } else {
        let st = lex_step(s, i, line, column, legacy);
        if st.next <= i {
            (Seq::empty(), Seq::empty())
        } else {
            let rest = lex_from(
                s,
                if st.next > s.len() {
                    s.len() as int
                } else {
                    st.next
                },
                st.line,
                st.column,
                legacy,
            );
            (opt_seq(st.token) + rest.0, opt_seq(st.error) + rest.1)
        }
    }
}

/// The tokens and errors of a whole text, counters starting at line 1,
/// column 1.
pub open spec fn lex(s: Seq<char>, legacy: bool) -> (Seq<TokenView>, Seq<LexicalErrorView>) {
    lex_from(s, 0, 1, 1, legacy)
}

/// How a handler's effects relate to its step: when the step does not
/// apply, nothing changes and nothing is produced.
pub open spec fn outcome(
    st: Option<LexStep>,
    applied: bool,
    token: Option<TokenView>,
    error: Option<LexicalErrorView>,
    before: (int, int, int),
    after: (int, int, int),
) -> bool {
    match st {
        None => !applied && after == before && token is None && error is None,
        Some(x) => applied && after == (x.next, x.line, x.column) && token == x.token && error
            == x.error,
    }
}

/// Room in `usize` for the counters while scanning from `i` to the end of a
/// text of `len` characters.
pub open spec fn room(len: int, i: int, line_out: int, column_out: int, column: int) -> bool {
    &&& len + 3 <= usize::MAX
    &&& line_out + (len - i) <= usize::MAX
    &&& column_out + (len - i) + 2 <= usize::MAX
    &&& column + (len - i) + 2 <= usize::MAX
}

pub proof fn lemma_ident_end(s: Seq<char>, j: int)
    requires
        0 <= j <= s.len(),
    ensures
        j <= ident_end(s, j) <= s.len(),
        forall|k: int| j <= k < ident_end(s, j) ==> is_ident_char(#[trigger] s[k]),
    decreases s.len() - j,
{
    if j < s.len() && is_ident_char(s[j]) {
        lemma_ident_end(s, j + 1);
    }
}

pub proof fn lemma_find_from(s: Seq<char>, j: int, c: char)
    requires
        0 <= j <= s.len(),
    ensures
        j <= find_from(s, j, c) <= s.len(),
        find_from(s, j, c) < s.len() ==> s[find_from(s, j, c)] == c,
    decreases s.len() - j,
{
    if j < s.len() && s[j] != c {
        lemma_find_from(s, j + 1, c);
    }
}

pub proof fn lemma_comment_close(s: Seq<char>, j: int)
    requires
        0 <= j <= s.len(),
    ensures
        j <= comment_close(s, j) <= s.len(),
        comment_close(s, j) + 1 < s.len() ==> s[comment_close(s, j)] == '*' && s[comment_close(
            s,
            j,
        ) + 1] == '/',
    decreases s.len() - j,
{
    if j + 1 < s.len() && !(s[j] == '*' && s[j + 1] == '/') {
        lemma_comment_close(s, j + 1);
    }
}

pub proof fn lemma_pos_after(s: Seq<char>, from: int, to: int, line: int, column: int)
    requires
        0 <= from <= to <= s.len(),
        1 <= line,
        1 <= column,
    ensures
        line <= pos_after(s, from, to, line, column).0 <= line + (to - from),
        1 <= pos_after(s, from, to, line, column).1 <= column + (to - from),
    decreases to - from,
{
    if from < to {
        lemma_pos_after(s, from, to - 1, line, column);
    }
}

pub proof fn lemma_skip_gap(s: Seq<char>, j: int, breaks: int, spaces: int)
    requires
        0 <= j <= s.len(),
        0 <= breaks,
        0 <= spaces,
    ensures
        ({
            let g = skip_gap(s, j, breaks, spaces);
            &&& j <= g.0 <= s.len()
            &&& breaks <= g.1 <= breaks + (g.0 - j)
            &&& 0 <= g.2 <= spaces + (g.0 - j)
            &&& g.1 > breaks ==> g.2 <= g.0 - j
            &&& g.1 == breaks ==> g.2 == spaces + (g.0 - j)
        }),
    decreases s.len() - j,
{
    if j < s.len() && is_gap(s[j]) {
        if s[j] == '\n' {
            lemma_skip_gap(s, j + 1, breaks + 1, 0);
        } else {
            lemma_skip_gap(s, j + 1, breaks, spaces + 1);
        }
    }
}

pub proof fn lemma_number_scan(s: Seq<char>, j: int, has_dot: bool)
    requires
        0 <= j <= s.len(),
    ensures
        j <= number_scan(s, j, has_dot).0 <= s.len(),
        number_scan(s, j, has_dot).2 ==> number_scan(s, j, has_dot).0 < s.len(),
    decreases s.len() - j,
{
    if j < s.len() {
        if is_digit(s[j]) {
            lemma_number_scan(s, j + 1, has_dot);
        } else if s[j] == '.' && !has_dot {
            if j + 1 < s.len() && is_digit(s[j + 1]) {
                lemma_number_scan(s, j + 1, true);
            }
        }
    }
}

/// Every step moves forward, at most one past the end, keeps the counters
/// at least 1 and within one more than the index, never moves back a line,
/// and places its token, or its error, at or after the current position.
pub proof fn lemma_step_bounds(s: Seq<char>, i: int, line: int, column: int, legacy: bool)
    requires
        0 <= i < s.len(),
        1 <= line <= i + 1,
        1 <= column <= i + 1,
    ensures
        ({
            let st = lex_step(s, i, line, column, legacy);
            &&& i < st.next <= s.len() + 1
            &&& line <= st.line <= st.next + 1
            &&& 1 <= st.column <= st.next + 1
            &&& st.token matches Some(t) ==> t.line == line && t.column == column
            &&& st.error matches Some(e) ==> e.line == line && column <= e.column
        }),
{
    let c = s[i];
    lemma_skip_gap(s, i + 1, 0, 0);
    if i + 2 <= s.len() {
        lemma_find_from(s, i + 2, '\n');
        lemma_comment_close(s, i + 2);
        lemma_pos_after(s, i + 2, comment_close(s, i + 2), line, column + 2);
    }
    lemma_find_from(s, i + 1, '"');
    lemma_find_from(s, i + 1, '\'');
    lemma_pos_after(s, i + 1, find_from(s, i + 1, '"'), line, column + 1);
    lemma_pos_after(s, i + 1, find_from(s, i + 1, '\''), line, column + 1);
    lemma_number_scan(s, i, false);
    lemma_ident_end(s, i);
    if is_digit(c) {
        lemma_number_scan(s, i + 1, false);
    }
    if is_ident_start(c) {
        lemma_ident_end(s, i + 1);
    }
}

/// One step of [`lex_from`].
pub proof fn lemma_lex_from_unfold(s: Seq<char>, i: int, line: int, column: int, legacy: bool)
    requires
        0 <= i < s.len(),
        1 <= line <= i + 1,
        1 <= column <= i + 1,
    ensures
        ({
            let st = lex_step(s, i, line, column, legacy);
            let rest = lex_from(s, st.next, st.line, st.column, legacy);
            lex_from(s, i, line, column, legacy) == (
                opt_seq(st.token) + rest.0,
                opt_seq(st.error) + rest.1,
            )
        }),
{
    let st = lex_step(s, i, line, column, legacy);
    lemma_step_bounds(s, i, line, column, legacy);
    if st.next > s.len() {
        assert(lex_from(s, st.next, st.line, st.column, legacy) == lex_from(
            s,
            s.len() as int,
            st.line,
            st.column,
            legacy,
        ));
    }
}

/// Positions are counted from 1, and tokens and errors come in the order of
/// their lines.
pub open spec fn well_placed(r: (Seq<TokenView>, Seq<LexicalErrorView>), line: int) -> bool {
    &&& forall|k: int| 0 <= k < r.0.len() ==> line <= #[trigger] r.0[k].line && 1 <= r.0[k].column
    &&& forall|k: int| 0 <= k < r.1.len() ==> line <= #[trigger] r.1[k].line && 1 <= r.1[k].column
    &&& forall|a: int, b: int| 0 <= a < b < r.0.len() ==> #[trigger] r.0[a].line <= #[trigger] r.0[b].line
    &&& forall|a: int, b: int| 0 <= a < b < r.1.len() ==> #[trigger] r.1[a].line <= #[trigger] r.1[b].line
}

pub proof fn lemma_lex_from_well_placed(s: Seq<char>, i: int, line: int, column: int, legacy: bool)
    requires
        0 <= i,
        1 <= line,
        1 <= column,
        i < s.len() ==> line <= i + 1 && column <= i + 1,
    ensures
        well_placed(lex_from(s, i, line, column, legacy), line),
    decreases s.len() - i,
{
    if i < s.len() {
        let st = lex_step(s, i, line, column, legacy);
        lemma_step_bounds(s, i, line, column, legacy);
        let n = if st.next > s.len() {
            s.len() as int
        } else {
            st.next
        };
        lemma_lex_from_well_placed(s, n, st.line, st.column, legacy);
        let rest = lex_from(s, n, st.line, st.column, legacy);
        let r = lex_from(s, i, line, column, legacy);
        assert(r.0 == opt_seq(st.token) + rest.0);
        assert(r.1 == opt_seq(st.error) + rest.1);
        assert forall|k: int| 0 <= k < r.0.len() implies line <= #[trigger] r.0[k].line && 1 <= r.0[k].column by {
            if k >= opt_seq(st.token).len() {
                assert(r.0[k] == rest.0[k - opt_seq(st.token).len()]);
            }
        }
        assert forall|k: int| 0 <= k < r.1.len() implies line <= #[trigger] r.1[k].line && 1 <= r.1[k].column by {
            if k >= opt_seq(st.error).len() {
                assert(r.1[k] == rest.1[k - opt_seq(st.error).len()]);
            }
        }
        assert forall|a: int, b: int| 0 <= a < b < r.0.len() implies #[trigger] r.0[a].line <= #[trigger] r.0[b].line by {
            let o = opt_seq(st.token).len();
            assert(r.0[b] == rest.0[b - o]);
            if a >= o {
                assert(r.0[a] == rest.0[a - o]);
            }
        }
        assert forall|a: int, b: int| 0 <= a < b < r.1.len() implies #[trigger] r.1[a].line <= #[trigger] r.1[b].line by {
            let o = opt_seq(st.error).len();
            assert(r.1[b] == rest.1[b - o]);
            if a >= o {
                assert(r.1[a] == rest.1[a - o]);
            }
        }
    }
}

/// A token type: not empty, and without whitespace.
pub open spec fn is_tag(t: Seq<char>) -> bool {
    t.len() > 0 && forall|k: int| 0 <= k < t.len() ==> !is_white(#[trigger] t[k])
}

proof fn lemma_tag_literals()
    ensures
        is_tag("OP"@),
        is_tag("ARIT"@),
        is_tag("STRING"@),
        is_tag("CHAR"@),
        is_tag("FLOAT"@),
        is_tag("INT"@),
        is_tag("REL"@),
        is_tag("ASIG"@),
        is_tag("SYM"@),
        is_tag("IF"@),
        is_tag("ELSE"@),
        is_tag("END"@),
        is_tag("DO"@),
        is_tag("WHILE"@),
        is_tag("FOR"@),
        is_tag("SWITCH"@),
        is_tag("CASE"@),
        is_tag("RETURN"@),
        is_tag("VOID"@),
        is_tag("INT_T"@),
        is_tag("FLOAT_T"@),
        is_tag("CHAR_T"@),
        is_tag("BOOL_T"@),
        is_tag("TRUE"@),
        is_tag("FALSE"@),
        is_tag("MAIN"@),
        is_tag("CIN"@),
        is_tag("COUT"@),
        is_tag("INCLUDE"@),
        is_tag("DEFINE"@),
        is_tag("STRUCT"@),
        is_tag("BREAK"@),
        is_tag("CONTINUE"@),
        is_tag("ID"@),
        is_tag("UNTIL"@),
{
    reveal_strlit("OP");
    reveal_strlit("ARIT");
    reveal_strlit("STRING");
    reveal_strlit("CHAR");
    reveal_strlit("FLOAT");
    reveal_strlit("INT");
    reveal_strlit("REL");
    reveal_strlit("ASIG");
    reveal_strlit("SYM");
    reveal_strlit("IF");
    reveal_strlit("ELSE");
    reveal_strlit("END");
    reveal_strlit("DO");
    reveal_strlit("WHILE");
    reveal_strlit("FOR");
    reveal_strlit("SWITCH");
    reveal_strlit("CASE");
    reveal_strlit("RETURN");
    reveal_strlit("VOID");
    reveal_strlit("INT_T");
    reveal_strlit("FLOAT_T");
    reveal_strlit("CHAR_T");
    reveal_strlit("BOOL_T");
    reveal_strlit("TRUE");
    reveal_strlit("FALSE");
    reveal_strlit("MAIN");
    reveal_strlit("CIN");
    reveal_strlit("COUT");
    reveal_strlit("INCLUDE");
    reveal_strlit("DEFINE");
    reveal_strlit("STRUCT");
    reveal_strlit("BREAK");
    reveal_strlit("CONTINUE");
    reveal_strlit("ID");
    reveal_strlit("UNTIL");
}

/// Every word gets a tag as its type.
proof fn lemma_word_type_tag(s: Seq<char>, legacy: bool)
    ensures
        is_tag(word_type(s, legacy)),
{
    lemma_tag_literals();
}

/// A token of one step has a tag as its type.
proof fn lemma_step_tag(s: Seq<char>, i: int, line: int, column: int, legacy: bool)
    requires
        0 <= i < s.len(),
    ensures
        lex_step(s, i, line, column, legacy).token matches Some(t) ==> is_tag(t.token_type),
{
    lemma_tag_literals();
    if is_ident_start(s[i]) {
        lemma_word_type_tag(s.subrange(i, ident_end(s, i)), legacy);
    }
}

/// Every token of a text has a tag as its type, and a line and column
/// within the length of the text.
pub proof fn lemma_lex_from_tags(s: Seq<char>, i: int, line: int, column: int, legacy: bool)
    requires
        0 <= i,
        1 <= line,
        1 <= column,
        i < s.len() ==> line <= i + 1 && column <= i + 1,
    ensures
        forall|k: int|
            0 <= k < lex_from(s, i, line, column, legacy).0.len() ==> {
                let t = #[trigger] lex_from(s, i, line, column, legacy).0[k];
                is_tag(t.token_type) && t.line <= s.len() && t.column <= s.len()
            },
    decreases s.len() - i,
{
    if i < s.len() {
        let st = lex_step(s, i, line, column, legacy);
        lemma_step_bounds(s, i, line, column, legacy);
        lemma_step_tag(s, i, line, column, legacy);
        let n = if st.next > s.len() {
            s.len() as int
        } else {
            st.next
        };
        lemma_lex_from_tags(s, n, st.line, st.column, legacy);
        let rest = lex_from(s, n, st.line, st.column, legacy);
        let r = lex_from(s, i, line, column, legacy);
        assert(r.0 == opt_seq(st.token) + rest.0);
        assert forall|k: int| 0 <= k < r.0.len() implies {
            let t = #[trigger] r.0[k];
            is_tag(t.token_type) && t.line <= s.len() && t.column <= s.len()
        } by {
            if k >= opt_seq(st.token).len() {
                assert(r.0[k] == rest.0[k - opt_seq(st.token).len()]);
            }
        }
    }
}

/// The reserved words of C--, each typed by a keyword tag of its own.
pub open spec fn reserved_words() -> Seq<Seq<char>> {
    seq!["if"@, "else"@, "end"@, "do"@, "while"@, "for"@, "switch"@, "case"@, "return"@, "void"@, "int"@, "float"@, "char"@, "bool"@, "true"@, "false"@, "main"@, "cin"@, "cout"@, "include"@, "define"@, "struct"@, "break"@, "continue"@]
}

/// A word in capitals.
pub open spec fn upper(s: Seq<char>) -> Seq<char> {
    s.map_values(|c: char| if 'a' <= c && c <= 'z' {
        ((c as int) - 32) as char
    } else {
        c
    })
}

/// The type names among the reserved words, whose tags end in `_T`.
pub open spec fn is_type_name(w: Seq<char>) -> bool {
    w == "int"@ || w == "float"@ || w == "char"@ || w == "bool"@
}

proof fn lemma_word_literals()
    ensures
        "BOOL"@ == seq!['B', 'O', 'O', 'L'],
        "BOOL_T"@ == seq!['B', 'O', 'O', 'L', '_', 'T'],
        "BREAK"@ == seq!['B', 'R', 'E', 'A', 'K'],
        "CASE"@ == seq!['C', 'A', 'S', 'E'],
        "CHAR"@ == seq!['C', 'H', 'A', 'R'],
        "CHAR_T"@ == seq!['C', 'H', 'A', 'R', '_', 'T'],
        "CIN"@ == seq!['C', 'I', 'N'],
        "CONTINUE"@ == seq!['C', 'O', 'N', 'T', 'I', 'N', 'U', 'E'],
        "COUT"@ == seq!['C', 'O', 'U', 'T'],
        "DEFINE"@ == seq!['D', 'E', 'F', 'I', 'N', 'E'],
        "DO"@ == seq!['D', 'O'],
        "ELSE"@ == seq!['E', 'L', 'S', 'E'],
        "END"@ == seq!['E', 'N', 'D'],
        "FALSE"@ == seq!['F', 'A', 'L', 'S', 'E'],
        "FLOAT"@ == seq!['F', 'L', 'O', 'A', 'T'],
        "FLOAT_T"@ == seq!['F', 'L', 'O', 'A', 'T', '_', 'T'],
        "FOR"@ == seq!['F', 'O', 'R'],
        "ID"@ == seq!['I', 'D'],
        "IF"@ == seq!['I', 'F'],
        "INCLUDE"@ == seq!['I', 'N', 'C', 'L', 'U', 'D', 'E'],
        "INT"@ == seq!['I', 'N', 'T'],
        "INT_T"@ == seq!['I', 'N', 'T', '_', 'T'],
        "MAIN"@ == seq!['M', 'A', 'I', 'N'],
        "RETURN"@ == seq!['R', 'E', 'T', 'U', 'R', 'N'],
        "STRUCT"@ == seq!['S', 'T', 'R', 'U', 'C', 'T'],
        "SWITCH"@ == seq!['S', 'W', 'I', 'T', 'C', 'H'],
        "TRUE"@ == seq!['T', 'R', 'U', 'E'],
        "UNTIL"@ == seq!['U', 'N', 'T', 'I', 'L'],
        "VOID"@ == seq!['V', 'O', 'I', 'D'],
        "WHILE"@ == seq!['W', 'H', 'I', 'L', 'E'],
        "_T"@ == seq!['_', 'T'],
        "bool"@ == seq!['b', 'o', 'o', 'l'],
        "break"@ == seq!['b', 'r', 'e', 'a', 'k'],
        "case"@ == seq!['c', 'a', 's', 'e'],
        "char"@ == seq!['c', 'h', 'a', 'r'],
        "cin"@ == seq!['c', 'i', 'n'],
        "continue"@ == seq!['c', 'o', 'n', 't', 'i', 'n', 'u', 'e'],
        "cout"@ == seq!['c', 'o', 'u', 't'],
        "define"@ == seq!['d', 'e', 'f', 'i', 'n', 'e'],
        "do"@ == seq!['d', 'o'],
        "else"@ == seq!['e', 'l', 's', 'e'],
        "end"@ == seq!['e', 'n', 'd'],
        "false"@ == seq!['f', 'a', 'l', 's', 'e'],
        "float"@ == seq!['f', 'l', 'o', 'a', 't'],
        "for"@ == seq!['f', 'o', 'r'],
        "if"@ == seq!['i', 'f'],
        "include"@ == seq!['i', 'n', 'c', 'l', 'u', 'd', 'e'],
        "int"@ == seq!['i', 'n', 't'],
        "main"@ == seq!['m', 'a', 'i', 'n'],
        "real"@ == seq!['r', 'e', 'a', 'l'],
        "return"@ == seq!['r', 'e', 't', 'u', 'r', 'n'],
        "struct"@ == seq!['s', 't', 'r', 'u', 'c', 't'],
        "switch"@ == seq!['s', 'w', 'i', 't', 'c', 'h'],
        "true"@ == seq!['t', 'r', 'u', 'e'],
        "until"@ == seq!['u', 'n', 't', 'i', 'l'],
        "void"@ == seq!['v', 'o', 'i', 'd'],
        "while"@ == seq!['w', 'h', 'i', 'l', 'e'],
{
    reveal_strlit("BOOL");
    assert("BOOL"@ =~= seq!['B', 'O', 'O', 'L']);
    reveal_strlit("BOOL_T");
    assert("BOOL_T"@ =~= seq!['B', 'O', 'O', 'L', '_', 'T']);
    reveal_strlit("BREAK");
    assert("BREAK"@ =~= seq!['B', 'R', 'E', 'A', 'K']);
    reveal_strlit("CASE");
    assert("CASE"@ =~= seq!['C', 'A', 'S', 'E']);
    reveal_strlit("CHAR");
    assert("CHAR"@ =~= seq!['C', 'H', 'A', 'R']);
    reveal_strlit("CHAR_T");
    assert("CHAR_T"@ =~= seq!['C', 'H', 'A', 'R', '_', 'T']);
    reveal_strlit("CIN");
    assert("CIN"@ =~= seq!['C', 'I', 'N']);
    reveal_strlit("CONTINUE");
    assert("CONTINUE"@ =~= seq!['C', 'O', 'N', 'T', 'I', 'N', 'U', 'E']);
    reveal_strlit("COUT");
    assert("COUT"@ =~= seq!['C', 'O', 'U', 'T']);
    reveal_strlit("DEFINE");
    assert("DEFINE"@ =~= seq!['D', 'E', 'F', 'I', 'N', 'E']);
    reveal_strlit("DO");
    assert("DO"@ =~= seq!['D', 'O']);
    reveal_strlit("ELSE");
    assert("ELSE"@ =~= seq!['E', 'L', 'S', 'E']);
    reveal_strlit("END");
    assert("END"@ =~= seq!['E', 'N', 'D']);
    reveal_strlit("FALSE");
    assert("FALSE"@ =~= seq!['F', 'A', 'L', 'S', 'E']);
    reveal_strlit("FLOAT");
    assert("FLOAT"@ =~= seq!['F', 'L', 'O', 'A', 'T']);
    reveal_strlit("FLOAT_T");
    assert("FLOAT_T"@ =~= seq!['F', 'L', 'O', 'A', 'T', '_', 'T']);
    reveal_strlit("FOR");
    assert("FOR"@ =~= seq!['F', 'O', 'R']);
    reveal_strlit("ID");
    assert("ID"@ =~= seq!['I', 'D']);
    reveal_strlit("IF");
    assert("IF"@ =~= seq!['I', 'F']);
    reveal_strlit("INCLUDE");
    assert("INCLUDE"@ =~= seq!['I', 'N', 'C', 'L', 'U', 'D', 'E']);
    reveal_strlit("INT");
    assert("INT"@ =~= seq!['I', 'N', 'T']);
    reveal_strlit("INT_T");
    assert("INT_T"@ =~= seq!['I', 'N', 'T', '_', 'T']);
    reveal_strlit("MAIN");
    assert("MAIN"@ =~= seq!['M', 'A', 'I', 'N']);
    reveal_strlit("RETURN");
    assert("RETURN"@ =~= seq!['R', 'E', 'T', 'U', 'R', 'N']);
    reveal_strlit("STRUCT");
    assert("STRUCT"@ =~= seq!['S', 'T', 'R', 'U', 'C', 'T']);
    reveal_strlit("SWITCH");
    assert("SWITCH"@ =~= seq!['S', 'W', 'I', 'T', 'C', 'H']);
    reveal_strlit("TRUE");
    assert("TRUE"@ =~= seq!['T', 'R', 'U', 'E']);
    reveal_strlit("UNTIL");
    assert("UNTIL"@ =~= seq!['U', 'N', 'T', 'I', 'L']);
    reveal_strlit("VOID");
    assert("VOID"@ =~= seq!['V', 'O', 'I', 'D']);
    reveal_strlit("WHILE");
    assert("WHILE"@ =~= seq!['W', 'H', 'I', 'L', 'E']);
    reveal_strlit("_T");
    assert("_T"@ =~= seq!['_', 'T']);
    reveal_strlit("bool");
    assert("bool"@ =~= seq!['b', 'o', 'o', 'l']);
    reveal_strlit("break");
    assert("break"@ =~= seq!['b', 'r', 'e', 'a', 'k']);
    reveal_strlit("case");
    assert("case"@ =~= seq!['c', 'a', 's', 'e']);
    reveal_strlit("char");
    assert("char"@ =~= seq!['c', 'h', 'a', 'r']);
    reveal_strlit("cin");
    assert("cin"@ =~= seq!['c', 'i', 'n']);
    reveal_strlit("continue");
    assert("continue"@ =~= seq!['c', 'o', 'n', 't', 'i', 'n', 'u', 'e']);
    reveal_strlit("cout");
    assert("cout"@ =~= seq!['c', 'o', 'u', 't']);
    reveal_strlit("define");
    assert("define"@ =~= seq!['d', 'e', 'f', 'i', 'n', 'e']);
    reveal_strlit("do");
    assert("do"@ =~= seq!['d', 'o']);
    reveal_strlit("else");
    assert("else"@ =~= seq!['e', 'l', 's', 'e']);
    reveal_strlit("end");
    assert("end"@ =~= seq!['e', 'n', 'd']);
    reveal_strlit("false");
    assert("false"@ =~= seq!['f', 'a', 'l', 's', 'e']);
    reveal_strlit("float");
    assert("float"@ =~= seq!['f', 'l', 'o', 'a', 't']);
    reveal_strlit("for");
    assert("for"@ =~= seq!['f', 'o', 'r']);
    reveal_strlit("if");
    assert("if"@ =~= seq!['i', 'f']);
    reveal_strlit("include");
    assert("include"@ =~= seq!['i', 'n', 'c', 'l', 'u', 'd', 'e']);
    reveal_strlit("int");
    assert("int"@ =~= seq!['i', 'n', 't']);
    reveal_strlit("main");
    assert("main"@ =~= seq!['m', 'a', 'i', 'n']);
    reveal_strlit("real");
    assert("real"@ =~= seq!['r', 'e', 'a', 'l']);
    reveal_strlit("return");
    assert("return"@ =~= seq!['r', 'e', 't', 'u', 'r', 'n']);
    reveal_strlit("struct");
    assert("struct"@ =~= seq!['s', 't', 'r', 'u', 'c', 't']);
    reveal_strlit("switch");
    assert("switch"@ =~= seq!['s', 'w', 'i', 't', 'c', 'h']);
    reveal_strlit("true");
    assert("true"@ =~= seq!['t', 'r', 'u', 'e']);
    reveal_strlit("until");
    assert("until"@ =~= seq!['u', 'n', 't', 'i', 'l']);
    reveal_strlit("void");
    assert("void"@ =~= seq!['v', 'o', 'i', 'd']);
    reveal_strlit("while");
    assert("while"@ =~= seq!['w', 'h', 'i', 'l', 'e']);
}

/// A reserved word is typed by its own name in capitals (a type name with
/// `_T` after it), never as `ID`; every other word is an `ID`. The second
/// scanner adds `real`, typed as `float` is, and `until`.
pub proof fn lemma_keyword_tags(w: Seq<char>)
    ensures
        reserved_words().contains(w) ==> base_keyword_type(w) == (if is_type_name(w) {
            upper(w) + "_T"@
        } else {
            upper(w)
        }),
        reserved_words().contains(w) ==> base_keyword_type(w) != "ID"@,
        !reserved_words().contains(w) ==> base_keyword_type(w) == "ID"@,
        keyword_type("real"@) == keyword_type("float"@),
        keyword_type("until"@) == upper("until"@),
        w != "real"@ && w != "until"@ ==> keyword_type(w) == base_keyword_type(w),
{
    lemma_word_literals();
    let r = reserved_words();
    assert(upper("if"@) =~= "IF"@);
    assert(upper("else"@) =~= "ELSE"@);
    assert(upper("end"@) =~= "END"@);
    assert(upper("do"@) =~= "DO"@);
    assert(upper("while"@) =~= "WHILE"@);
    assert(upper("for"@) =~= "FOR"@);
    assert(upper("switch"@) =~= "SWITCH"@);
    assert(upper("case"@) =~= "CASE"@);
    assert(upper("return"@) =~= "RETURN"@);
    assert(upper("void"@) =~= "VOID"@);
    assert(upper("int"@) =~= "INT"@);
    assert(upper("float"@) =~= "FLOAT"@);
    assert(upper("char"@) =~= "CHAR"@);
    assert(upper("bool"@) =~= "BOOL"@);
    assert(upper("true"@) =~= "TRUE"@);
    assert(upper("false"@) =~= "FALSE"@);
    assert(upper("main"@) =~= "MAIN"@);
    assert(upper("cin"@) =~= "CIN"@);
    assert(upper("cout"@) =~= "COUT"@);
    assert(upper("include"@) =~= "INCLUDE"@);
    assert(upper("define"@) =~= "DEFINE"@);
    assert(upper("struct"@) =~= "STRUCT"@);
    assert(upper("break"@) =~= "BREAK"@);
    assert(upper("continue"@) =~= "CONTINUE"@);
    assert(upper("until"@) =~= "UNTIL"@);
    if r.contains(w) {
        let i = choose|i: int| 0 <= i < r.len() && r[i] == w;
        assert(r[0] == "if"@);
        assert(r[1] == "else"@);
        assert(r[2] == "end"@);
        assert(r[3] == "do"@);
        assert(r[4] == "while"@);
        assert(r[5] == "for"@);
        assert(r[6] == "switch"@);
        assert(r[7] == "case"@);
        assert(r[8] == "return"@);
        assert(r[9] == "void"@);
        assert(r[10] == "int"@);
        assert(r[11] == "float"@);
        assert(r[12] == "char"@);
        assert(r[13] == "bool"@);
        assert(r[14] == "true"@);
        assert(r[15] == "false"@);
        assert(r[16] == "main"@);
        assert(r[17] == "cin"@);
        assert(r[18] == "cout"@);
        assert(r[19] == "include"@);
        assert(r[20] == "define"@);
        assert(r[21] == "struct"@);
        assert(r[22] == "break"@);
        assert(r[23] == "continue"@);
    } else {
        assert(r[0] == "if"@);
        assert(r[1] == "else"@);
        assert(r[2] == "end"@);
        assert(r[3] == "do"@);
        assert(r[4] == "while"@);
        assert(r[5] == "for"@);
        assert(r[6] == "switch"@);
        assert(r[7] == "case"@);
        assert(r[8] == "return"@);
        assert(r[9] == "void"@);
        assert(r[10] == "int"@);
        assert(r[11] == "float"@);
        assert(r[12] == "char"@);
        assert(r[13] == "bool"@);
        assert(r[14] == "true"@);
        assert(r[15] == "false"@);
        assert(r[16] == "main"@);
        assert(r[17] == "cin"@);
        assert(r[18] == "cout"@);
        assert(r[19] == "include"@);
        assert(r[20] == "define"@);
        assert(r[21] == "struct"@);
        assert(r[22] == "break"@);
        assert(r[23] == "continue"@);
        assert(w != "if"@);
        assert(w != "else"@);
        assert(w != "end"@);
        assert(w != "do"@);
        assert(w != "while"@);
        assert(w != "for"@);
        assert(w != "switch"@);
        assert(w != "case"@);
        assert(w != "return"@);
        assert(w != "void"@);
        assert(w != "int"@);
        assert(w != "float"@);
        assert(w != "char"@);
        assert(w != "bool"@);
        assert(w != "true"@);
        assert(w != "false"@);
        assert(w != "main"@);
        assert(w != "cin"@);
        assert(w != "cout"@);
        assert(w != "include"@);
        assert(w != "define"@);
        assert(w != "struct"@);
        assert(w != "break"@);
        assert(w != "continue"@);
    }
}

/// The first scanner types words as the second one does, but for the two
/// spellings that only the second one knows (`real` and `until`).
pub proof fn lemma_word_types_agree(w: Seq<char>)
    requires
        w != "real"@,
        w != "until"@,
    ensures
        word_type(w, true) == word_type(w, false),
{
}

} // verus!
