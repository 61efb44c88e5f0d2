//! Where the tokens and errors of the scanner stand in the text: each one
//! carries the line and column of the character where its text starts (or
//! of the character it reports), and they come in the order of the text.
use vstd::prelude::*;
use crate::compiler::lexer::model::{
    LexStep, advance_pos, arithmetic_step, block_comment_step, comment_close, double_op_step,
    find_from, ident_end, identifier_step, invalid_step, is_gap, is_ident_char, lemma_comment_close,
    lemma_find_from, lemma_ident_end, lemma_number_scan, lemma_skip_gap, lemma_step_bounds,
    lex, lex_from, lex_step, line_comment_step, number_scan, number_step, opt_seq, pos_after,
    quote_step, relational_step, sign_step, skip_gap, symbol_step, unclosed_prefix,
    whitespace_step,
};
use crate::models::error::{LexicalErrorView, quoted_message};
use crate::models::token::TokenView;
use crate::text::is_digit;

verus! {

/// The line and column (both from 1) of index `k` of `s`; a line break
/// starts a new line, any other character takes one column.
pub open spec fn position_of(s: Seq<char>, k: int) -> (int, int) {
    pos_after(s, 0, k, 1, 1)
}

/// `p` comes before `q`: on an earlier line, or earlier on the same line.
pub open spec fn before(p: (int, int), q: (int, int)) -> bool {
    p.0 < q.0 || (p.0 == q.0 && p.1 < q.1)
}

/// The token `t` starts at index `k` of `s`: it carries the position of `k`
/// and its text is the text there; only a `++` or `--` whose two signs
/// blanks separate is not found whole, its first sign is at `k`.
pub open spec fn token_at(s: Seq<char>, k: int, t: TokenView) -> bool {
    &&& 0 <= k < s.len()
    &&& position_of(s, k) == (t.line, t.column)
    &&& t.lexeme.len() > 0
    &&& s[k] == t.lexeme[0]
    &&& (t.lexeme == "++"@ || t.lexeme == "--"@ || (k + t.lexeme.len() <= s.len() && s.subrange(
        k,
        k + t.lexeme.len(),
    ) == t.lexeme))
}

/// The error `e` reports index `k` of `s` and carries its position: an
/// invalid character, the `/*` of an unclosed comment, the opening quote of
/// an unclosed literal, or the `.` of a malformed number.
pub open spec fn error_at(s: Seq<char>, k: int, e: LexicalErrorView) -> bool {
    &&& 0 <= k < s.len()
    &&& position_of(s, k) == (e.line, e.column)
    &&& {
        ||| e.message == "Invalid character "@.push(s[k])
        ||| (e.message == "Unclosed block comment"@ && s[k] == '/' && k + 1 < s.len() && s[k + 1]
            == '*')
        ||| ((s[k] == '"' || s[k] == '\'') && e.message == quoted_message(
            unclosed_prefix(s[k]),
            s.subrange(k, s.len() as int),
        ))
        ||| (s[k] == '.' && exists|j: int|
            0 <= j < k && e.message == quoted_message(
                "Malformed number: '"@,
                #[trigger] s.subrange(j, k + 1),
            ))
    }
}

/// The token `t` starts at some index of `s` from `i` on.
pub open spec fn token_from(s: Seq<char>, i: int, t: TokenView) -> bool {
    exists|k: int| i <= k && #[trigger] token_at(s, k, t)
}

/// The error `e` reports some index of `s` from `i` on.
pub open spec fn error_from(s: Seq<char>, i: int, e: LexicalErrorView) -> bool {
    exists|k: int| i <= k && #[trigger] error_at(s, k, e)
}

/// Every token and error of `r` stands where its text is in `s`, and
/// tokens, like errors, come in the order of their positions.
pub open spec fn located(s: Seq<char>, r: (Seq<TokenView>, Seq<LexicalErrorView>)) -> bool {
    &&& forall|a: int| 0 <= a < r.0.len() ==> token_from(s, 0, #[trigger] r.0[a])
    &&& forall|a: int| 0 <= a < r.1.len() ==> error_from(s, 0, #[trigger] r.1[a])
    &&& forall|a: int, b: int|
        0 <= a < b < r.0.len() ==> before(
            (#[trigger] r.0[a].line, r.0[a].column),
            (#[trigger] r.0[b].line, r.0[b].column),
        )
    &&& forall|a: int, b: int|
        0 <= a < b < r.1.len() ==> before(
            (#[trigger] r.1[a].line, r.1[a].column),
            (#[trigger] r.1[b].line, r.1[b].column),
        )
}

/// Counting from `a` to `c` goes through `b`.
proof fn lemma_pos_split(s: Seq<char>, a: int, b: int, c: int, line: int, column: int)
    requires
        a <= b <= c,
    ensures
        pos_after(s, a, c, line, column) == ({
            let p = pos_after(s, a, b, line, column);
            pos_after(s, b, c, p.0, p.1)
        }),
    decreases c - b,
{
    if c > b {
        lemma_pos_split(s, a, b, c - 1, line, column);
    }
}

/// Characters other than line breaks only move the column.
proof fn lemma_pos_flat(s: Seq<char>, a: int, b: int, line: int, column: int)
    requires
        a <= b,
        forall|k: int| a <= k < b ==> s[k] != '\n',
    ensures
        pos_after(s, a, b, line, column) == (line, column + (b - a)),
    decreases b - a,
{
    if b > a {
        lemma_pos_flat(s, a, b - 1, line, column);
    }
}

/// Position `k` from position `i` when no line break lies between.
proof fn lemma_position_flat(s: Seq<char>, i: int, k: int)
    requires
        0 <= i <= k,
        forall|j: int| i <= j < k ==> s[j] != '\n',
    ensures
        position_of(s, k) == (position_of(s, i).0, position_of(s, i).1 + (k - i)),
{
    lemma_pos_split(s, 0, i, k, 1, 1);
    lemma_pos_flat(s, i, k, position_of(s, i).0, position_of(s, i).1);
}

/// Positions grow with the index.
proof fn lemma_position_grows(s: Seq<char>, a: int, b: int)
    requires
        0 <= a < b,
    ensures
        before(position_of(s, a), position_of(s, b)),
    decreases b - a,
{
    if b > a + 1 {
        lemma_position_grows(s, a, b - 1);
    }
}

/// Where the blanks skipped from `j` end, counted as the `++` handling does.
proof fn lemma_gap_position(s: Seq<char>, j: int, b: int, sp: int, line: int, col0: int)
    requires
        0 <= j <= s.len(),
        0 <= b,
        0 <= sp,
    ensures
        ({
            let g = skip_gap(s, j, b, sp);
            pos_after(
                s,
                j,
                g.0,
                line + b,
                if b > 0 {
                    1 + sp
                } else {
                    col0 + sp
                },
            ) == (line + g.1, if g.1 > 0 {
                1 + g.2
            } else {
                col0 + g.2
            })
        }),
    decreases s.len() - j,
{
    if j < s.len() && is_gap(s[j]) {
        let g = skip_gap(s, j, b, sp);
        let p = (line + b, if b > 0 {
            1 + sp
        } else {
            col0 + sp
        });
        if s[j] == '\n' {
            lemma_skip_gap(s, j + 1, b + 1, 0);
            lemma_gap_position(s, j + 1, b + 1, 0, line, col0);
        } else {
            lemma_skip_gap(s, j + 1, b, sp + 1);
            lemma_gap_position(s, j + 1, b, sp + 1, line, col0);
        }
        lemma_pos_split(s, j, j + 1, g.0, p.0, p.1);
        assert(pos_after(s, j, j, p.0, p.1) == p);
        assert(pos_after(s, j, j + 1, p.0, p.1) == advance_pos(s[j], p.0, p.1));
    }
}

/// One step leaves the counters at the position where it resumes (unless it
/// ran off the end), its token starts at `i`, and its error reports an index
/// it went over.
pub open spec fn step_located(s: Seq<char>, i: int, st: LexStep) -> bool {
    &&& (0 <= st.next < s.len() ==> (st.line, st.column) == position_of(s, st.next))
    &&& (st.token matches Some(t) ==> token_at(s, i, t))
    &&& (st.error matches Some(e) ==> exists|k: int| i <= k < st.next && #[trigger] error_at(s, k, e))
}

pub open spec fn opt_located(s: Seq<char>, i: int, o: Option<LexStep>) -> bool {
    o matches Some(st) ==> step_located(s, i, st)
}

proof fn lemma_find_from_skips(s: Seq<char>, j: int, c: char)
    requires
        0 <= j <= s.len(),
    ensures
        forall|k: int| j <= k < find_from(s, j, c) ==> s[k] != c,
    decreases s.len() - j,
{
    if j < s.len() && s[j] != c {
        lemma_find_from_skips(s, j + 1, c);
    }
}

proof fn lemma_number_chars(s: Seq<char>, j: int, has_dot: bool)
    requires
        0 <= j <= s.len(),
    ensures
        ({
            let n = number_scan(s, j, has_dot);
            &&& forall|k: int| j <= k < n.0 ==> is_digit(s[k]) || s[k] == '.'
            &&& n.2 ==> n.0 < s.len() && s[n.0] == '.'
            &&& (j < s.len() && is_digit(s[j])) ==> n.0 > j
        }),
    decreases s.len() - j,
{
    if j < s.len() {
        if is_digit(s[j]) {
            lemma_number_chars(s, j + 1, has_dot);
            lemma_number_scan(s, j + 1, has_dot);
        } else if s[j] == '.' && !has_dot {
            if j + 1 < s.len() && is_digit(s[j + 1]) {
                lemma_number_chars(s, j + 1, true);
            }
        }
    }
}

/// The position after index `i` when `s[i]` is not a line break.
proof fn lemma_next_column(s: Seq<char>, i: int)
    requires
        0 <= i < s.len(),
        s[i] != '\n',
    ensures
        position_of(s, i + 1) == (position_of(s, i).0, position_of(s, i).1 + 1),
{
    lemma_position_flat(s, i, i + 1);
}

proof fn lemma_whitespace_located(s: Seq<char>, i: int, line: int, column: int)
    requires
        0 <= i < s.len(),
        (line, column) == position_of(s, i),
    ensures
        opt_located(s, i, whitespace_step(s[i], i, line, column)),
{
    assert(position_of(s, i + 1) == advance_pos(s[i], line, column));
}

proof fn lemma_sign_located(s: Seq<char>, i: int, line: int, column: int, sign: char)
    requires
        0 <= i < s.len(),
        (line, column) == position_of(s, i),
        sign == '+' || sign == '-',
    ensures
        opt_located(s, i, sign_step(s, s[i], i, line, column, line, sign)),
{
    if s[i] == sign {
        reveal_strlit("++");
        reveal_strlit("--");
        reveal_strlit("+");
        reveal_strlit("-");
        lemma_next_column(s, i);
        let g = skip_gap(s, i + 1, 0, 0);
        lemma_skip_gap(s, i + 1, 0, 0);
        lemma_gap_position(s, i + 1, 0, 0, line, column + 1);
        lemma_pos_split(s, 0, i + 1, g.0, 1, 1);
        assert("++"@ =~= seq!['+', '+']);
        assert("--"@ =~= seq!['-', '-']);
        assert("+"@ =~= seq!['+']);
        assert("-"@ =~= seq!['-']);
        let st = sign_step(s, s[i], i, line, column, line, sign).unwrap();
        if g.0 < s.len() && s[g.0] == sign {
            lemma_next_column(s, g.0);
            assert(position_of(s, g.0) == (line + g.1, if g.1 > 0 {
                1 + g.2
            } else {
                column + 1 + g.2
            }));
            assert(st.next < s.len() ==> (st.line, st.column) == position_of(s, st.next));
        } else {
            assert(s.subrange(i, i + 1) =~= seq![sign]);
        }
        assert(token_at(s, i, st.token.unwrap()));
    }
}

proof fn lemma_line_comment_located(s: Seq<char>, i: int, line: int, column: int)
    requires
        0 <= i < s.len(),
        (line, column) == position_of(s, i),
    ensures
        opt_located(s, i, line_comment_step(s, s[i], i, line, column)),
{
    if s[i] == '/' && i + 1 < s.len() && s[i + 1] == '/' {
        let e = find_from(s, i + 2, '\n');
        lemma_find_from(s, i + 2, '\n');
        lemma_find_from_skips(s, i + 2, '\n');
        lemma_position_flat(s, i, e);
    }
}

proof fn lemma_block_comment_located(s: Seq<char>, i: int, line: int, column: int, legacy: bool)
    requires
        0 <= i < s.len(),
        (line, column) == position_of(s, i),
    ensures
        opt_located(s, i, block_comment_step(s, s[i], i, line, column, line, column, legacy)),
{
    if s[i] == '/' && i + 1 < s.len() && s[i + 1] == '*' {
        let e = comment_close(s, i + 2);
        lemma_comment_close(s, i + 2);
        lemma_position_flat(s, i, i + 2);
        lemma_pos_split(s, 0, i + 2, e, 1, 1);
        if e + 1 < s.len() {
            lemma_next_column(s, e);
            lemma_next_column(s, e + 1);
        }
        let st = block_comment_step(s, s[i], i, line, column, line, column, legacy).unwrap();
        if let Some(err) = st.error {
            assert(error_at(s, i, err));
        }
    }
}

proof fn lemma_quote_located(s: Seq<char>, i: int, line: int, column: int, q: char)
    requires
        0 <= i < s.len(),
        (line, column) == position_of(s, i),
        q == '"' || q == '\'',
    ensures
        opt_located(s, i, quote_step(s, s[i], i, line, column, line, column, q)),
{
    if s[i] == q {
        let e = find_from(s, i + 1, q);
        lemma_find_from(s, i + 1, q);
        lemma_next_column(s, i);
        lemma_pos_split(s, 0, i + 1, e, 1, 1);
        if e < s.len() {
            lemma_next_column(s, e);
        }
        let st = quote_step(s, s[i], i, line, column, line, column, q).unwrap();
        if let Some(err) = st.error {
            assert(error_at(s, i, err));
        }
    }
}

proof fn lemma_number_located(s: Seq<char>, i: int, line: int, column: int)
    requires
        0 <= i < s.len(),
        (line, column) == position_of(s, i),
    ensures
        opt_located(s, i, number_step(s, s[i], i, line, column, column)),
{
    if is_digit(s[i]) {
        let n = number_scan(s, i, false);
        lemma_number_scan(s, i, false);
        lemma_number_chars(s, i, false);
        lemma_position_flat(s, i, n.0);
        if n.2 {
            lemma_position_flat(s, i, n.0 + 1);
            let st = number_step(s, s[i], i, line, column, column).unwrap();
            let err = st.error.unwrap();
            assert(err.message == quoted_message("Malformed number: '"@, s.subrange(i, n.0 + 1)));
            assert(error_at(s, n.0, err));
        }
    }
}

proof fn lemma_identifier_located(s: Seq<char>, i: int, line: int, column: int, legacy: bool)
    requires
        0 <= i < s.len(),
        (line, column) == position_of(s, i),
    ensures
        opt_located(s, i, identifier_step(s, s[i], i, line, column, column, legacy)),
{
    let e = ident_end(s, i);
    lemma_ident_end(s, i);
    lemma_ident_end(s, i + 1);
    assert forall|k: int| i <= k < e implies s[k] != '\n' by {
        assert(is_ident_char(s[k]));
    }
    lemma_position_flat(s, i, e);
}

proof fn lemma_short_located(s: Seq<char>, i: int, line: int, column: int, legacy: bool)
    requires
        0 <= i < s.len(),
        (line, column) == position_of(s, i),
        s[i] != '\n',
    ensures
        opt_located(s, i, double_op_step(s, i, line, column, column, legacy)),
        opt_located(s, i, arithmetic_step(s[i], i, line, column, column)),
        opt_located(s, i, relational_step(s, s[i], i, line, column, column)),
        opt_located(s, i, symbol_step(s[i], i, line, column, column)),
        step_located(s, i, invalid_step(s[i], i, line, column)),
{
    lemma_next_column(s, i);
    assert(s.subrange(i, i + 1) =~= seq![s[i]]);
    if i + 1 < s.len() && (s[i + 1] == '=' || s[i + 1] == '&' || s[i + 1] == '|') {
        lemma_next_column(s, i + 1);
    }
    let e = invalid_step(s[i], i, line, column).error.unwrap();
    assert(error_at(s, i, e));
}

/// Each step of the scanner keeps its counters on the text and places what
/// it produces where its text is.
proof fn lemma_step_located(s: Seq<char>, i: int, line: int, column: int, legacy: bool)
    requires
        0 <= i < s.len(),
        (line, column) == position_of(s, i),
    ensures
        step_located(s, i, lex_step(s, i, line, column, legacy)),
{
    lemma_whitespace_located(s, i, line, column);
    lemma_sign_located(s, i, line, column, '+');
    lemma_sign_located(s, i, line, column, '-');
    lemma_line_comment_located(s, i, line, column);
    lemma_block_comment_located(s, i, line, column, legacy);
    lemma_quote_located(s, i, line, column, '"');
    lemma_quote_located(s, i, line, column, '\'');
    lemma_number_located(s, i, line, column);
    lemma_identifier_located(s, i, line, column, legacy);
    if s[i] != '\n' {
        lemma_short_located(s, i, line, column, legacy);
    }
}

/// Everything in `r` stands at or after index `i` of `s`, in order.
pub open spec fn placed_from(s: Seq<char>, i: int, r: (Seq<TokenView>, Seq<LexicalErrorView>)) -> bool {
    &&& forall|a: int| 0 <= a < r.0.len() ==> token_from(s, i, #[trigger] r.0[a])
    &&& forall|a: int| 0 <= a < r.1.len() ==> error_from(s, i, #[trigger] r.1[a])
    &&& forall|a: int, b: int|
        0 <= a < b < r.0.len() ==> before(
            (#[trigger] r.0[a].line, r.0[a].column),
            (#[trigger] r.0[b].line, r.0[b].column),
        )
    &&& forall|a: int, b: int|
        0 <= a < b < r.1.len() ==> before(
            (#[trigger] r.1[a].line, r.1[a].column),
            (#[trigger] r.1[b].line, r.1[b].column),
        )
}

/// What [`lex_from`] produces from index `i` on stands at or after `i`, in
/// order.
proof fn lemma_lex_from_located(s: Seq<char>, i: int, line: int, column: int, legacy: bool)
    requires
        0 <= i,
        i < s.len() ==> (line, column) == position_of(s, i),
    ensures
        placed_from(s, i, lex_from(s, i, line, column, legacy)),
    decreases s.len() - i,
{
    if i < s.len() {
        crate::compiler::lexer::model::lemma_pos_after(s, 0, i, 1, 1);
        let st = lex_step(s, i, line, column, legacy);
        lemma_step_bounds(s, i, line, column, legacy);
        lemma_step_located(s, i, line, column, legacy);
        let n = if st.next > s.len() {
            s.len() as int
        } else {
            st.next
        };
        lemma_lex_from_located(s, n, st.line, st.column, legacy);
        let rest = lex_from(s, n, st.line, st.column, legacy);
        let r = lex_from(s, i, line, column, legacy);
        let ot = opt_seq(st.token);
        let oe = opt_seq(st.error);
        assert(r.0 == ot + rest.0);
        assert(r.1 == oe + rest.1);
        assert forall|a: int| 0 <= a < r.0.len() implies token_from(s, i, #[trigger] r.0[a]) by {
            if a < ot.len() {
                assert(token_at(s, i, r.0[a]));
            } else {
                let t = rest.0[a - ot.len()];
                assert(r.0[a] == t);
                let k = choose|k: int| n <= k && #[trigger] token_at(s, k, t);
                assert(i <= k && token_at(s, k, r.0[a]));
            }
        }
        assert forall|a: int| 0 <= a < r.1.len() implies error_from(s, i, #[trigger] r.1[a]) by {
            if a >= oe.len() {
                let e = rest.1[a - oe.len()];
                assert(r.1[a] == e);
                let k = choose|k: int| n <= k && #[trigger] error_at(s, k, e);
                assert(i <= k && error_at(s, k, r.1[a]));
            } else {
                let e0 = st.error.unwrap();
                assert(r.1[a] == e0);
                let k0 = choose|k: int| i <= k < st.next && #[trigger] error_at(s, k, e0);
                assert(i <= k0 && error_at(s, k0, r.1[a]));
            }
        }
        assert forall|a: int, b: int| 0 <= a < b < r.0.len() implies before(
            (#[trigger] r.0[a].line, r.0[a].column),
            (#[trigger] r.0[b].line, r.0[b].column),
        ) by {
            let o = ot.len() as int;
            assert(r.0[b] == rest.0[b - o]);
            if a >= o {
                assert(r.0[a] == rest.0[a - o]);
            } else {
                let t = rest.0[b - o];
                let k = choose|k: int| n <= k && #[trigger] token_at(s, k, t);
                lemma_position_grows(s, i, k);
            }
        }
        assert forall|a: int, b: int| 0 <= a < b < r.1.len() implies before(
            (#[trigger] r.1[a].line, r.1[a].column),
            (#[trigger] r.1[b].line, r.1[b].column),
        ) by {
            let o = oe.len() as int;
            assert(r.1[b] == rest.1[b - o]);
            if a >= o {
                assert(r.1[a] == rest.1[a - o]);
            } else {
                let e0 = st.error.unwrap();
                let k0 = choose|k: int| i <= k < st.next && #[trigger] error_at(s, k, e0);
                let e = rest.1[b - o];
                let k = choose|k: int| n <= k && #[trigger] error_at(s, k, e);
                lemma_position_grows(s, k0, k);
            }
        }
    }
}

/// Every token and error of the scanner stands where its text is (see
/// [`located`]), and they come in the order of the text: positions strictly
/// grow from one token to the next, and from one error to the next.
pub proof fn lemma_lex_located(s: Seq<char>, legacy: bool)
    ensures
        located(s, lex(s, legacy)),
{
    lemma_lex_from_located(s, 0, 1, 1, legacy);
}

} // verus!
